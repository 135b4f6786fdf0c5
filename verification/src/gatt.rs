//! The attributes of a GATT server as a central sees them: services,
//! characteristics and descriptors.

use crate::ordered::{
    lemma_in_turn_irreflexive, lemma_in_turn_total, lemma_in_turn_transitive, precedes_in_turn,
    OrderedSet, Rank, Ranked,
};
use vstd::prelude::*;

verus! {

/// The properties of a characteristic, one bit each.
#[derive(Clone, Copy, Debug, PartialEq, Eq, Hash, PartialOrd, Ord, Structural)]
pub struct CharPropFlags {
    bits: u8,
}

impl CharPropFlags {
    pub const BROADCAST: u8 = 0x01;

    pub const READ: u8 = 0x02;

    pub const WRITE_WITHOUT_RESPONSE: u8 = 0x04;

    pub const WRITE: u8 = 0x08;

    pub const NOTIFY: u8 = 0x10;

    pub const INDICATE: u8 = 0x20;

    pub const AUTHENTICATED_SIGNED_WRITES: u8 = 0x40;

    pub const EXTENDED_PROPERTIES: u8 = 0x80;

    /// The bits of the flags as a value of the specification.
    pub closed spec fn bits_spec(&self) -> u8 {
        self.bits
    }

    /// The flags with exactly the given bits. Each bit is a property, so
    /// none is dropped.
    pub fn from_bits_truncate(bits: u8) -> (res: Self)
        ensures
            res.bits_spec() == bits,
    {
        CharPropFlags { bits }
    }

    /// The flags that the host's integer stands for: its low eight bits.
    pub fn from_host(flags: i32) -> (res: Self)
        ensures
            res.bits_spec() == low_byte(flags as int),
    {
        let shifted: i64 = flags as i64 + 0x8000_0000;
        CharPropFlags { bits: (shifted % 0x100) as u8 }
    }

    /// The bits of the flags.
    #[verifier::when_used_as_spec(bits_spec)]
    pub fn bits(&self) -> (res: u8)
        ensures
            res == self.bits_spec(),
    {
        self.bits
    }

    /// Whether every bit of `flags` is set.
    pub fn contains(&self, flags: u8) -> (res: bool)
        ensures
            res == (self.bits_spec() & flags == flags),
    {
        self.bits & flags == flags
    }
}

/// The low eight bits of an integer.
pub open spec fn low_byte(value: int) -> u8 {
    (value % 0x100) as u8
}

/// How a characteristic is written.
#[derive(Clone, Copy, Debug, PartialEq, Eq, Structural)]
pub enum WriteType {
    /// The peer acknowledges the write.
    WithResponse,
    /// The peer does not acknowledge the write.
    WithoutResponse,
}

/// The value that a characteristic notified.
#[derive(Clone, Debug, PartialEq, Eq)]
pub struct ValueNotification {
    /// The characteristic that notified.
    pub uuid: u128,
    /// The value it notified.
    pub value: Vec<u8>,
}

/// A descriptor of a characteristic.
#[derive(Clone, Copy, Debug, PartialEq, Eq, Hash, PartialOrd, Ord, Structural)]
pub struct Descriptor {
    pub uuid: u128,
    /// The service that the characteristic belongs to.
    pub service_uuid: u128,
    /// The characteristic that the descriptor belongs to.
    pub characteristic_uuid: u128,
}

impl View for Descriptor {
    type V = Descriptor;

    open spec fn view(&self) -> Descriptor {
        *self
    }
}

fn rank_u128(a: u128, b: u128) -> (res: Rank)
    ensures
        res is Before <==> a < b,
        res is Same <==> a == b,
{
    if a < b {
        Rank::Before
    } else if a == b {
        Rank::Same
    } else {
        Rank::After
    }
}

impl Ranked for Descriptor {
    /// By UUID, then by service, then by characteristic.
    open spec fn precedes(a: Descriptor, b: Descriptor) -> bool {
        a.uuid < b.uuid || (a.uuid == b.uuid && (a.service_uuid < b.service_uuid || (a.service_uuid
            == b.service_uuid && a.characteristic_uuid < b.characteristic_uuid)))
    }

    proof fn lemma_irreflexive(a: Descriptor) {
    }

    proof fn lemma_transitive(a: Descriptor, b: Descriptor, c: Descriptor) {
    }

    proof fn lemma_total(a: Descriptor, b: Descriptor) {
    }

    fn rank(&self, other: &Self) -> (res: Rank) {
        match rank_u128(self.uuid, other.uuid) {
            Rank::Same => match rank_u128(self.service_uuid, other.service_uuid) {
                Rank::Same => rank_u128(self.characteristic_uuid, other.characteristic_uuid),
                decided => decided,
            },
            decided => decided,
        }
    }

    fn duplicate(&self) -> (res: Self) {
        *self
    }
}

/// A characteristic of a service.
#[derive(Debug, PartialEq, Eq, PartialOrd, Ord, Hash)]
pub struct Characteristic {
    pub uuid: u128,
    /// The service that the characteristic belongs to.
    pub service_uuid: u128,
    pub properties: CharPropFlags,
    pub descriptors: OrderedSet<Descriptor>,
}

/// The mathematical value of a [`Characteristic`].
pub struct CharacteristicView {
    pub uuid: u128,
    pub service_uuid: u128,
    pub properties: u8,
    /// The descriptors in ascending order.
    pub descriptors: Seq<Descriptor>,
}

impl View for Characteristic {
    type V = CharacteristicView;

    open spec fn view(&self) -> CharacteristicView {
        CharacteristicView {
            uuid: self.uuid,
            service_uuid: self.service_uuid,
            properties: self.properties.bits_spec(),
            descriptors: self.descriptors@,
        }
    }
}

impl Ranked for Characteristic {
    /// By UUID, then by service, then by properties, then by descriptors.
    open spec fn precedes(a: CharacteristicView, b: CharacteristicView) -> bool {
        a.uuid < b.uuid || (a.uuid == b.uuid && (a.service_uuid < b.service_uuid || (a.service_uuid
            == b.service_uuid && (a.properties < b.properties || (a.properties == b.properties
            && precedes_in_turn::<Descriptor>(a.descriptors, b.descriptors))))))
    }

    proof fn lemma_irreflexive(a: CharacteristicView) {
        lemma_in_turn_irreflexive::<Descriptor>(a.descriptors);
    }

    proof fn lemma_transitive(a: CharacteristicView, b: CharacteristicView, c: CharacteristicView) {
        if precedes_in_turn::<Descriptor>(a.descriptors, b.descriptors) && precedes_in_turn::<
            Descriptor,
        >(b.descriptors, c.descriptors) {
            lemma_in_turn_transitive::<Descriptor>(a.descriptors, b.descriptors, c.descriptors);
        }
    }

    proof fn lemma_total(a: CharacteristicView, b: CharacteristicView) {
        lemma_in_turn_total::<Descriptor>(a.descriptors, b.descriptors);
    }

    fn rank(&self, other: &Self) -> (res: Rank) {
        match rank_u128(self.uuid, other.uuid) {
            Rank::Same => match rank_u128(self.service_uuid, other.service_uuid) {
                Rank::Same => if self.properties.bits() < other.properties.bits() {
                    Rank::Before
                } else if self.properties.bits() > other.properties.bits() {
                    Rank::After
                } else {
                    self.descriptors.rank(&other.descriptors)
                },
                decided => decided,
            },
            decided => decided,
        }
    }

    fn duplicate(&self) -> (res: Self) {
        Characteristic {
            uuid: self.uuid,
            service_uuid: self.service_uuid,
            properties: self.properties,
            descriptors: self.descriptors.duplicate(),
        }
    }
}

impl Clone for Characteristic {
    fn clone(&self) -> (res: Self)
        ensures
            res@ == self@,
    {
        self.duplicate()
    }
}

/// A service of a device.
#[derive(Debug, PartialEq, Eq, PartialOrd, Ord, Hash)]
pub struct Service {
    pub uuid: u128,
    /// Whether the service is a primary one.
    pub primary: bool,
    pub characteristics: OrderedSet<Characteristic>,
}

/// The mathematical value of a [`Service`].
pub struct ServiceView {
    pub uuid: u128,
    pub primary: bool,
    /// The characteristics in ascending order.
    pub characteristics: Seq<CharacteristicView>,
}

impl View for Service {
    type V = ServiceView;

    open spec fn view(&self) -> ServiceView {
        ServiceView {
            uuid: self.uuid,
            primary: self.primary,
            characteristics: self.characteristics@,
        }
    }
}

impl Ranked for Service {
    /// By UUID, then secondary before primary, then by characteristics.
    open spec fn precedes(a: ServiceView, b: ServiceView) -> bool {
        a.uuid < b.uuid || (a.uuid == b.uuid && ((!a.primary && b.primary) || (a.primary
            == b.primary && precedes_in_turn::<Characteristic>(
            a.characteristics,
            b.characteristics,
        ))))
    }

    proof fn lemma_irreflexive(a: ServiceView) {
        lemma_in_turn_irreflexive::<Characteristic>(a.characteristics);
    }

    proof fn lemma_transitive(a: ServiceView, b: ServiceView, c: ServiceView) {
        if precedes_in_turn::<Characteristic>(a.characteristics, b.characteristics)
            && precedes_in_turn::<Characteristic>(b.characteristics, c.characteristics) {
            lemma_in_turn_transitive::<Characteristic>(
                a.characteristics,
                b.characteristics,
                c.characteristics,
            );
        }
    }

    proof fn lemma_total(a: ServiceView, b: ServiceView) {
        lemma_in_turn_total::<Characteristic>(a.characteristics, b.characteristics);
    }

    fn rank(&self, other: &Self) -> (res: Rank) {
        match rank_u128(self.uuid, other.uuid) {
            Rank::Same => if !self.primary && other.primary {
                Rank::Before
            } else if self.primary && !other.primary {
                Rank::After
            } else {
                self.characteristics.rank(&other.characteristics)
            },
            decided => decided,
        }
    }

    fn duplicate(&self) -> (res: Self) {
        Service {
            uuid: self.uuid,
            primary: self.primary,
            characteristics: self.characteristics.duplicate(),
        }
    }
}

impl Clone for Service {
    fn clone(&self) -> (res: Self)
        ensures
            res@ == self@,
    {
        self.duplicate()
    }
}

} // verus!
