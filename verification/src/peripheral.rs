//! One peripheral session: its identity, the snapshot of what is known of
//! the device, and the operations that a caller can start on it.

use crate::address::{text_of_bytes, BDAddr};
use crate::bridge::{Completion, Exchange, Stage};
use crate::discovery::{build_attribute_tree, first_of_each_key, services_of, traversal};
use crate::error::{BridgeFault, Error};
use crate::gatt::{
    Characteristic, CharacteristicView, Descriptor, Service, ServiceView, ValueNotification,
    WriteType,
};
use crate::host::{
    HostCall, HostCharacteristic, HostService, WRITE_TYPE_DEFAULT, WRITE_TYPE_NO_RESPONSE,
};
use crate::ordered::OrderedSet;
use crate::properties::{PeripheralProperties, PropertiesView};
use crate::registry::Registry;
use vstd::prelude::*;

verus! {

/// The identifier of a peripheral, which is its address.
#[derive(Clone, Copy, Debug, Eq, Hash, PartialOrd, Ord)]
pub struct PeripheralId(pub(crate) BDAddr);

impl View for PeripheralId {
    type V = Seq<u8>;

    /// The address that identifies the peripheral.
    open spec fn view(&self) -> Seq<u8> {
        self.address_spec()@
    }
}

impl PartialEq for PeripheralId {
    fn eq(&self, other: &Self) -> (res: bool) {
        self.0 == other.0
    }
}

impl vstd::std_specs::cmp::PartialEqSpecImpl for PeripheralId {
    open spec fn obeys_eq_spec() -> bool {
        true
    }

    open spec fn eq_spec(&self, other: &Self) -> bool {
        self@ == other@
    }
}

impl PeripheralId {
    /// The address that identifies the peripheral.
    pub closed spec fn address_spec(&self) -> BDAddr {
        self.0
    }

    /// The identifier of the peripheral at `address`.
    pub fn new(address: BDAddr) -> (res: Self)
        ensures
            res@ == address@,
    {
        PeripheralId(address)
    }

    /// The address that identifies the peripheral.
    #[verifier::when_used_as_spec(address_spec)]
    pub fn address(&self) -> (res: BDAddr)
        ensures
            res == self.address_spec(),
            res@ == self@,
    {
        self.0
    }

    /// The identifier as text, which is the text of the address.
    pub fn to_string(&self) -> (res: String)
        ensures
            res@ == text_of_bytes(self@),
    {
        self.0.to_string()
    }
}

/// Whether the peripheral `id` is available: its adapter is still there and
/// still tracks it.
pub open spec fn is_available(registry: Option<&Registry>, id: Seq<u8>) -> bool {
    match registry {
        Some(live) => live@.contains(id),
        None => false,
    }
}

/// How an operation starts: with the exchange for its host call if the
/// peripheral is available, and with `DeviceNotFound` and no exchange, so
/// without any host call, if it is not.
pub open spec fn started(available: bool, call: HostCall, res: Result<Exchange, Error>) -> bool {
    match res {
        Ok(exchange) => available && exchange.call_spec() == call && exchange.stage()
            == Stage::Attaching,
        Err(error) => !available && error == Error::DeviceNotFound,
    }
}

/// The host's number for a kind of write.
pub open spec fn write_type_code(write_type: WriteType) -> i32 {
    match write_type {
        WriteType::WithResponse => WRITE_TYPE_DEFAULT,
        WriteType::WithoutResponse => WRITE_TYPE_NO_RESPONSE,
    }
}

/// What is known of the device: the snapshot that a discovery and the
/// advertisements fill.
#[derive(Debug)]
struct PeripheralShared {
    services: OrderedSet<Service>,
    characteristics: OrderedSet<Characteristic>,
    properties: Option<PeripheralProperties>,
}

/// The session of one peripheral.
#[derive(Debug)]
pub struct Peripheral {
    addr: BDAddr,
    shared: PeripheralShared,
}

/// The mathematical value of a [`Peripheral`].
pub struct PeripheralView {
    pub address: Seq<u8>,
    /// The services of the last discovery, in ascending order.
    pub services: Seq<ServiceView>,
    /// The characteristics of the last discovery, in ascending order.
    pub characteristics: Seq<CharacteristicView>,
    /// The properties of the last advertisement that carried a scan record.
    pub properties: Option<PropertiesView>,
}

impl View for Peripheral {
    type V = PeripheralView;

    closed spec fn view(&self) -> PeripheralView {
        PeripheralView {
            address: self.addr@,
            services: self.shared.services@,
            characteristics: self.shared.characteristics@,
            properties: match self.shared.properties {
                Some(properties) => Some(properties@),
                None => None,
            },
        }
    }
}

impl Peripheral {
    /// The session of the peripheral at `addr`, of which nothing is known yet.
    pub fn new(addr: BDAddr) -> (res: Self)
        ensures
            res@ == (PeripheralView {
                address: addr@,
                services: Seq::empty(),
                characteristics: Seq::empty(),
                properties: None,
            }),
    {
        Peripheral {
            addr,
            shared: PeripheralShared {
                services: OrderedSet::new(),
                characteristics: OrderedSet::new(),
                properties: None,
            },
        }
    }

    /// Takes the properties of an advertisement that carried a scan record.
    /// They replace what was known before.
    pub fn report_properties(&mut self, properties: PeripheralProperties)
        ensures
            final(self)@ == (PeripheralView { properties: Some(properties@), ..old(self)@ }),
    {
        self.shared.properties = Some(properties);
    }

    /// The identifier of the peripheral.
    pub fn id(&self) -> (res: PeripheralId)
        ensures
            res@ == self@.address,
    {
        PeripheralId(self.addr)
    }

    /// The address of the peripheral.
    pub fn address(&self) -> (res: BDAddr)
        ensures
            res@ == self@.address,
    {
        self.addr
    }

    /// The properties that the last advertisement with a scan record gave,
    /// none before the first such advertisement.
    pub fn properties(&self) -> (res: Option<PeripheralProperties>)
        ensures
            match res {
                Some(properties) => self@.properties == Some(properties@),
                None => self@.properties is None,
            },
    {
        match &self.shared.properties {
            Some(properties) => Some(properties.clone()),
            None => None,
        }
    }

    /// The characteristics of the last discovery, none before the first.
    pub fn characteristics(&self) -> (res: OrderedSet<Characteristic>)
        ensures
            res@ == self@.characteristics,
    {
        self.shared.characteristics.duplicate()
    }

    /// The services of the last discovery, none before the first.
    pub fn services(&self) -> (res: OrderedSet<Service>)
        ensures
            res@ == self@.services,
    {
        self.shared.services.duplicate()
    }

    /// Says whether the peripheral is available: whether its adapter, if it
    /// is still there, tracks it. Pass no registry for an adapter that is gone.
    pub fn ensure_available(&self, registry: Option<&Registry>) -> (res: Result<(), Error>)
        ensures
            res is Ok <==> is_available(registry, self@.address),
            res matches Err(error) ==> error == Error::DeviceNotFound,
    {
        match registry {
            Some(live) => {
                let id = PeripheralId(self.addr);
                if live.tracks(&id) {
                    Ok(())
                } else {
                    Err(Error::DeviceNotFound)
                }
            },
            None => Err(Error::DeviceNotFound),
        }
    }

    fn start(&self, registry: Option<&Registry>, call: HostCall) -> (res: Result<Exchange, Error>)
        ensures
            started(is_available(registry, self@.address), call, res),
    {
        match self.ensure_available(registry) {
            Ok(()) => Ok(Exchange::begin(call)),
            Err(error) => Err(error),
        }
    }

    /// Starts the query whether the device is connected.
    pub fn is_connected(&self, registry: Option<&Registry>) -> (res: Result<Exchange, Error>)
        ensures
            started(is_available(registry, self@.address), HostCall::IsConnected, res),
    {
        self.start(registry, HostCall::IsConnected)
    }

    /// Starts the query for the transmission unit of the connection.
    pub fn mtu(&self, registry: Option<&Registry>) -> (res: Result<Exchange, Error>)
        ensures
            started(is_available(registry, self@.address), HostCall::GetMtu, res),
    {
        self.start(registry, HostCall::GetMtu)
    }

    /// Starts a connection.
    pub fn connect(&self, registry: Option<&Registry>) -> (res: Result<Exchange, Error>)
        ensures
            started(is_available(registry, self@.address), HostCall::Connect, res),
    {
        self.start(registry, HostCall::Connect)
    }

    /// Starts a disconnection.
    pub fn disconnect(&self, registry: Option<&Registry>) -> (res: Result<Exchange, Error>)
        ensures
            started(is_available(registry, self@.address), HostCall::Disconnect, res),
    {
        self.start(registry, HostCall::Disconnect)
    }

    /// Starts a discovery of the services of the device.
    pub fn discover_services(&self, registry: Option<&Registry>) -> (res: Result<Exchange, Error>)
        ensures
            started(is_available(registry, self@.address), HostCall::DiscoverServices, res),
    {
        self.start(registry, HostCall::DiscoverServices)
    }

    /// Starts a write of `data` to the characteristic.
    pub fn write(
        &self,
        registry: Option<&Registry>,
        characteristic: &Characteristic,
        data: &[u8],
        write_type: WriteType,
    ) -> (res: Result<Exchange, Error>)
        ensures
            res matches Ok(exchange) ==> exchange.call_spec() matches HostCall::Write {
                uuid,
                data: sent,
                write_type: code,
            } && uuid == characteristic.uuid && sent@ == data@ && code == write_type_code(
                write_type,
            ) && exchange.stage() == Stage::Attaching,
            res is Ok <==> is_available(registry, self@.address),
            res matches Err(error) ==> error == Error::DeviceNotFound,
    {
        let code = match write_type {
            WriteType::WithResponse => WRITE_TYPE_DEFAULT,
            WriteType::WithoutResponse => WRITE_TYPE_NO_RESPONSE,
        };
        self.start(
            registry,
            HostCall::Write {
                uuid: characteristic.uuid,
                data: vstd::slice::slice_to_vec(data),
                write_type: code,
            },
        )
    }

    /// Starts a read of the characteristic.
    pub fn read(&self, registry: Option<&Registry>, characteristic: &Characteristic) -> (res:
        Result<Exchange, Error>)
        ensures
            started(
                is_available(registry, self@.address),
                HostCall::Read { uuid: characteristic.uuid },
                res,
            ),
    {
        self.start(registry, HostCall::Read { uuid: characteristic.uuid })
    }

    /// Starts to switch the notifications of the characteristic on.
    pub fn subscribe(&self, registry: Option<&Registry>, characteristic: &Characteristic) -> (res:
        Result<Exchange, Error>)
        ensures
            started(
                is_available(registry, self@.address),
                HostCall::SetCharacteristicNotification { uuid: characteristic.uuid, enable: true },
                res,
            ),
    {
        self.start(
            registry,
            HostCall::SetCharacteristicNotification { uuid: characteristic.uuid, enable: true },
        )
    }

    /// Starts to switch the notifications of the characteristic off.
    pub fn unsubscribe(&self, registry: Option<&Registry>, characteristic: &Characteristic) -> (res:
        Result<Exchange, Error>)
        ensures
            started(
                is_available(registry, self@.address),
                HostCall::SetCharacteristicNotification { uuid: characteristic.uuid, enable: false },
                res,
            ),
    {
        self.start(
            registry,
            HostCall::SetCharacteristicNotification { uuid: characteristic.uuid, enable: false },
        )
    }

    /// Starts to open the stream of notifications.
    pub fn notifications(&self, registry: Option<&Registry>) -> (res: Result<Exchange, Error>)
        ensures
            started(is_available(registry, self@.address), HostCall::GetNotifications, res),
    {
        self.start(registry, HostCall::GetNotifications)
    }

    /// Starts a write of `data` to the descriptor.
    pub fn write_descriptor(
        &self,
        registry: Option<&Registry>,
        descriptor: &Descriptor,
        data: &[u8],
    ) -> (res: Result<Exchange, Error>)
        ensures
            res matches Ok(exchange) ==> exchange.call_spec() matches HostCall::WriteDescriptor {
                characteristic,
                uuid,
                data: sent,
            } && characteristic == descriptor.characteristic_uuid && uuid == descriptor.uuid
                && sent@ == data@ && exchange.stage() == Stage::Attaching,
            res is Ok <==> is_available(registry, self@.address),
            res matches Err(error) ==> error == Error::DeviceNotFound,
    {
        self.start(
            registry,
            HostCall::WriteDescriptor {
                characteristic: descriptor.characteristic_uuid,
                uuid: descriptor.uuid,
                data: vstd::slice::slice_to_vec(data),
            },
        )
    }

    /// Starts a read of the descriptor.
    pub fn read_descriptor(&self, registry: Option<&Registry>, descriptor: &Descriptor) -> (res:
        Result<Exchange, Error>)
        ensures
            started(
                is_available(registry, self@.address),
                HostCall::ReadDescriptor {
                    characteristic: descriptor.characteristic_uuid,
                    uuid: descriptor.uuid,
                },
                res,
            ),
    {
        self.start(
            registry,
            HostCall::ReadDescriptor {
                characteristic: descriptor.characteristic_uuid,
                uuid: descriptor.uuid,
            },
        )
    }

    /// Takes the services that a discovery listed: the attribute tree built
    /// from them replaces the services and characteristics known before,
    /// whole, and nothing else changes.
    pub fn commit_discovery(&mut self, listed: &[HostService])
        ensures
            final(self)@ == (PeripheralView {
                services: services_of(listed@),
                characteristics: first_of_each_key(traversal(listed@)),
                ..old(self)@
            }),
    {
        let tree = build_attribute_tree(listed);
        self.shared.services = tree.services;
        self.shared.characteristics = tree.characteristics;
    }

    /// Settles the result of an operation on the session: the services of a
    /// discovery are taken and the operation is done; every other result is
    /// handed on as it is and leaves the session as it was.
    pub fn settle(&mut self, outcome: Result<Completion, Error>) -> (res: Result<
        Completion,
        Error,
    >)
        ensures
            match outcome {
                Ok(Completion::Services(listed)) => res == Ok::<Completion, Error>(Completion::Done)
                    && final(self)@ == (PeripheralView {
                    services: services_of(listed@),
                    characteristics: first_of_each_key(traversal(listed@)),
                    ..old(self)@
                }),
                _ => res == outcome && final(self)@ == old(self)@,
            },
    {
        match outcome {
            Ok(Completion::Services(listed)) => {
                self.commit_discovery(listed.as_slice());
                Ok(Completion::Done)
            },
            other => other,
        }
    }
}

/// A peripheral whose adapter is gone, or no longer tracks it, is inert:
/// whatever operation is started, it ends at once in `DeviceNotFound`, and
/// no exchange comes to be, so that no host call is made.
pub proof fn lemma_unavailable_is_inert(
    registry: Option<&Registry>,
    id: Seq<u8>,
    call: HostCall,
    res: Result<Exchange, Error>,
)
    requires
        registry is None || !registry->0@.contains(id),
        started(is_available(registry, id), call, res),
    ensures
        res == Err::<Exchange, Error>(Error::DeviceNotFound),
{
}

/// The notification that one event of the host's stream stands for: the
/// characteristic that the event carries, with its value. An event that the
/// driver could not read stands for none.
pub open spec fn notification_of(event: Result<HostCharacteristic, BridgeFault>) -> Option<
    ValueNotification,
> {
    match event {
        Ok(characteristic) => Some(
            ValueNotification { uuid: characteristic.uuid, value: characteristic.value },
        ),
        Err(_) => None,
    }
}

/// The notifications that a run of events delivers: those of the events that
/// stand for one, in the order of the events.
pub open spec fn delivered(events: Seq<Result<HostCharacteristic, BridgeFault>>) -> Seq<
    ValueNotification,
>
    decreases events.len(),
{
    if events.len() == 0 {
        Seq::empty()
    } else {
        match notification_of(events.last()) {
            Some(notification) => delivered(events.drop_last()).push(notification),
            None => delivered(events.drop_last()),
        }
    }
}

/// Decodes one event of the host's notification stream. An event that could
/// not be read is dropped: it gives no notification and no error.
pub fn decode_notification(event: Result<HostCharacteristic, BridgeFault>) -> (res: Option<
    ValueNotification,
>)
    ensures
        res == notification_of(event),
{
    match event {
        Ok(characteristic) => Some(
            ValueNotification { uuid: characteristic.uuid, value: characteristic.value },
        ),
        Err(_) => None,
    }
}

/// Decodes a run of events of the host's notification stream. Events that
/// could not be read are dropped and do not end the run.
pub fn decode_notifications(events: Vec<Result<HostCharacteristic, BridgeFault>>) -> (res: Vec<
    ValueNotification,
>)
    ensures
        res@ == delivered(events@),
{
    let ghost all = events@;
    let mut res: Vec<ValueNotification> = Vec::new();
    for event in it: events
        invariant
            it.seq() == all,
            res@ == delivered(all.take(it.index() as int)),
    {
        proof {
            assert(all.take(it.index() + 1).drop_last() == all.take(it.index() as int));
            assert(all.take(it.index() + 1).last() == event);
        }
        match decode_notification(event) {
            Some(notification) => {
                res.push(notification);
            },
            None => {},
        }
    }
    assert(all.take(all.len() as int) == all);
    res
}

} // verus!
