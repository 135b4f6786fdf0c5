//! Assembly of the attribute tree from what the host lists after a discovery.

use crate::gatt::{
    low_byte, CharPropFlags, Characteristic, CharacteristicView, Descriptor, Service, ServiceView,
};
use crate::host::{HostCharacteristic, HostDescriptor, HostService};
use crate::ordered::{
    collected, is_ascending, lemma_with_value, views_of, with_value, OrderedSet, Ranked,
};
use vstd::prelude::*;

verus! {

/// The descriptors of one characteristic, in the order in which the host
/// lists them.
pub open spec fn descriptors_of(
    service: u128,
    characteristic: u128,
    listed: Seq<HostDescriptor>,
) -> Seq<Descriptor> {
    Seq::new(
        listed.len(),
        |i: int|
            Descriptor { uuid: listed[i].uuid, service_uuid: service, characteristic_uuid: characteristic },
    )
}

/// The characteristic of service `service` that the host's object stands for.
pub open spec fn characteristic_of(service: u128, listed: HostCharacteristic) -> CharacteristicView {
    CharacteristicView {
        uuid: listed.uuid,
        service_uuid: service,
        properties: low_byte(listed.properties as int),
        descriptors: collected::<Descriptor>(
            descriptors_of(service, listed.uuid, listed.descriptors@),
        ),
    }
}

/// The characteristics of one service, in the order in which the host lists
/// them.
pub open spec fn characteristics_of(service: HostService) -> Seq<CharacteristicView> {
    Seq::new(
        service.characteristics@.len(),
        |i: int| characteristic_of(service.uuid, service.characteristics@[i]),
    )
}

/// The characteristics of all services, in the order of the traversal:
/// service by service, and within a service as the host lists them.
pub open spec fn traversal(services: Seq<HostService>) -> Seq<CharacteristicView>
    decreases services.len(),
{
    if services.len() == 0 {
        Seq::empty()
    } else {
        traversal(services.drop_last()) + characteristics_of(services.last())
    }
}

/// Whether two characteristics have the same key: service and UUID.
pub open spec fn same_key(a: CharacteristicView, b: CharacteristicView) -> bool {
    a.service_uuid == b.service_uuid && a.uuid == b.uuid
}

/// Whether `set` holds a characteristic with the key (`service`, `uuid`).
pub open spec fn holds_key(set: Seq<CharacteristicView>, service: u128, uuid: u128) -> bool {
    exists|i: int|
        0 <= i < set.len() && (#[trigger] set[i]).service_uuid == service && set[i].uuid == uuid
}

/// The set of characteristics that a traversal leaves: each characteristic is
/// put in unless the set holds one with its key already, so of several
/// characteristics with one key the first stays and the others are dropped.
pub open spec fn first_of_each_key(items: Seq<CharacteristicView>) -> Seq<CharacteristicView>
    decreases items.len(),
{
    if items.len() == 0 {
        Seq::empty()
    } else {
        let before = first_of_each_key(items.drop_last());
        if holds_key(before, items.last().service_uuid, items.last().uuid) {
            before
        } else {
            with_value::<Characteristic>(before, items.last())
        }
    }
}

/// What one service keeps of its own characteristics when `earlier` is the
/// traversal before it: each is put in unless the traversal so far, the
/// service's own part included, holds its key already. So a service keeps a
/// characteristic exactly when the set of all characteristics takes it in.
pub open spec fn kept_after(earlier: Seq<CharacteristicView>, own: Seq<CharacteristicView>) -> Seq<
    CharacteristicView,
>
    decreases own.len(),
{
    if own.len() == 0 {
        Seq::empty()
    } else {
        let before = kept_after(earlier, own.drop_last());
        if holds_key(earlier + own.drop_last(), own.last().service_uuid, own.last().uuid) {
            before
        } else {
            with_value::<Characteristic>(before, own.last())
        }
    }
}

/// The service that the host's object at place `s` of the list stands for.
/// Every service that the host lists counts as primary.
pub open spec fn service_at(listed: Seq<HostService>, s: int) -> ServiceView {
    ServiceView {
        uuid: listed[s].uuid,
        primary: true,
        characteristics: kept_after(traversal(listed.take(s)), characteristics_of(listed[s])),
    }
}

/// The services that the host's list stands for, in the order of the list.
pub open spec fn listed_services(listed: Seq<HostService>) -> Seq<ServiceView> {
    Seq::new(listed.len(), |i: int| service_at(listed, i))
}

/// The set of services that the host's list stands for.
pub open spec fn services_of(listed: Seq<HostService>) -> Seq<ServiceView> {
    collected::<Service>(listed_services(listed))
}

/// Whether place `i` is the first in `items` with its key.
pub open spec fn is_first_with_key(items: Seq<CharacteristicView>, i: int) -> bool {
    &&& 0 <= i < items.len()
    &&& forall|k: int| 0 <= k < i ==> !same_key(#[trigger] items[k], items[i])
}

/// What a traversal leaves ascends.
proof fn lemma_kept_ascends(items: Seq<CharacteristicView>)
    ensures
        is_ascending::<Characteristic>(first_of_each_key(items)),
    decreases items.len(),
{
    if items.len() > 0 {
        lemma_kept_ascends(items.drop_last());
        lemma_with_value::<Characteristic>(first_of_each_key(items.drop_last()), items.last());
    }
}

/// One step of a traversal: what is kept after the last characteristic is
/// what was kept before it, and the last one too unless its key was held.
proof fn lemma_kept_step(items: Seq<CharacteristicView>, x: CharacteristicView)
    requires
        items.len() > 0,
    ensures
        first_of_each_key(items).contains(x) <==> first_of_each_key(items.drop_last()).contains(x)
            || (!holds_key(
            first_of_each_key(items.drop_last()),
            items.last().service_uuid,
            items.last().uuid,
        ) && x == items.last()),
{
    lemma_kept_ascends(items.drop_last());
    lemma_with_value::<Characteristic>(first_of_each_key(items.drop_last()), items.last());
}

/// A set holds a key exactly if it holds a value with that key.
proof fn lemma_holds_key_by_value(set: Seq<CharacteristicView>, service: u128, uuid: u128)
    ensures
        holds_key(set, service, uuid) <==> exists|x: CharacteristicView|
            #[trigger] set.contains(x) && x.service_uuid == service && x.uuid == uuid,
{
    if holds_key(set, service, uuid) {
        let i = choose|i: int|
            0 <= i < set.len() && (#[trigger] set[i]).service_uuid == service && set[i].uuid
                == uuid;
        assert(set.contains(set[i]));
    }
    if exists|x: CharacteristicView|
        #[trigger] set.contains(x) && x.service_uuid == service && x.uuid == uuid {
        let x = choose|x: CharacteristicView|
            #[trigger] set.contains(x) && x.service_uuid == service && x.uuid == uuid;
        let i = choose|i: int| 0 <= i < set.len() && set[i] == x;
        assert(set[i].service_uuid == service);
    }
}

/// What a traversal leaves holds a key exactly if the key occurs in the
/// traversal.
proof fn lemma_holds_key_of_seen(items: Seq<CharacteristicView>, service: u128, uuid: u128)
    ensures
        holds_key(first_of_each_key(items), service, uuid) <==> holds_key(items, service, uuid),
    decreases items.len(),
{
    let kept = first_of_each_key(items);
    if items.len() == 0 {
        assert(kept.len() == 0);
    } else {
        let shorter = items.drop_last();
        let before = first_of_each_key(shorter);
        let last = items.last();
        let n = items.len() - 1;
        lemma_holds_key_of_seen(shorter, service, uuid);
        lemma_holds_key_by_value(kept, service, uuid);
        lemma_holds_key_by_value(before, service, uuid);
        if holds_key(kept, service, uuid) {
            let x = choose|x: CharacteristicView|
                #[trigger] kept.contains(x) && x.service_uuid == service && x.uuid == uuid;
            lemma_kept_step(items, x);
            if before.contains(x) {
                let k = choose|k: int|
                    0 <= k < shorter.len() && (#[trigger] shorter[k]).service_uuid == service
                        && shorter[k].uuid == uuid;
                assert(items[k] == shorter[k]);
            } else {
                assert(items[n] == x);
            }
            assert(holds_key(items, service, uuid));
        }
        if holds_key(items, service, uuid) {
            let k = choose|k: int|
                0 <= k < items.len() && (#[trigger] items[k]).service_uuid == service
                    && items[k].uuid == uuid;
            if k < n {
                assert(shorter[k] == items[k]);
                assert(holds_key(shorter, service, uuid));
                let x = choose|x: CharacteristicView|
                    #[trigger] before.contains(x) && x.service_uuid == service && x.uuid == uuid;
                lemma_kept_step(items, x);
                assert(kept.contains(x));
            } else {
                assert(last.service_uuid == service && last.uuid == uuid);
                if holds_key(before, service, uuid) {
                    let x = choose|x: CharacteristicView|
                        #[trigger] before.contains(x) && x.service_uuid == service && x.uuid
                            == uuid;
                    lemma_kept_step(items, x);
                    assert(kept.contains(x));
                } else {
                    lemma_kept_step(items, last);
                    assert(kept.contains(last));
                }
            }
            assert(holds_key(kept, service, uuid));
        }
    }
}

/// Whether a place of a sequence is the first of its key does not depend on
/// what follows the place.
proof fn lemma_first_within_prefix(items: Seq<CharacteristicView>, j: int)
    requires
        0 <= j < items.len() - 1,
    ensures
        is_first_with_key(items, j) <==> is_first_with_key(items.drop_last(), j),
        items[j] == items.drop_last()[j],
{
    let shorter = items.drop_last();
    assert forall|k: int| 0 <= k <= j implies #[trigger] items[k] == shorter[k] by {}
    if is_first_with_key(items, j) {
        assert forall|k: int| 0 <= k < j implies !same_key(#[trigger] shorter[k], shorter[j]) by {
            assert(items[k] == shorter[k]);
        }
    }
    if is_first_with_key(shorter, j) {
        assert forall|k: int| 0 <= k < j implies !same_key(#[trigger] items[k], items[j]) by {
            assert(items[k] == shorter[k]);
        }
    }
}

/// The last place of a traversal is the first of its key exactly if what
/// was kept before it does not hold the key.
proof fn lemma_last_is_first(items: Seq<CharacteristicView>)
    requires
        items.len() > 0,
    ensures
        is_first_with_key(items, items.len() - 1) <==> !holds_key(
            first_of_each_key(items.drop_last()),
            items.last().service_uuid,
            items.last().uuid,
        ),
{
    let shorter = items.drop_last();
    let last = items.last();
    let n = items.len() - 1;
    lemma_holds_key_of_seen(shorter, last.service_uuid, last.uuid);
    if holds_key(shorter, last.service_uuid, last.uuid) {
        let k = choose|k: int|
            0 <= k < shorter.len() && (#[trigger] shorter[k]).service_uuid == last.service_uuid
                && shorter[k].uuid == last.uuid;
        assert(items[k] == shorter[k]);
        assert(same_key(items[k], items[n]));
    } else {
        assert forall|k: int| 0 <= k < n implies !same_key(#[trigger] items[k], items[n]) by {
            assert(shorter[k] == items[k]);
        }
    }
}

/// What a traversal leaves holds a value exactly if the value stands in the
/// traversal at the first place of its key.
proof fn lemma_kept_are_the_first(items: Seq<CharacteristicView>, x: CharacteristicView)
    ensures
        first_of_each_key(items).contains(x) <==> exists|j: int|
            is_first_with_key(items, j) && #[trigger] items[j] == x,
    decreases items.len(),
{
    let kept = first_of_each_key(items);
    if items.len() == 0 {
        assert(kept.len() == 0);
    } else {
        let shorter = items.drop_last();
        let before = first_of_each_key(shorter);
        let n = items.len() - 1;
        lemma_kept_are_the_first(shorter, x);
        lemma_kept_step(items, x);
        lemma_last_is_first(items);
        if kept.contains(x) {
            if before.contains(x) {
                let j = choose|j: int| is_first_with_key(shorter, j) && #[trigger] shorter[j] == x;
                lemma_first_within_prefix(items, j);
                assert(is_first_with_key(items, j) && items[j] == x);
            } else {
                assert(is_first_with_key(items, n) && items[n] == x);
            }
        }
        if exists|j: int| is_first_with_key(items, j) && #[trigger] items[j] == x {
            let j = choose|j: int| is_first_with_key(items, j) && #[trigger] items[j] == x;
            if j < n {
                lemma_first_within_prefix(items, j);
                assert(is_first_with_key(shorter, j) && shorter[j] == x);
                assert(before.contains(x));
            }
            assert(kept.contains(x));
        }
    }
}

/// What a service keeps ascends.
proof fn lemma_kept_after_ascends(earlier: Seq<CharacteristicView>, own: Seq<CharacteristicView>)
    ensures
        is_ascending::<Characteristic>(kept_after(earlier, own)),
    decreases own.len(),
{
    if own.len() > 0 {
        lemma_kept_after_ascends(earlier, own.drop_last());
        lemma_with_value::<Characteristic>(kept_after(earlier, own.drop_last()), own.last());
    }
}

/// One step of a service's part of the traversal: what the service keeps
/// after its last characteristic is what it kept before it, and the last one
/// too unless the traversal so far holds its key.
proof fn lemma_kept_after_step(
    earlier: Seq<CharacteristicView>,
    own: Seq<CharacteristicView>,
    x: CharacteristicView,
)
    requires
        own.len() > 0,
    ensures
        kept_after(earlier, own).contains(x) <==> kept_after(earlier, own.drop_last()).contains(x)
            || (!holds_key(earlier + own.drop_last(), own.last().service_uuid, own.last().uuid)
            && x == own.last()),
{
    lemma_kept_after_ascends(earlier, own.drop_last());
    lemma_with_value::<Characteristic>(kept_after(earlier, own.drop_last()), own.last());
}

/// What a traversal leaves after a service's part is what it left before the
/// part, and what the service keeps.
proof fn lemma_flat_after(
    earlier: Seq<CharacteristicView>,
    own: Seq<CharacteristicView>,
    x: CharacteristicView,
)
    ensures
        first_of_each_key(earlier + own).contains(x) <==> first_of_each_key(earlier).contains(x)
            || kept_after(earlier, own).contains(x),
    decreases own.len(),
{
    if own.len() == 0 {
        assert(earlier + own == earlier);
        assert(kept_after(earlier, own).len() == 0);
    } else {
        let shorter = own.drop_last();
        assert((earlier + own).drop_last() == earlier + shorter);
        assert((earlier + own).last() == own.last());
        lemma_kept_step(earlier + own, x);
        lemma_kept_after_step(earlier, own, x);
        lemma_holds_key_of_seen(earlier + shorter, own.last().service_uuid, own.last().uuid);
        lemma_flat_after(earlier, shorter, x);
    }
}

/// The set of all characteristics is the union of the sets of the services:
/// it holds a characteristic exactly if some service holds it.
pub proof fn lemma_flat_is_union(listed: Seq<HostService>)
    ensures
        forall|c: CharacteristicView|
            first_of_each_key(traversal(listed)).contains(c) <==> exists|i: int|
                0 <= i < listed.len() && (#[trigger] service_at(listed, i)).characteristics.contains(
                    c,
                ),
    decreases listed.len(),
{
    if listed.len() == 0 {
        assert(first_of_each_key(traversal(listed)).len() == 0);
    } else {
        let shorter = listed.drop_last();
        let n = listed.len() - 1;
        lemma_flat_is_union(shorter);
        assert(listed.take(n) == shorter);
        assert forall|i: int| 0 <= i < n implies #[trigger] service_at(listed, i) == service_at(
            shorter,
            i,
        ) by {
            assert(listed.take(i) == shorter.take(i));
            assert(listed[i] == shorter[i]);
        }
        assert forall|c: CharacteristicView|
            first_of_each_key(traversal(listed)).contains(c) <==> exists|i: int|
                0 <= i < listed.len() && (#[trigger] service_at(listed, i)).characteristics.contains(
                    c,
                ) by {
            lemma_flat_after(traversal(shorter), characteristics_of(listed.last()), c);
            let last_keeps = service_at(listed, n).characteristics.contains(c);
            let before = first_of_each_key(traversal(shorter)).contains(c);
            assert(first_of_each_key(traversal(listed)).contains(c) <==> before || last_keeps);
            if before {
                let i = choose|i: int|
                    0 <= i < shorter.len() && (#[trigger] service_at(
                        shorter,
                        i,
                    )).characteristics.contains(c);
                assert(service_at(listed, i).characteristics.contains(c));
            }
            if exists|i: int|
                0 <= i < listed.len() && (#[trigger] service_at(listed, i)).characteristics.contains(
                    c,
                ) {
                let i = choose|i: int|
                    0 <= i < listed.len() && (#[trigger] service_at(
                        listed,
                        i,
                    )).characteristics.contains(c);
                if i < n {
                    assert(service_at(shorter, i).characteristics.contains(c));
                }
            }
        }
    }
}

/// What a service keeps is its own and is kept by all: every characteristic
/// in the set of the service at place `s` is one that the host lists for
/// that service, so it names the service's UUID as its service, and it
/// stands in the set of all characteristics, so it is the first of its key
/// in the traversal. The set ascends.
pub proof fn lemma_service_keeps_its_own(listed: Seq<HostService>, s: int)
    requires
        0 <= s < listed.len(),
    ensures
        forall|c: CharacteristicView| #[trigger]
            service_at(listed, s).characteristics.contains(c) ==> characteristics_of(
                listed[s],
            ).contains(c) && c.service_uuid == listed[s].uuid && first_of_each_key(
                traversal(listed),
            ).contains(c),
        is_ascending::<Characteristic>(service_at(listed, s).characteristics),
{
    let earlier = traversal(listed.take(s));
    let own = characteristics_of(listed[s]);
    lemma_kept_after_ascends(earlier, own);
    lemma_flat_is_union(listed);
    assert forall|c: CharacteristicView| #[trigger]
        service_at(listed, s).characteristics.contains(c) implies own.contains(c)
        && c.service_uuid == listed[s].uuid && first_of_each_key(traversal(listed)).contains(
        c,
    ) by {
        lemma_kept_after_is_of_own(earlier, own, c);
        let j = choose|j: int| 0 <= j < own.len() && own[j] == c;
        assert(own[j].service_uuid == listed[s].uuid);
    }
}

/// What a service keeps stands in its own part of the traversal.
proof fn lemma_kept_after_is_of_own(
    earlier: Seq<CharacteristicView>,
    own: Seq<CharacteristicView>,
    x: CharacteristicView,
)
    requires
        kept_after(earlier, own).contains(x),
    ensures
        own.contains(x),
    decreases own.len(),
{
    if own.len() == 0 {
        assert(kept_after(earlier, own).len() == 0);
    } else {
        lemma_kept_after_step(earlier, own, x);
        if kept_after(earlier, own.drop_last()).contains(x) {
            lemma_kept_after_is_of_own(earlier, own.drop_last(), x);
            let j = choose|j: int| 0 <= j < own.drop_last().len() && own.drop_last()[j] == x;
            assert(own[j] == x);
        } else {
            assert(own[own.len() - 1] == x);
        }
    }
}

/// Of the characteristics that share a key, exactly the first encountered is
/// kept: what is kept is the first of its key, every first of a key is kept,
/// no two characteristics kept share a key, and the set ascends, so nothing
/// stands in it twice.
pub proof fn lemma_first_of_each_key(items: Seq<CharacteristicView>)
    ensures
        forall|x: CharacteristicView| #[trigger]
            first_of_each_key(items).contains(x) ==> exists|j: int|
                is_first_with_key(items, j) && #[trigger] items[j] == x,
        forall|j: int|
            is_first_with_key(items, j) ==> first_of_each_key(items).contains(#[trigger] items[j]),
        forall|x: CharacteristicView, y: CharacteristicView|
            first_of_each_key(items).contains(x) && first_of_each_key(items).contains(y)
                && same_key(x, y) ==> x == y,
        is_ascending::<Characteristic>(first_of_each_key(items)),
{
    let kept = first_of_each_key(items);
    lemma_kept_ascends(items);
    assert forall|x: CharacteristicView| #[trigger] kept.contains(x) implies exists|j: int|
        is_first_with_key(items, j) && #[trigger] items[j] == x by {
        lemma_kept_are_the_first(items, x);
    }
    assert forall|j: int| is_first_with_key(items, j) implies kept.contains(
        #[trigger] items[j],
    ) by {
        lemma_kept_are_the_first(items, items[j]);
    }
    assert forall|x: CharacteristicView, y: CharacteristicView|
        kept.contains(x) && kept.contains(y) && same_key(x, y) implies x == y by {
        lemma_kept_are_the_first(items, x);
        lemma_kept_are_the_first(items, y);
        let a = choose|j: int| is_first_with_key(items, j) && #[trigger] items[j] == x;
        let b = choose|j: int| is_first_with_key(items, j) && #[trigger] items[j] == y;
        if a < b {
            assert(same_key(items[a], items[b]));
        } else if b < a {
            assert(same_key(items[b], items[a]));
        }
    }
}

/// The attribute tree of a device: its services, each with its
/// characteristics, and all its characteristics in one set.
#[derive(Debug, PartialEq, Eq)]
pub struct AttributeTree {
    pub services: OrderedSet<Service>,
    pub characteristics: OrderedSet<Characteristic>,
}

fn holds(set: &OrderedSet<Characteristic>, service: u128, uuid: u128) -> (res: bool)
    ensures
        res == holds_key(set@, service, uuid),
{
    let items = set.as_slice();
    let mut i: usize = 0;
    while i < items.len()
        invariant
            i <= items.len(),
            views_of(items@) == set@,
            forall|j: int|
                0 <= j < i ==> !((#[trigger] set@[j]).service_uuid == service && set@[j].uuid
                    == uuid),
        decreases items.len() - i,
    {
        assert(set@[i as int] == items@[i as int]@);
        if items[i].service_uuid == service && items[i].uuid == uuid {
            return true;
        }
        i = i + 1;
    }
    false
}

/// Builds one characteristic of service `service` from the host's object.
pub fn build_characteristic(service: u128, listed: &HostCharacteristic) -> (res: Characteristic)
    ensures
        res@ == characteristic_of(service, *listed),
{
    let mut descriptors: OrderedSet<Descriptor> = OrderedSet::new();
    let ghost all = descriptors_of(service, listed.uuid, listed.descriptors@);
    assert(all.take(0) =~= Seq::<Descriptor>::empty());
    let mut i: usize = 0;
    while i < listed.descriptors.len()
        invariant
            i <= listed.descriptors.len(),
            all == descriptors_of(service, listed.uuid, listed.descriptors@),
            descriptors@ == collected::<Descriptor>(all.take(i as int)),
        decreases listed.descriptors.len() - i,
    {
        let descriptor = Descriptor {
            uuid: listed.descriptors[i].uuid,
            service_uuid: service,
            characteristic_uuid: listed.uuid,
        };
        proof {
            assert(all.take(i + 1).drop_last() == all.take(i as int));
            assert(all.take(i + 1).last() == descriptor);
        }
        descriptors.insert(descriptor);
        i = i + 1;
    }
    assert(all.take(all.len() as int) == all);
    Characteristic {
        uuid: listed.uuid,
        service_uuid: service,
        properties: CharPropFlags::from_host(listed.properties),
        descriptors,
    }
}

/// Assembles the attribute tree from the services that the host lists.
///
/// Of the characteristics of the whole traversal that share service and
/// UUID, the first is kept, in the set of all characteristics and in the set
/// of the service that lists it. The others are dropped from both without an
/// error, also where another service object with the same UUID lists them.
pub fn build_attribute_tree(listed: &[HostService]) -> (res: AttributeTree)
    ensures
        res.services@ == services_of(listed@),
        res.characteristics@ == first_of_each_key(traversal(listed@)),
{
    let mut services: OrderedSet<Service> = OrderedSet::new();
    let mut all: OrderedSet<Characteristic> = OrderedSet::new();
    let ghost built = listed_services(listed@);
    assert(built.take(0) =~= Seq::<ServiceView>::empty());
    assert(listed@.take(0) =~= Seq::<HostService>::empty());
    let mut s: usize = 0;
    while s < listed.len()
        invariant
            s <= listed.len(),
            built == listed_services(listed@),
            services@ == collected::<Service>(built.take(s as int)),
            all@ == first_of_each_key(traversal(listed@.take(s as int))),
        decreases listed.len() - s,
    {
        let service = &listed[s];
        let ghost own = characteristics_of(*service);
        let ghost earlier = traversal(listed@.take(s as int));
        let mut characteristics: OrderedSet<Characteristic> = OrderedSet::new();
        assert(own.take(0) =~= Seq::<CharacteristicView>::empty());
        assert(earlier + own.take(0) == earlier);
        let mut c: usize = 0;
        while c < service.characteristics.len()
            invariant
                c <= service.characteristics.len(),
                own == characteristics_of(*service),
                characteristics@ == kept_after(earlier, own.take(c as int)),
                all@ == first_of_each_key(earlier + own.take(c as int)),
            decreases service.characteristics.len() - c,
        {
            let characteristic = build_characteristic(service.uuid, &service.characteristics[c]);
            proof {
                assert(own.take(c + 1).drop_last() == own.take(c as int));
                assert(own.take(c + 1).last() == characteristic@);
                assert((earlier + own.take(c + 1)).drop_last() == earlier + own.take(c as int));
                assert((earlier + own.take(c + 1)).last() == characteristic@);
                lemma_holds_key_of_seen(
                    earlier + own.take(c as int),
                    characteristic.service_uuid,
                    characteristic.uuid,
                );
            }
            if !holds(&all, characteristic.service_uuid, characteristic.uuid) {
                characteristics.insert(characteristic.duplicate());
                all.insert(characteristic);
            }
            c = c + 1;
        }
        proof {
            assert(own.take(own.len() as int) == own);
            assert(listed@.take(s + 1).drop_last() == listed@.take(s as int));
            assert(listed@.take(s + 1).last() == *service);
            assert(built.take(s + 1).drop_last() == built.take(s as int));
        }
        let assembled = Service { uuid: service.uuid, primary: true, characteristics };
        assert(built.take(s + 1).last() == assembled@);
        services.insert(assembled);
        s = s + 1;
    }
    proof {
        assert(built.take(built.len() as int) == built);
        assert(listed@.take(listed@.len() as int) == listed@);
    }
    AttributeTree { services, characteristics: all }
}

} // verus!
