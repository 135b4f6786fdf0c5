use droidplug::discovery::{build_attribute_tree, build_characteristic};
use droidplug::gatt::{CharPropFlags, Characteristic, Descriptor, Service};
use droidplug::host::{HostCharacteristic, HostDescriptor, HostService};
use droidplug::ordered::{OrderedSet, Rank, Ranked};

fn host_char(uuid: u128, properties: i32, descriptors: Vec<u128>) -> HostCharacteristic {
    HostCharacteristic {
        uuid,
        properties,
        value: vec![],
        descriptors: descriptors.into_iter().map(|uuid| HostDescriptor { uuid }).collect(),
    }
}

fn characteristic(service: u128, uuid: u128, bits: u8, descriptors: Vec<u128>) -> Characteristic {
    let mut set = OrderedSet::new();
    for d in descriptors {
        set.insert(Descriptor { uuid: d, service_uuid: service, characteristic_uuid: uuid });
    }
    Characteristic {
        uuid,
        service_uuid: service,
        properties: CharPropFlags::from_bits_truncate(bits),
        descriptors: set,
    }
}

#[test]
fn duplicate_characteristic_keeps_the_first() {
    let listed = vec![HostService {
        uuid: 0x1800,
        characteristics: vec![host_char(0x2A00, 0x02, vec![]), host_char(0x2A00, 0x08, vec![0x2902])],
    }];
    let tree = build_attribute_tree(&listed);
    assert_eq!(tree.characteristics.len(), 1);
    assert_eq!(tree.characteristics.as_slice()[0], characteristic(0x1800, 0x2A00, 0x02, vec![]));
    assert_eq!(tree.services.len(), 1);
    let service = &tree.services.as_slice()[0];
    assert_eq!(service.characteristics.len(), 1);
    assert_eq!(service.characteristics.as_slice()[0], characteristic(0x1800, 0x2A00, 0x02, vec![]));
}

#[test]
fn duplicate_across_service_objects_keeps_the_first_in_both_sets() {
    let listed = vec![
        HostService { uuid: 0x1800, characteristics: vec![host_char(0x2A00, 0x02, vec![])] },
        HostService {
            uuid: 0x1800,
            characteristics: vec![host_char(0x2A00, 0x08, vec![]), host_char(0x2A01, 0x08, vec![])],
        },
    ];
    let tree = build_attribute_tree(&listed);
    assert_eq!(tree.characteristics.len(), 2);
    assert_eq!(tree.characteristics.as_slice()[0], characteristic(0x1800, 0x2A00, 0x02, vec![]));
    assert_eq!(tree.characteristics.as_slice()[1], characteristic(0x1800, 0x2A01, 0x08, vec![]));
    assert_eq!(tree.services.len(), 2);
    let first = &tree.services.as_slice()[0];
    let second = &tree.services.as_slice()[1];
    assert_eq!(first.characteristics.as_slice().to_vec(), vec![characteristic(0x1800, 0x2A00, 0x02, vec![])]);
    assert_eq!(second.characteristics.as_slice().to_vec(), vec![characteristic(0x1800, 0x2A01, 0x08, vec![])]);
}

#[test]
fn flat_set_is_the_union_of_the_service_sets() {
    let listed = vec![
        HostService {
            uuid: 2,
            characteristics: vec![host_char(10, 1, vec![]), host_char(11, 1, vec![]), host_char(10, 2, vec![])],
        },
        HostService { uuid: 1, characteristics: vec![host_char(10, 4, vec![])] },
        HostService {
            uuid: 2,
            characteristics: vec![host_char(11, 8, vec![]), host_char(12, 8, vec![])],
        },
    ];
    let tree = build_attribute_tree(&listed);
    let mut union: Vec<Characteristic> = vec![];
    for service in tree.services.as_slice() {
        for c in service.characteristics.as_slice() {
            assert_eq!(c.service_uuid, service.uuid);
            assert!(tree.characteristics.contains(c));
            union.push(c.clone());
        }
    }
    union.sort();
    assert_eq!(union, tree.characteristics.as_slice().to_vec());
    assert_eq!(
        tree.characteristics.as_slice().to_vec(),
        vec![
            characteristic(1, 10, 4, vec![]),
            characteristic(2, 10, 1, vec![]),
            characteristic(2, 11, 1, vec![]),
            characteristic(2, 12, 8, vec![]),
        ]
    );
}

#[test]
fn same_characteristic_in_two_services_is_kept_twice() {
    let listed = vec![
        HostService { uuid: 0x1801, characteristics: vec![host_char(0x2A00, 0x02, vec![])] },
        HostService { uuid: 0x1800, characteristics: vec![host_char(0x2A00, 0x02, vec![])] },
    ];
    let tree = build_attribute_tree(&listed);
    assert_eq!(tree.characteristics.len(), 2);
    assert_eq!(tree.characteristics.as_slice()[0].service_uuid, 0x1800);
    assert_eq!(tree.characteristics.as_slice()[1].service_uuid, 0x1801);
}

#[test]
fn tree_is_ordered_by_uuid() {
    let listed = vec![
        HostService {
            uuid: 0x180F,
            characteristics: vec![host_char(0x2A19, 0x12, vec![0x2902, 0x2901, 0x2902])],
        },
        HostService {
            uuid: 0x180A,
            characteristics: vec![host_char(0x2A29, 0x02, vec![]), host_char(0x2A24, 0x02, vec![])],
        },
    ];
    let tree = build_attribute_tree(&listed);
    let services: Vec<u128> = tree.services.as_slice().iter().map(|s| s.uuid).collect();
    assert_eq!(services, vec![0x180A, 0x180F]);
    assert!(tree.services.as_slice().iter().all(|s| s.primary));
    let all: Vec<u128> = tree.characteristics.as_slice().iter().map(|c| c.uuid).collect();
    assert_eq!(all, vec![0x2A19, 0x2A24, 0x2A29]);
    let info = &tree.services.as_slice()[0];
    let own: Vec<u128> = info.characteristics.as_slice().iter().map(|c| c.uuid).collect();
    assert_eq!(own, vec![0x2A24, 0x2A29]);
    let battery = &tree.characteristics.as_slice()[0];
    assert_eq!(
        battery.descriptors.as_slice().to_vec(),
        vec![
            Descriptor { uuid: 0x2901, service_uuid: 0x180F, characteristic_uuid: 0x2A19 },
            Descriptor { uuid: 0x2902, service_uuid: 0x180F, characteristic_uuid: 0x2A19 },
        ]
    );
}

#[test]
fn empty_discovery_gives_an_empty_tree() {
    let tree = build_attribute_tree(&[]);
    assert!(tree.services.is_empty());
    assert!(tree.characteristics.is_empty());
}

#[test]
fn equal_services_collapse() {
    let listed = vec![
        HostService { uuid: 7, characteristics: vec![] },
        HostService { uuid: 7, characteristics: vec![] },
    ];
    let tree = build_attribute_tree(&listed);
    assert_eq!(tree.services.len(), 1);
}

#[test]
fn repeated_service_object_keeps_nothing_of_its_own() {
    let listed = vec![
        HostService { uuid: 7, characteristics: vec![host_char(1, 2, vec![])] },
        HostService { uuid: 7, characteristics: vec![host_char(1, 2, vec![])] },
    ];
    let tree = build_attribute_tree(&listed);
    assert_eq!(tree.characteristics.len(), 1);
    assert_eq!(tree.services.len(), 2);
    assert!(tree.services.as_slice()[0].characteristics.is_empty());
    assert_eq!(tree.services.as_slice()[1].characteristics.len(), 1);
}

#[test]
fn property_flags_are_the_low_byte() {
    assert_eq!(build_characteristic(1, &host_char(2, 0x1A, vec![])).properties.bits(), 0x1A);
    assert_eq!(build_characteristic(1, &host_char(2, 0x102, vec![])).properties.bits(), 0x02);
    assert_eq!(build_characteristic(1, &host_char(2, -1, vec![])).properties.bits(), 0xFF);
    assert_eq!(CharPropFlags::from_host(-256).bits(), 0);
    assert_eq!(CharPropFlags::from_host(i32::MIN).bits(), 0);
    assert_eq!(CharPropFlags::from_host(i32::MAX).bits(), 0xFF);
    let flags = CharPropFlags::from_host(0x12);
    assert!(flags.contains(CharPropFlags::READ));
    assert!(flags.contains(CharPropFlags::NOTIFY));
    assert!(flags.contains(CharPropFlags::READ | CharPropFlags::NOTIFY));
    assert!(!flags.contains(CharPropFlags::WRITE));
}

#[test]
fn built_characteristic_belongs_to_its_service() {
    let built = build_characteristic(0x1800, &host_char(0x2A00, 0x0A, vec![0x2902]));
    assert_eq!(built, characteristic(0x1800, 0x2A00, 0x0A, vec![0x2902]));
    assert_eq!(built.clone(), built);
}

#[test]
fn set_holds_nothing_twice_and_ascends() {
    let mut set: OrderedSet<Descriptor> = OrderedSet::new();
    let d = |uuid| Descriptor { uuid, service_uuid: 1, characteristic_uuid: 2 };
    assert!(set.insert(d(5)));
    assert!(set.insert(d(1)));
    assert!(set.insert(d(9)));
    assert!(!set.insert(d(5)));
    assert!(set.insert(d(3)));
    assert_eq!(set.len(), 4);
    assert_eq!(set.as_slice().to_vec(), vec![d(1), d(3), d(5), d(9)]);
    assert!(set.contains(&d(3)));
    assert!(!set.contains(&d(4)));
    assert_eq!(set.clone(), set);
}

#[test]
fn ranks_follow_the_fields_in_order() {
    let a = characteristic(2, 1, 0xFF, vec![9]);
    let b = characteristic(1, 2, 0x00, vec![]);
    assert_eq!(a.rank(&b), Rank::Before);
    assert_eq!(b.rank(&a), Rank::After);
    assert_eq!(a.rank(&a.clone()), Rank::Same);
    let c = characteristic(2, 1, 0xFF, vec![9, 10]);
    assert_eq!(a.rank(&c), Rank::Before);
    assert_eq!(a < c, true);
    let d = characteristic(2, 1, 0xFE, vec![9, 10]);
    assert_eq!(d.rank(&a), Rank::Before);
    let empty = Service { uuid: 1, primary: false, characteristics: OrderedSet::new() };
    let mut full = Service { uuid: 1, primary: true, characteristics: OrderedSet::new() };
    assert_eq!(empty.rank(&full), Rank::Before);
    full.primary = false;
    full.characteristics.insert(a);
    assert_eq!(empty.rank(&full), Rank::Before);
    assert_eq!(full.rank(&empty), Rank::After);
    assert_eq!(full.rank(&full.clone()), Rank::Same);
}
