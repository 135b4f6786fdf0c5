use droidplug::address::BDAddr;
use droidplug::advertisement::{decode_scan_result, ScanRecord, ScanResult};
use droidplug::bridge::Completion;
use droidplug::error::{BridgeFault, Error};
use droidplug::gatt::{CharPropFlags, Characteristic, Descriptor, ValueNotification, WriteType};
use droidplug::host::{
    HostCall, HostCharacteristic, HostService, SparseCursor, WRITE_TYPE_DEFAULT,
    WRITE_TYPE_NO_RESPONSE,
};
use droidplug::ordered::OrderedSet;
use droidplug::peripheral::{decode_notification, decode_notifications, Peripheral, PeripheralId};
use droidplug::registry::Registry;
use droidplug::scan_filter::{service_strings, ScanFilter};

fn addr() -> BDAddr {
    BDAddr::from_bytes([0xAA, 0xBB, 0xCC, 0x01, 0x02, 0x03])
}

fn registered() -> (Peripheral, Registry) {
    let mut registry = Registry::new();
    registry.add(PeripheralId::new(addr()));
    (Peripheral::new(addr()), registry)
}

fn characteristic(uuid: u128) -> Characteristic {
    Characteristic {
        uuid,
        service_uuid: 0x1800,
        properties: CharPropFlags::from_bits_truncate(0x0A),
        descriptors: OrderedSet::new(),
    }
}

#[test]
fn every_operation_fails_once_the_adapter_is_gone() {
    let peripheral = Peripheral::new(addr());
    let c = characteristic(1);
    let d = Descriptor { uuid: 2, service_uuid: 0x1800, characteristic_uuid: 1 };
    assert_eq!(peripheral.ensure_available(None), Err(Error::DeviceNotFound));
    assert_eq!(peripheral.connect(None), Err(Error::DeviceNotFound));
    assert_eq!(peripheral.disconnect(None), Err(Error::DeviceNotFound));
    assert_eq!(peripheral.is_connected(None), Err(Error::DeviceNotFound));
    assert_eq!(peripheral.mtu(None), Err(Error::DeviceNotFound));
    assert_eq!(peripheral.discover_services(None), Err(Error::DeviceNotFound));
    assert_eq!(peripheral.read(None, &c), Err(Error::DeviceNotFound));
    assert_eq!(
        peripheral.write(None, &c, &[1], WriteType::WithResponse),
        Err(Error::DeviceNotFound)
    );
    assert_eq!(peripheral.subscribe(None, &c), Err(Error::DeviceNotFound));
    assert_eq!(peripheral.unsubscribe(None, &c), Err(Error::DeviceNotFound));
    assert_eq!(peripheral.notifications(None), Err(Error::DeviceNotFound));
    assert_eq!(peripheral.read_descriptor(None, &d), Err(Error::DeviceNotFound));
    assert_eq!(peripheral.write_descriptor(None, &d, &[1]), Err(Error::DeviceNotFound));
}

#[test]
fn untracked_peripheral_is_not_found() {
    let (peripheral, mut registry) = registered();
    assert_eq!(peripheral.ensure_available(Some(&registry)), Ok(()));
    registry.remove(&peripheral.id());
    assert_eq!(peripheral.ensure_available(Some(&registry)), Err(Error::DeviceNotFound));
    assert_eq!(peripheral.connect(Some(&registry)), Err(Error::DeviceNotFound));
    let empty = Registry::new();
    assert_eq!(peripheral.read(Some(&empty), &characteristic(1)), Err(Error::DeviceNotFound));
}

#[test]
fn registry_tracks_what_was_added() {
    let mut registry = Registry::new();
    let a = PeripheralId::new(BDAddr::from_bytes([1, 1, 1, 1, 1, 1]));
    let b = PeripheralId::new(BDAddr::from_bytes([2, 2, 2, 2, 2, 2]));
    assert!(!registry.tracks(&a));
    registry.add(a);
    registry.add(b);
    registry.add(a);
    assert!(registry.tracks(&a));
    assert!(registry.tracks(&b));
    registry.remove(&a);
    assert!(!registry.tracks(&a));
    assert!(registry.tracks(&b));
}

#[test]
fn operations_name_their_host_calls() {
    let (peripheral, registry) = registered();
    let live = Some(&registry);
    let c = characteristic(0x2A00);
    let d = Descriptor { uuid: 0x2902, service_uuid: 0x1800, characteristic_uuid: 0x2A00 };
    assert_eq!(peripheral.connect(live).unwrap().call(), &HostCall::Connect);
    assert_eq!(peripheral.disconnect(live).unwrap().call(), &HostCall::Disconnect);
    assert_eq!(peripheral.is_connected(live).unwrap().call(), &HostCall::IsConnected);
    assert_eq!(peripheral.mtu(live).unwrap().call(), &HostCall::GetMtu);
    assert_eq!(peripheral.discover_services(live).unwrap().call(), &HostCall::DiscoverServices);
    assert_eq!(peripheral.read(live, &c).unwrap().call(), &HostCall::Read { uuid: 0x2A00 });
    assert_eq!(
        peripheral.subscribe(live, &c).unwrap().call(),
        &HostCall::SetCharacteristicNotification { uuid: 0x2A00, enable: true }
    );
    assert_eq!(
        peripheral.unsubscribe(live, &c).unwrap().call(),
        &HostCall::SetCharacteristicNotification { uuid: 0x2A00, enable: false }
    );
    assert_eq!(peripheral.notifications(live).unwrap().call(), &HostCall::GetNotifications);
    assert_eq!(
        peripheral.read_descriptor(live, &d).unwrap().call(),
        &HostCall::ReadDescriptor { characteristic: 0x2A00, uuid: 0x2902 }
    );
    assert_eq!(
        peripheral.write_descriptor(live, &d, &[1, 0]).unwrap().call(),
        &HostCall::WriteDescriptor { characteristic: 0x2A00, uuid: 0x2902, data: vec![1, 0] }
    );
}

#[test]
fn write_types_map_to_the_host_numbers() {
    let (peripheral, registry) = registered();
    let c = characteristic(0x2A00);
    assert_eq!(WRITE_TYPE_DEFAULT, 2);
    assert_eq!(WRITE_TYPE_NO_RESPONSE, 1);
    assert_eq!(
        peripheral.write(Some(&registry), &c, &[7, 8], WriteType::WithResponse).unwrap().call(),
        &HostCall::Write { uuid: 0x2A00, data: vec![7, 8], write_type: 2 }
    );
    assert_eq!(
        peripheral.write(Some(&registry), &c, &[], WriteType::WithoutResponse).unwrap().call(),
        &HostCall::Write { uuid: 0x2A00, data: vec![], write_type: 1 }
    );
}

#[test]
fn new_session_knows_nothing() {
    let peripheral = Peripheral::new(addr());
    assert_eq!(peripheral.address(), addr());
    assert_eq!(peripheral.id(), PeripheralId::new(addr()));
    assert_eq!(peripheral.properties(), None);
    assert!(peripheral.services().is_empty());
    assert!(peripheral.characteristics().is_empty());
}

#[test]
fn reported_properties_replace_the_earlier() {
    let mut peripheral = Peripheral::new(addr());
    let report = |byte: u8| ScanResult {
        address: "AA:BB:CC:01:02:03".to_string(),
        tx_power: 127,
        rssi: -40,
        scan_record: Some(ScanRecord {
            device_name: None,
            bytes: vec![0x04, 0xFF, 0x4C, 0x00, byte],
            service_data: None,
            service_uuids: None,
        }),
    };
    let first = decode_scan_result(&report(1)).unwrap().1.unwrap();
    let second = decode_scan_result(&report(2)).unwrap().1.unwrap();
    peripheral.report_properties(first.clone());
    assert_eq!(peripheral.properties(), Some(first));
    peripheral.report_properties(second.clone());
    assert_eq!(peripheral.properties(), Some(second));
}

fn listed(uuid: u128, chars: Vec<u128>) -> HostService {
    HostService {
        uuid,
        characteristics: chars
            .into_iter()
            .map(|uuid| HostCharacteristic { uuid, properties: 2, value: vec![], descriptors: vec![] })
            .collect(),
    }
}

#[test]
fn discovery_replaces_the_snapshot_whole() {
    let mut peripheral = Peripheral::new(addr());
    peripheral.commit_discovery(&[listed(1, vec![10, 11]), listed(2, vec![20])]);
    assert_eq!(peripheral.services().len(), 2);
    assert_eq!(peripheral.characteristics().len(), 3);
    peripheral.commit_discovery(&[listed(3, vec![30])]);
    let services = peripheral.services();
    assert_eq!(services.len(), 1);
    assert_eq!(services.as_slice()[0].uuid, 3);
    let all: Vec<u128> = peripheral.characteristics().as_slice().iter().map(|c| c.uuid).collect();
    assert_eq!(all, vec![30]);
    assert_eq!(peripheral.properties(), None);
}

#[test]
fn settle_takes_services_and_hands_the_rest_on() {
    let mut peripheral = Peripheral::new(addr());
    assert_eq!(
        peripheral.settle(Ok(Completion::Services(vec![listed(1, vec![10])]))),
        Ok(Completion::Done)
    );
    assert_eq!(peripheral.characteristics().len(), 1);
    assert_eq!(peripheral.settle(Ok(Completion::Value(vec![1]))), Ok(Completion::Value(vec![1])));
    assert_eq!(peripheral.settle(Err(Error::NotConnected)), Err(Error::NotConnected));
    assert_eq!(peripheral.settle(Ok(Completion::Mtu(23))), Ok(Completion::Mtu(23)));
    assert_eq!(peripheral.characteristics().len(), 1);
}

#[test]
fn unreadable_events_are_dropped() {
    let event = |uuid: u128, value: Vec<u8>| -> Result<HostCharacteristic, BridgeFault> {
        Ok(HostCharacteristic { uuid, properties: 0x10, value, descriptors: vec![] })
    };
    assert_eq!(
        decode_notification(event(5, vec![1, 2])),
        Some(ValueNotification { uuid: 5, value: vec![1, 2] })
    );
    assert_eq!(decode_notification(Err(BridgeFault::HostException)), None);
    let run = vec![
        event(1, vec![1]),
        Err(BridgeFault::HostException),
        event(2, vec![]),
        Err(BridgeFault::Environment("gone".to_string())),
        event(1, vec![3]),
    ];
    assert_eq!(
        decode_notifications(run),
        vec![
            ValueNotification { uuid: 1, value: vec![1] },
            ValueNotification { uuid: 2, value: vec![] },
            ValueNotification { uuid: 1, value: vec![3] },
        ]
    );
    assert_eq!(decode_notifications(vec![]), vec![]);
}

#[test]
fn filter_services_are_written_hyphenated() {
    let filter = ScanFilter {
        services: vec![
            0x0000180f_0000_1000_8000_00805f9b34fb,
            0xA1A2A3A4_B1B2_C1C2_D1D2_D3D4D5D6D7D8,
            0,
        ],
    };
    assert_eq!(
        service_strings(&filter),
        vec![
            "0000180f-0000-1000-8000-00805f9b34fb".to_string(),
            "a1a2a3a4-b1b2-c1c2-d1d2-d3d4d5d6d7d8".to_string(),
            "00000000-0000-0000-0000-000000000000".to_string(),
        ]
    );
    assert!(service_strings(&ScanFilter { services: vec![] }).is_empty());
}

#[test]
fn sparse_cursor_walks_every_index_once() {
    let mut cursor = SparseCursor::new();
    let mut seen = vec![];
    while let Some(index) = cursor.peek(3) {
        seen.push(index);
        cursor.advance(3);
    }
    assert_eq!(seen, vec![0, 1, 2]);
    assert_eq!(cursor.peek(3), None);
    assert_eq!(cursor.peek(4), Some(3));
    let empty = SparseCursor::new();
    assert_eq!(empty.peek(0), None);
    assert_eq!(empty.peek(-1), None);
}

#[test]
fn sparse_cursor_stays_until_the_entry_was_fetched() {
    let mut cursor = SparseCursor::new();
    assert_eq!(cursor.peek(2), Some(0));
    assert_eq!(cursor.peek(2), Some(0));
    cursor.advance(2);
    assert_eq!(cursor.peek(2), Some(1));
    assert_eq!(cursor.peek(2), Some(1));
    cursor.advance(2);
    assert_eq!(cursor.peek(2), None);
}
