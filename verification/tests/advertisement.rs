use droidplug::address::{BDAddr, ParseBDAddrError};
use droidplug::advertisement::{
    collect_service_data, decode_device_name, decode_manufacturer_data, decode_scan_result,
    decode_tx_power, narrow_to_i16, strip_replacement, ScanRecord, ScanResult, ServiceDataEntry,
};
use droidplug::error::Error;

fn record(bytes: Vec<u8>) -> ScanRecord {
    ScanRecord { device_name: None, bytes, service_data: None, service_uuids: None }
}

fn result(address: &str, scan_record: Option<ScanRecord>) -> ScanResult {
    ScanResult { address: address.to_string(), tx_power: 127, rssi: -70, scan_record }
}

#[test]
fn single_manufacturer_record() {
    let data = decode_manufacturer_data(&[0x04, 0xFF, 0x4C, 0x00, 0x02, 0x00]);
    assert_eq!(data.len(), 1);
    assert_eq!(data.get(&0x004C), Some(&vec![0x02]));
}

#[test]
fn repeated_company_is_joined_in_order() {
    let data = decode_manufacturer_data(&[
        0x04, 0xFF, 0x4C, 0x00, 0xAA, 0x04, 0xFF, 0x4C, 0x00, 0xBB, 0x00,
    ]);
    assert_eq!(data.len(), 1);
    assert_eq!(data.get(&0x004C), Some(&vec![0xAA, 0xBB]));
}

#[test]
fn companies_are_kept_apart() {
    let data = decode_manufacturer_data(&[
        0x05, 0xFF, 0x34, 0x12, 0x01, 0x02, 0x04, 0xFF, 0x4C, 0x00, 0x03, 0x04, 0xFF, 0x34, 0x12,
        0x09, 0x00,
    ]);
    assert_eq!(data.len(), 2);
    assert_eq!(data.get(&0x1234), Some(&vec![0x01, 0x02, 0x09]));
    assert_eq!(data.get(&0x004C), Some(&vec![0x03]));
}

#[test]
fn company_id_is_little_endian() {
    let data = decode_manufacturer_data(&[0x03, 0xFF, 0xCD, 0xAB, 0x00]);
    assert_eq!(data.get(&0xABCD), Some(&vec![]));
    assert_eq!(data.get(&0xCDAB), None);
}

#[test]
fn truncated_final_record_is_dropped() {
    let data = decode_manufacturer_data(&[0x04, 0xFF, 0x4C, 0x00, 0x02, 0x09, 0xFF, 0x4C, 0x00]);
    assert_eq!(data.len(), 1);
    assert_eq!(data.get(&0x004C), Some(&vec![0x02]));
}

#[test]
fn record_that_ends_with_the_buffer_is_decoded() {
    let data = decode_manufacturer_data(&[0x04, 0xFF, 0x4C, 0x00, 0x02]);
    assert_eq!(data.len(), 1);
    assert_eq!(data.get(&0x004C), Some(&vec![0x02]));
}

#[test]
fn record_one_byte_short_is_dropped() {
    let data = decode_manufacturer_data(&[0x05, 0xFF, 0x4C, 0x00, 0x02]);
    assert!(data.is_empty());
}

#[test]
fn other_record_types_are_skipped() {
    let data = decode_manufacturer_data(&[
        0x02, 0x01, 0x06, 0x03, 0x03, 0x0F, 0x18, 0x04, 0xFF, 0x4C, 0x00, 0x07, 0x00,
    ]);
    assert_eq!(data.len(), 1);
    assert_eq!(data.get(&0x004C), Some(&vec![0x07]));
}

#[test]
fn zero_length_stops_the_scan() {
    let data = decode_manufacturer_data(&[0x00, 0x04, 0xFF, 0x4C, 0x00, 0x02, 0x00]);
    assert!(data.is_empty());
}

#[test]
fn empty_buffer_has_no_data() {
    assert!(decode_manufacturer_data(&[]).is_empty());
}

#[test]
fn short_manufacturer_record_contributes_nothing() {
    let data = decode_manufacturer_data(&[
        0x02, 0xFF, 0x4C, 0x01, 0xFF, 0x04, 0xFF, 0x4C, 0x00, 0x02, 0x00,
    ]);
    assert_eq!(data.len(), 1);
    assert_eq!(data.get(&0x004C), Some(&vec![0x02]));
}

#[test]
fn tx_power_sentinel_is_absent() {
    assert_eq!(decode_tx_power(127), None);
    assert_eq!(decode_tx_power(-59), Some(-59));
    assert_eq!(decode_tx_power(0), Some(0));
    assert_eq!(decode_tx_power(126), Some(126));
}

#[test]
fn narrowing_keeps_the_low_sixteen_bits() {
    assert_eq!(narrow_to_i16(-59), -59);
    assert_eq!(narrow_to_i16(32767), 32767);
    assert_eq!(narrow_to_i16(-32768), -32768);
    assert_eq!(narrow_to_i16(32768), -32768);
    assert_eq!(narrow_to_i16(70000), 70000i32 as i16);
    assert_eq!(narrow_to_i16(70000), 4464);
    assert_eq!(narrow_to_i16(-70000), -70000i32 as i16);
    assert_eq!(narrow_to_i16(i32::MAX), -1);
    assert_eq!(narrow_to_i16(i32::MIN), 0);
}

#[test]
fn text_name_is_taken_as_it_is() {
    assert_eq!(decode_device_name(b"Polar H10"), "Polar H10");
    assert_eq!(decode_device_name("Gerät".as_bytes()), "Gerät");
    assert_eq!(decode_device_name(b""), "");
}

#[test]
fn noise_in_a_name_is_stripped() {
    assert_eq!(decode_device_name(&[0x41, 0xFF, 0x42]), "AB");
    assert_eq!(decode_device_name(&[0xFF, 0xFE]), "");
    assert_eq!(decode_device_name(&[0x48, 0x69, 0xC3]), "Hi");
}

#[test]
fn replacement_character_in_well_formed_name_stays() {
    assert_eq!(decode_device_name("a\u{FFFD}b".as_bytes()), "a\u{FFFD}b");
}

#[test]
fn strip_replacement_keeps_the_rest_in_order() {
    assert_eq!(strip_replacement("a\u{FFFD}b\u{FFFD}\u{FFFD}c"), "abc");
    assert_eq!(strip_replacement("\u{FFFD}"), "");
    assert_eq!(strip_replacement("plain"), "plain");
}

#[test]
fn later_service_data_replaces_earlier() {
    let table = collect_service_data(&[
        ServiceDataEntry { uuid: 1, data: vec![1] },
        ServiceDataEntry { uuid: 2, data: vec![2, 2] },
        ServiceDataEntry { uuid: 1, data: vec![3] },
    ]);
    assert_eq!(table.len(), 2);
    assert_eq!(table.get(&1), Some(&vec![3]));
    assert_eq!(table.get(&2), Some(&vec![2, 2]));
}

#[test]
fn bare_report_has_no_properties() {
    let (address, properties) =
        decode_scan_result(&result("00:11:22:AA:BB:CC", None)).unwrap();
    assert_eq!(address, BDAddr::from_bytes([0x00, 0x11, 0x22, 0xAA, 0xBB, 0xCC]));
    assert!(properties.is_none());
}

#[test]
fn full_report_is_decoded() {
    let scan = ScanResult {
        address: "00:11:22:aa:bb:cc".to_string(),
        tx_power: -59,
        rssi: -70,
        scan_record: Some(ScanRecord {
            device_name: Some(vec![0x54, 0x61, 0x67, 0xFF]),
            bytes: vec![0x04, 0xFF, 0x4C, 0x00, 0x02, 0x00],
            service_data: Some(vec![ServiceDataEntry { uuid: 0x180F, data: vec![0x64] }]),
            service_uuids: Some(vec![0x180F, 0x180A]),
        }),
    };
    let (address, properties) = decode_scan_result(&scan).unwrap();
    let properties = properties.unwrap();
    assert_eq!(address.into_inner(), [0x00, 0x11, 0x22, 0xAA, 0xBB, 0xCC]);
    assert_eq!(properties.address, address);
    assert_eq!(properties.address_type, None);
    assert_eq!(properties.local_name, Some("Tag".to_string()));
    assert_eq!(properties.tx_power_level, Some(-59));
    assert_eq!(properties.rssi, Some(-70));
    assert_eq!(properties.manufacturer_data.len(), 1);
    assert_eq!(properties.manufacturer_data.get(&0x004C), Some(&vec![0x02]));
    assert_eq!(properties.service_data.len(), 1);
    assert_eq!(properties.service_data.get(&0x180F), Some(&vec![0x64]));
    assert_eq!(properties.services, vec![0x180F, 0x180A]);
    assert_eq!(properties.class, None);
}

#[test]
fn unset_parts_of_a_record_are_empty() {
    let (_, properties) =
        decode_scan_result(&result("001122AABBCC", Some(record(vec![])))).unwrap();
    let properties = properties.unwrap();
    assert_eq!(properties.local_name, None);
    assert_eq!(properties.tx_power_level, None);
    assert!(properties.manufacturer_data.is_empty());
    assert!(properties.service_data.is_empty());
    assert!(properties.services.is_empty());
}

#[test]
fn bad_address_is_an_error() {
    assert_eq!(
        decode_scan_result(&result("not an address", None)),
        Err(Error::InvalidBDAddr(ParseBDAddrError::IncorrectByteCount))
    );
    assert_eq!(
        decode_scan_result(&result("00:11:22:AA:BB:GG", Some(record(vec![])))),
        Err(Error::InvalidBDAddr(ParseBDAddrError::InvalidDigit))
    );
}

#[test]
fn decoding_twice_gives_the_same() {
    let scan = result(
        "00:11:22:AA:BB:CC",
        Some(ScanRecord {
            device_name: Some(vec![0xF0, 0x41]),
            bytes: vec![0x04, 0xFF, 0x4C, 0x00, 0x02, 0x04, 0xFF, 0x4C, 0x00, 0x03, 0x09],
            service_data: Some(vec![ServiceDataEntry { uuid: 7, data: vec![1, 2] }]),
            service_uuids: Some(vec![7]),
        }),
    );
    assert_eq!(decode_scan_result(&scan), decode_scan_result(&scan));
}
