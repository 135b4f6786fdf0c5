//! Decoding of raw advertising data into structured device properties.

use crate::address::{address_error_of, address_of_text, BDAddr};
use crate::error::Error;
use crate::properties::{payloads, PeripheralProperties, PropertiesView};
use crate::text::{decode_lossy, decode_strict, lossy_text, push_char};
use std::collections::HashMap;
use vstd::prelude::*;
use vstd::utf8::{decode_utf8, valid_utf8};

verus! {

/// The data that a scan record holds for one service.
#[derive(Clone, Debug, PartialEq, Eq)]
pub struct ServiceDataEntry {
    pub uuid: u128,
    pub data: Vec<u8>,
}

/// The scan record of a scan result, as the host hands it out. What the host
/// leaves unset is absent here.
#[derive(Clone, Debug, PartialEq, Eq)]
pub struct ScanRecord {
    /// The bytes of the device name, which need not be text.
    pub device_name: Option<Vec<u8>>,
    /// The raw advertisement.
    pub bytes: Vec<u8>,
    /// The service data as the host decoded it, in the order it lists them.
    pub service_data: Option<Vec<ServiceDataEntry>>,
    /// The advertised services as the host decoded them.
    pub service_uuids: Option<Vec<u128>>,
}

/// One report of a device by the host's scanner.
#[derive(Clone, Debug, PartialEq, Eq)]
pub struct ScanResult {
    /// The address of the device, as text.
    pub address: String,
    /// The raw transmit power.
    pub tx_power: i32,
    /// The raw signal strength.
    pub rssi: i32,
    /// The scan record, where the report carries one.
    pub scan_record: Option<ScanRecord>,
}

/// One complete AD structure of an advertisement: its type and its payload.
pub struct AdRecord {
    pub ad_type: u8,
    pub payload: Seq<u8>,
}

/// The complete AD structures at the front of `bytes`, in order.
///
/// A structure is a length byte, a type byte and `length - 1` payload bytes.
/// Reading stops at a zero length byte and at a structure whose declared
/// length runs past the end of the buffer.
pub open spec fn ad_records(bytes: Seq<u8>) -> Seq<AdRecord>
    decreases bytes.len(),
{
    if bytes.len() == 0 {
        Seq::empty()
    } else {
        let length = bytes[0] as int;
        if length == 0 || length >= bytes.len() {
            Seq::empty()
        } else {
            seq![AdRecord { ad_type: bytes[1], payload: bytes.subrange(2, length + 1) }]
                + ad_records(bytes.skip(length + 1))
        }
    }
}

/// The bytes of one AD structure: length, type, payload.
pub open spec fn record_bytes(record: AdRecord) -> Seq<u8> {
    seq![(record.payload.len() + 1) as u8, record.ad_type] + record.payload
}

/// The bytes of a run of AD structures.
pub open spec fn records_bytes(records: Seq<AdRecord>) -> Seq<u8>
    decreases records.len(),
{
    if records.len() == 0 {
        Seq::empty()
    } else {
        record_bytes(records.first()) + records_bytes(records.drop_first())
    }
}

/// Bytes at which reading stops: no byte, a zero length byte, or a structure
/// whose declared length runs past the last byte.
pub open spec fn is_truncated_tail(tail: Seq<u8>) -> bool {
    tail.len() == 0 || tail[0] == 0 || tail[0] as int >= tail.len()
}

/// A buffer of complete structures followed by a truncated one decodes to
/// exactly the complete structures: truncation loses what follows it and
/// nothing before it.
pub proof fn lemma_truncated_tail_is_dropped(records: Seq<AdRecord>, tail: Seq<u8>)
    requires
        forall|i: int| 0 <= i < records.len() ==> (#[trigger] records[i]).payload.len() <= 254,
        is_truncated_tail(tail),
    ensures
        ad_records(records_bytes(records) + tail) == records,
    decreases records.len(),
{
    if records.len() == 0 {
        assert(records_bytes(records) + tail == tail);
        assert(ad_records(tail) == Seq::<AdRecord>::empty());
        assert(records == Seq::<AdRecord>::empty());
    } else {
        let first = records.first();
        let rest = records.drop_first();
        let buffer = records_bytes(records) + tail;
        let length: int = first.payload.len() as int + 1;
        assert(records[0] == first);
        assert forall|i: int| 0 <= i < rest.len() implies (#[trigger] rest[i]).payload.len()
            <= 254 by {
            assert(rest[i] == records[i + 1]);
        }
        lemma_truncated_tail_is_dropped(rest, tail);
        assert(buffer == record_bytes(first) + (records_bytes(rest) + tail));
        assert(buffer[0] == length as u8);
        assert(buffer[1] == first.ad_type);
        assert(buffer.subrange(2, length + 1) == first.payload);
        assert(buffer.skip(length + 1) == records_bytes(rest) + tail);
        assert(seq![first] + rest == records);
    }
}

/// A manufacturer specific record that is long enough to name a company.
pub open spec fn is_manufacturer_record(record: AdRecord) -> bool {
    record.ad_type == MANUFACTURER_SPECIFIC && record.payload.len() >= 2
}

/// The company that a manufacturer record names: its first two payload bytes,
/// low byte first.
pub open spec fn company_of(record: AdRecord) -> int {
    record.payload[0] as int + 0x100 * (record.payload[1] as int)
}

/// Whether some record of `records` carries data of company `id`.
pub open spec fn names_company(records: Seq<AdRecord>, id: int) -> bool {
    exists|i: int|
        0 <= i < records.len() && is_manufacturer_record(#[trigger] records[i]) && company_of(
            records[i],
        ) == id
}

/// The data of company `id` in `records`: the payloads of its records after
/// the company bytes, joined in the order of the records.
pub open spec fn company_payload(records: Seq<AdRecord>, id: int) -> Seq<u8>
    decreases records.len(),
{
    if records.len() == 0 {
        Seq::empty()
    } else {
        let before = company_payload(records.drop_last(), id);
        let last = records.last();
        if is_manufacturer_record(last) && company_of(last) == id {
            before + last.payload.skip(2)
        } else {
            before
        }
    }
}

/// The manufacturer data that `records` carry, by company.
pub open spec fn manufacturer_data_of(records: Seq<AdRecord>) -> Map<u16, Seq<u8>> {
    Map::new(
        |id: u16| names_company(records, id as int),
        |id: u16| company_payload(records, id as int),
    )
}


/// AD type of a manufacturer specific record.
pub const MANUFACTURER_SPECIFIC: u8 = 0xFF;

/// Raw transmit power that the host reports when the advertisement carried none.
pub const TX_POWER_NOT_PRESENT: i32 = 127;

/// The character that a lossy decoding puts in place of ill-formed bytes.
pub const REPLACEMENT_CHARACTER: char = '\u{FFFD}';

/// `text` without its replacement characters.
pub open spec fn without_replacement(text: Seq<char>) -> Seq<char>
    decreases text.len(),
{
    if text.len() == 0 {
        Seq::empty()
    } else if text.last() == REPLACEMENT_CHARACTER {
        without_replacement(text.drop_last())
    } else {
        without_replacement(text.drop_last()).push(text.last())
    }
}

/// Removes every replacement character from `text` and keeps the rest in order.
pub fn strip_replacement(text: &str) -> (res: String)
    ensures
        res@ == without_replacement(text@),
{
    let mut kept = String::new();
    for c in it: text.chars()
        invariant
            it.seq() == text@,
            kept@ == without_replacement(text@.take(it.index() as int)),
    {
        proof {
            let longer = text@.take(it.index() + 1);
            assert(longer.drop_last() == text@.take(it.index() as int));
            assert(longer.last() == c);
        }
        if c != REPLACEMENT_CHARACTER {
            push_char(&mut kept, c);
        }
    }
    assert(text@.take(text@.len() as int) == text@);
    kept
}

/// The name that raw name bytes stand for: their text where they are
/// well-formed UTF-8, otherwise their lossy text without the replacement
/// characters.
pub open spec fn device_name_of(bytes: Seq<u8>) -> Seq<char> {
    if valid_utf8(bytes) {
        decode_utf8(bytes)
    } else {
        without_replacement(lossy_text(bytes))
    }
}

/// Decodes the device name of a scan record, which may hold bytes that are no
/// text at all.
pub fn decode_device_name(bytes: &[u8]) -> (res: String)
    ensures
        res@ == device_name_of(bytes@),
{
    match decode_strict(bytes) {
        Some(name) => name,
        None => {
            let lossy = decode_lossy(bytes);
            strip_replacement(lossy.as_str())
        },
    }
}

/// A signed 32-bit host integer narrowed to its low 16 bits, read as signed.
pub open spec fn narrowed(raw: int) -> int {
    (raw + 0x8000) % 0x1_0000 - 0x8000
}

/// Narrows a host integer to 16 bits, keeping the low 16 bits.
pub fn narrow_to_i16(raw: i32) -> (res: i16)
    ensures
        res == narrowed(raw as int),
        -0x8000 <= raw < 0x8000 ==> res == raw,
{
    let shifted: i64 = raw as i64 + 0x8000_8000;
    let low: i64 = shifted % 0x1_0000;
    (low - 0x8000) as i16
}

/// The transmit power of a report: absent for the host's "not present" value,
/// otherwise the raw value narrowed to 16 bits.
pub open spec fn tx_power_of(raw: int) -> Option<i16> {
    if raw == TX_POWER_NOT_PRESENT {
        None
    } else {
        Some(narrowed(raw) as i16)
    }
}

/// Decodes the raw transmit power of a scan result.
pub fn decode_tx_power(raw: i32) -> (res: Option<i16>)
    ensures
        res == tx_power_of(raw as int),
{
    if raw == TX_POWER_NOT_PRESENT {
        None
    } else {
        Some(narrow_to_i16(raw))
    }
}

proof fn lemma_names_company_push(records: Seq<AdRecord>, record: AdRecord, id: int)
    ensures
        names_company(records.push(record), id) <==> names_company(records, id) || (
        is_manufacturer_record(record) && company_of(record) == id),
{
    let longer = records.push(record);
    if names_company(records, id) {
        let i = choose|i: int|
            0 <= i < records.len() && is_manufacturer_record(#[trigger] records[i]) && company_of(
                records[i],
            ) == id;
        assert(longer[i] == records[i]);
    }
    if is_manufacturer_record(record) && company_of(record) == id {
        assert(longer[records.len() as int] == record);
    }
    if names_company(longer, id) {
        let i = choose|i: int|
            0 <= i < longer.len() && is_manufacturer_record(#[trigger] longer[i]) && company_of(
                longer[i],
            ) == id;
        if i < records.len() {
            assert(longer[i] == records[i]);
        }
    }
}

/// The service data that the host's entries give: of two entries for one
/// service, the later one.
pub open spec fn service_data_of(entries: Seq<ServiceDataEntry>) -> Map<u128, Seq<u8>>
    decreases entries.len(),
{
    if entries.len() == 0 {
        Map::empty()
    } else {
        service_data_of(entries.drop_last()).insert(entries.last().uuid, entries.last().data@)
    }
}

/// The name that a scan record gives, if it gives one.
pub open spec fn local_name_of(name: Option<Vec<u8>>) -> Option<Seq<char>> {
    match name {
        Some(bytes) => Some(device_name_of(bytes@)),
        None => None,
    }
}

/// The properties that a scan record gives for the device at `address`.
pub open spec fn properties_of(
    address: Seq<u8>,
    tx_power: int,
    rssi: int,
    record: ScanRecord,
) -> PropertiesView {
    PropertiesView {
        address,
        address_type: None,
        local_name: local_name_of(record.device_name),
        tx_power_level: tx_power_of(tx_power),
        rssi: Some(narrowed(rssi) as i16),
        manufacturer_data: manufacturer_data_of(ad_records(record.bytes@)),
        service_data: match record.service_data {
            Some(entries) => service_data_of(entries@),
            None => Map::empty(),
        },
        services: match record.service_uuids {
            Some(uuids) => uuids@,
            None => Seq::empty(),
        },
        class: None,
    }
}

/// What a scan result decodes to: nothing if its address is no address;
/// otherwise the address, with properties exactly if it carries a scan record.
pub open spec fn decoded(result: ScanResult) -> Option<(Seq<u8>, Option<PropertiesView>)> {
    match address_of_text(result.address@) {
        Some(address) => Some(
            (
                address,
                match result.scan_record {
                    Some(record) => Some(
                        properties_of(address, result.tx_power as int, result.rssi as int, record),
                    ),
                    None => None,
                },
            ),
        ),
        None => None,
    }
}

/// The view of optional properties.
pub open spec fn view_of(properties: Option<PeripheralProperties>) -> Option<PropertiesView> {
    match properties {
        Some(p) => Some(p@),
        None => None,
    }
}

/// Collects the service data of a scan record by service.
pub fn collect_service_data(entries: &[ServiceDataEntry]) -> (res: HashMap<u128, Vec<u8>>)
    ensures
        payloads(res@) == service_data_of(entries@),
{
    let mut table: HashMap<u128, Vec<u8>> = HashMap::new();
    assert(payloads(table@) =~= service_data_of(entries@.take(0)));
    let mut i: usize = 0;
    while i < entries.len()
        invariant
            i <= entries.len(),
            payloads(table@) == service_data_of(entries@.take(i as int)),
        decreases entries.len() - i,
    {
        let data = vstd::slice::slice_to_vec(entries[i].data.as_slice());
        table.insert(entries[i].uuid, data);
        proof {
            let longer = entries@.take(i + 1);
            assert(longer.drop_last() == entries@.take(i as int));
            assert(longer.last() == entries@[i as int]);
            assert(payloads(table@) =~= service_data_of(longer));
        }
        i = i + 1;
    }
    assert(entries@.take(entries@.len() as int) == entries@);
    table
}

/// Decodes one scan result into the address of the device and, if the result
/// carries a scan record, the properties that it advertises.
///
/// The result is an error exactly if the address is no address. Whatever the
/// raw advertisement holds, it is decoded as far as it is complete.
pub fn decode_scan_result(result: &ScanResult) -> (res: Result<
    (BDAddr, Option<PeripheralProperties>),
    Error,
>)
    ensures
        match res {
            Ok((address, properties)) => decoded(*result) == Some((address@, view_of(properties))),
            Err(e) => decoded(*result) is None && e == Error::InvalidBDAddr(
                address_error_of(result.address@),
            ),
        },
{
    let address = match BDAddr::from_str(result.address.as_str()) {
        Ok(address) => address,
        Err(e) => {
            return Err(Error::InvalidBDAddr(e));
        },
    };
    let properties = match &result.scan_record {
        None => None,
        Some(record) => {
            let local_name = match &record.device_name {
                Some(bytes) => Some(decode_device_name(bytes.as_slice())),
                None => None,
            };
            let service_data = match &record.service_data {
                Some(entries) => collect_service_data(entries.as_slice()),
                None => HashMap::new(),
            };
            let services = match &record.service_uuids {
                Some(uuids) => vstd::slice::slice_to_vec(uuids.as_slice()),
                None => Vec::new(),
            };
            let properties = PeripheralProperties {
                address,
                address_type: None,
                local_name,
                tx_power_level: decode_tx_power(result.tx_power),
                rssi: Some(narrow_to_i16(result.rssi)),
                manufacturer_data: decode_manufacturer_data(record.bytes.as_slice()),
                service_data,
                services,
                class: None,
            };
            proof {
                let expected = properties_of(
                    address@,
                    result.tx_power as int,
                    result.rssi as int,
                    *record,
                );
                assert(payloads(properties.service_data@) =~= expected.service_data);
                assert(properties@.services =~= expected.services);
                assert(properties@.local_name == expected.local_name);
                assert(properties@ == expected);
            }
            Some(properties)
        },
    };
    Ok((address, properties))
}

/// Decoding is a function of the scan result alone: two decodings of one
/// result give the same address and the same properties.
pub proof fn lemma_decoding_is_deterministic(
    result: ScanResult,
    first: (BDAddr, Option<PeripheralProperties>),
    second: (BDAddr, Option<PeripheralProperties>),
)
    requires
        decoded(result) == Some((first.0@, view_of(first.1))),
        decoded(result) == Some((second.0@, view_of(second.1))),
    ensures
        first.0@ == second.0@,
        view_of(first.1) == view_of(second.1),
{
}

/// Decodes the manufacturer data of a raw advertisement.
///
/// Data of a company that occurs in several records is joined in the order
/// of the records. A manufacturer record too short to name a company
/// contributes nothing.
pub fn decode_manufacturer_data(bytes: &[u8]) -> (res: HashMap<u16, Vec<u8>>)
    ensures
        payloads(res@) == manufacturer_data_of(ad_records(bytes@)),
{
    let mut table: HashMap<u16, Vec<u8>> = HashMap::new();
    let mut index: usize = 0;
    let ghost mut done: Seq<AdRecord> = Seq::empty();
    assert(bytes@.skip(0) == bytes@);
    assert(payloads(table@) =~= manufacturer_data_of(done));
    while index < bytes.len()
        invariant
            index <= bytes.len(),
            ad_records(bytes@) == done + ad_records(bytes@.skip(index as int)),
            payloads(table@) == manufacturer_data_of(done),
        ensures
            ad_records(bytes@) == done,
            payloads(table@) == manufacturer_data_of(done),
        decreases bytes.len() - index,
    {
        let ghost rest = bytes@.skip(index as int);
        let length: usize = bytes[index] as usize;
        if length == 0 || length >= bytes.len() - index {
            assert(ad_records(rest) == Seq::<AdRecord>::empty());
            assert(done + Seq::<AdRecord>::empty() == done);
            break;
        }
        let ad_type: u8 = bytes[index + 1];
        let ghost record = AdRecord { ad_type: rest[1], payload: rest.subrange(2, length + 1) };
        assert(rest.skip(length + 1) == bytes@.skip(index + length + 1));
        assert(done + (seq![record] + ad_records(rest.skip(length + 1))) == done.push(record)
            + ad_records(rest.skip(length + 1)));
        if ad_type == MANUFACTURER_SPECIFIC && length >= 3 {
            let company: u16 = bytes[index + 2] as u16 + 0x100 * (bytes[index + 3] as u16);
            let data = vstd::slice::slice_subrange(bytes, index + 4, index + 1 + length);
            assert(data@ == record.payload.skip(2));
            let mut joined: Vec<u8> = match table.remove(&company) {
                Some(earlier) => earlier,
                None => Vec::new(),
            };
            joined.extend_from_slice(data);
            table.insert(company, joined);
            proof {
                assert forall|id: u16| #[trigger]
                    payloads(table@).contains_key(id) == manufacturer_data_of(
                        done.push(record),
                    ).contains_key(id) && (payloads(table@).contains_key(id)
                        ==> payloads(table@)[id] == manufacturer_data_of(done.push(record))[id]) by {
                    lemma_names_company_push(done, record, id as int);
                    assert(done.push(record).drop_last() == done);
                    assert(manufacturer_data_of(done).contains_key(id) == names_company(
                        done,
                        id as int,
                    ));
                    if names_company(done, id as int) {
                        assert(manufacturer_data_of(done)[id] == company_payload(done, id as int));
                    } else {
                        lemma_company_payload_absent(done, id as int);
                    }
                }
                assert(payloads(table@) =~= manufacturer_data_of(done.push(record)));
            }
        } else {
            proof {
                assert(record.payload.len() == length - 1);
                assert forall|id: u16| #[trigger]
                    manufacturer_data_of(done).contains_key(id) == manufacturer_data_of(
                        done.push(record),
                    ).contains_key(id) && (manufacturer_data_of(done).contains_key(id)
                        ==> manufacturer_data_of(done)[id] == manufacturer_data_of(
                        done.push(record),
                    )[id]) by {
                    lemma_names_company_push(done, record, id as int);
                    assert(done.push(record).drop_last() == done);
                }
                assert(manufacturer_data_of(done) =~= manufacturer_data_of(done.push(record)));
            }
        }
        proof {
            done = done.push(record);
        }
        index = index + length + 1;
    }
    table
}

/// A company that no record names has no data.
proof fn lemma_company_payload_absent(records: Seq<AdRecord>, id: int)
    requires
        !names_company(records, id),
    ensures
        company_payload(records, id) == Seq::<u8>::empty(),
    decreases records.len(),
{
    if records.len() > 0 {
        let last = records.last();
        assert(records[records.len() - 1] == last);
        assert(!names_company(records.drop_last(), id)) by {
            if names_company(records.drop_last(), id) {
                let i = choose|i: int|
                    0 <= i < records.drop_last().len() && is_manufacturer_record(
                        #[trigger] records.drop_last()[i],
                    ) && company_of(records.drop_last()[i]) == id;
                assert(records[i] == records.drop_last()[i]);
            }
        }
        lemma_company_payload_absent(records.drop_last(), id);
    }
}

} // verus!
