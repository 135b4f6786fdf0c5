//! The properties of a peripheral as its advertisements report them.

use crate::address::BDAddr;
use std::collections::HashMap;
use vstd::prelude::*;

verus! {

/// The kind of a device address.
#[derive(Clone, Copy, Debug, PartialEq, Eq, Structural)]
pub enum AddressType {
    Random,
    Public,
}

/// What an advertisement tells of a peripheral.
#[derive(Debug, PartialEq, Eq)]
pub struct PeripheralProperties {
    /// The address of the device.
    pub address: BDAddr,
    /// The kind of the address, where the host tells it.
    pub address_type: Option<AddressType>,
    /// The advertised name.
    pub local_name: Option<String>,
    /// The advertised transmit power.
    pub tx_power_level: Option<i16>,
    /// The signal strength at which the advertisement was received.
    pub rssi: Option<i16>,
    /// The advertised manufacturer data, by company.
    pub manufacturer_data: HashMap<u16, Vec<u8>>,
    /// The advertised service data, by service.
    pub service_data: HashMap<u128, Vec<u8>>,
    /// The advertised services.
    pub services: Vec<u128>,
    /// The class of the device, where the host tells it.
    pub class: Option<u32>,
}

/// The mathematical value of [`PeripheralProperties`].
pub struct PropertiesView {
    pub address: Seq<u8>,
    pub address_type: Option<AddressType>,
    pub local_name: Option<Seq<char>>,
    pub tx_power_level: Option<i16>,
    pub rssi: Option<i16>,
    pub manufacturer_data: Map<u16, Seq<u8>>,
    pub service_data: Map<u128, Seq<u8>>,
    pub services: Seq<u128>,
    pub class: Option<u32>,
}

/// What a table of byte strings holds, each value as a sequence.
pub open spec fn payloads<K>(table: Map<K, Vec<u8>>) -> Map<K, Seq<u8>> {
    table.map_values(|v: Vec<u8>| v@)
}

/// The text of an optional string.
pub open spec fn text_of(name: Option<String>) -> Option<Seq<char>> {
    match name {
        Some(text) => Some(text@),
        None => None,
    }
}

impl View for PeripheralProperties {
    type V = PropertiesView;

    open spec fn view(&self) -> PropertiesView {
        PropertiesView {
            address: self.address@,
            address_type: self.address_type,
            local_name: text_of(self.local_name),
            tx_power_level: self.tx_power_level,
            rssi: self.rssi,
            manufacturer_data: payloads(self.manufacturer_data@),
            service_data: payloads(self.service_data@),
            services: self.services@,
            class: self.class,
        }
    }
}

impl Clone for PeripheralProperties {
    fn clone(&self) -> (res: Self)
        ensures
            res@ == self@,
    {
        let local_name = match &self.local_name {
            Some(name) => Some(name.clone()),
            None => None,
        };
        PeripheralProperties {
            address: self.address,
            address_type: self.address_type,
            local_name,
            tx_power_level: self.tx_power_level,
            rssi: self.rssi,
            manufacturer_data: self.manufacturer_data.clone(),
            service_data: self.service_data.clone(),
            services: vstd::slice::slice_to_vec(self.services.as_slice()),
            class: self.class,
        }
    }
}

} // verus!
