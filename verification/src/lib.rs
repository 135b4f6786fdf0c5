//! Session layer of a Bluetooth Low Energy central on a host whose Bluetooth
//! stack is reached through callbacks and futures.
//!
//! The crate holds the decisions of that layer as verified functions on plain
//! values: decoding of advertising data, assembly of the GATT attribute tree,
//! classification of host faults, and the state and gating of one peripheral
//! session. Whoever drives the host runtime performs the calls that these
//! functions ask for and hands their outcomes back.

pub mod address;
pub mod advertisement;
pub mod bridge;
pub mod discovery;
pub mod error;
pub mod gatt;
pub mod host;
pub mod ordered;
pub mod peripheral;
pub mod properties;
pub mod registry;
pub mod scan_filter;
pub mod text;

