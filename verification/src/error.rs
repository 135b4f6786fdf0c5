//! The errors that a session operation ends in.

use crate::address::ParseBDAddrError;
use vstd::prelude::*;

verus! {

/// A failure of the bridge to the host runtime that no domain error stands for.
#[derive(Clone, Debug, PartialEq, Eq)]
pub enum BridgeFault {
    /// A host exception is pending or was handed back to the host runtime.
    HostException,
    /// The host runtime refused a call for another reason, described in words.
    Environment(String),
    /// A request was answered with a reply that does not fit it.
    Protocol,
}

/// What a session operation can fail with.
#[derive(Clone, Debug, PartialEq, Eq)]
pub enum Error {
    /// The host denied a permission that the operation needs.
    PermissionDenied,
    /// The owning adapter is gone or no longer tracks the peripheral.
    DeviceNotFound,
    /// The device is not connected.
    NotConnected,
    /// The host reported a callback that no operation was waiting for.
    UnexpectedCallback,
    /// The host answered for another characteristic than the one asked for.
    UnexpectedCharacteristic,
    /// The device has no such characteristic.
    NoSuchCharacteristic,
    /// The device address in a scan result is no address.
    InvalidBDAddr(ParseBDAddrError),
    /// A host runtime fault of no named kind, with its message.
    RuntimeError(String),
    /// A bridge fault that was not classified.
    Bridge(BridgeFault),
    /// The host gave a transmission unit that does not fit in 16 bits.
    MtuOutOfRange(i32),
}

} // verus!
