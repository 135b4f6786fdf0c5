//! The vocabulary between the session layer and whoever drives the host
//! runtime: the calls that the layer asks for and the replies that it takes.

use crate::error::BridgeFault;
use vstd::prelude::*;

verus! {

/// A descriptor as the host's attribute objects give it.
#[derive(Clone, Debug, PartialEq, Eq)]
pub struct HostDescriptor {
    pub uuid: u128,
}

/// A characteristic as the host's attribute objects give it.
#[derive(Clone, Debug, PartialEq, Eq)]
pub struct HostCharacteristic {
    pub uuid: u128,
    /// The property flags as the host's integer.
    pub properties: i32,
    /// The value that the host holds for the characteristic.
    pub value: Vec<u8>,
    pub descriptors: Vec<HostDescriptor>,
}

/// A service as the host's attribute objects give it.
#[derive(Clone, Debug, PartialEq, Eq)]
pub struct HostService {
    pub uuid: u128,
    pub characteristics: Vec<HostCharacteristic>,
}

/// The host's number for a write that the peer acknowledges.
pub const WRITE_TYPE_DEFAULT: i32 = 2;

/// The host's number for a write that the peer does not acknowledge.
pub const WRITE_TYPE_NO_RESPONSE: i32 = 1;

/// A call on the host's proxy of one peripheral, with its arguments.
#[derive(Clone, Debug, PartialEq, Eq)]
pub enum HostCall {
    Connect,
    Disconnect,
    DiscoverServices,
    Read { uuid: u128 },
    Write { uuid: u128, data: Vec<u8>, write_type: i32 },
    SetCharacteristicNotification { uuid: u128, enable: bool },
    ReadDescriptor { characteristic: u128, uuid: u128 },
    WriteDescriptor { characteristic: u128, uuid: u128, data: Vec<u8> },
    IsConnected,
    GetMtu,
    GetNotifications,
}

/// How a host call answers.
#[derive(Clone, Copy, Debug, PartialEq, Eq, Structural)]
pub enum Shape {
    /// With a future that completes without a value.
    Completes,
    /// With a future that completes with bytes.
    YieldsBytes,
    /// With a future that completes with the list of services.
    YieldsServices,
    /// With a truth value, at once.
    Answers,
    /// With a number, at once, or with a fault that says "not connected".
    Measures,
    /// With a stream of events.
    Streams,
}

impl HostCall {
    /// How this call answers.
    pub open spec fn shape_spec(&self) -> Shape {
        match self {
            HostCall::Connect => Shape::Completes,
            HostCall::Disconnect => Shape::Completes,
            HostCall::DiscoverServices => Shape::YieldsServices,
            HostCall::Read { .. } => Shape::YieldsBytes,
            HostCall::Write { .. } => Shape::Completes,
            HostCall::SetCharacteristicNotification { .. } => Shape::Completes,
            HostCall::ReadDescriptor { .. } => Shape::YieldsBytes,
            HostCall::WriteDescriptor { .. } => Shape::Completes,
            HostCall::IsConnected => Shape::Answers,
            HostCall::GetMtu => Shape::Measures,
            HostCall::GetNotifications => Shape::Streams,
        }
    }

    /// How this call answers.
    #[verifier::when_used_as_spec(shape_spec)]
    pub fn shape(&self) -> (res: Shape)
        ensures
            res == self.shape_spec(),
    {
        match self {
            HostCall::Connect => Shape::Completes,
            HostCall::Disconnect => Shape::Completes,
            HostCall::DiscoverServices => Shape::YieldsServices,
            HostCall::Read { .. } => Shape::YieldsBytes,
            HostCall::Write { .. } => Shape::Completes,
            HostCall::SetCharacteristicNotification { .. } => Shape::Completes,
            HostCall::ReadDescriptor { .. } => Shape::YieldsBytes,
            HostCall::WriteDescriptor { .. } => Shape::Completes,
            HostCall::IsConnected => Shape::Answers,
            HostCall::GetMtu => Shape::Measures,
            HostCall::GetNotifications => Shape::Streams,
        }
    }
}

/// The classes of host exceptions that a fault's cause is held against, in
/// the order in which they are tried.
#[derive(Clone, Copy, Debug, PartialEq, Eq, Structural)]
pub enum CauseClass {
    NotConnected,
    PermissionDenied,
    UnexpectedCallback,
    UnexpectedCharacteristic,
    NoSuchCharacteristic,
    /// Any runtime fault of the host.
    Runtime,
}

/// One thing for the driver to do in the host runtime.
#[derive(Clone, Copy, Debug, PartialEq, Eq, Structural)]
pub enum HostAction {
    /// Attach the current thread to the host runtime.
    Attach,
    /// Release the attachment.
    Detach,
    /// Say whether a host fault is pending.
    CheckPending,
    /// Discard the pending fault.
    ClearPending,
    /// Take the pending fault and clear it in the host runtime.
    TakeFault,
    /// Say whether the fault taken is a failed completion.
    TestCompletionFailure,
    /// Say whether the fault taken is an instance of the class.
    TestFault(CauseClass),
    /// Fetch the cause of the fault taken.
    FetchCause,
    /// Say whether the cause fetched is an instance of the class.
    TestCause(CauseClass),
    /// Give the message of the cause fetched.
    FetchMessage,
    /// Raise the fault taken in the host runtime again, as it was.
    Rethrow,
    /// Make the peripheral's proxy reachable from this thread.
    ReferencePeripheral,
    /// Issue the call of the exchange.
    Issue,
    /// Wait until the future of the call completes.
    Await,
    /// Make the completed result reachable from this thread.
    ReferenceResult,
    /// Open the completed result.
    OpenResult,
    /// Take the value out of the completed result.
    TakeResult,
    /// Give the value taken as bytes.
    ReadBytes,
    /// Give the value taken as the list of services.
    ReadServices,
}

/// What the driver answers after it did what it was asked.
#[derive(Clone, Debug, PartialEq, Eq)]
pub enum HostReply {
    /// It is done; there is nothing to tell.
    Done,
    /// The answer to a question.
    Flag(bool),
    /// A number that the host gave.
    Number(i32),
    /// A text that the host gave.
    Text(String),
    /// Bytes that the host gave.
    Bytes(Vec<u8>),
    /// The services that the host gave.
    Services(Vec<HostService>),
    /// The host runtime refused.
    Failed(BridgeFault),
}

/// The position of a walk through one of the host's sparse arrays, which
/// hand out their entries by index.
#[derive(Clone, Copy, Debug, PartialEq, Eq, Structural)]
pub struct SparseCursor {
    index: i32,
}

impl SparseCursor {
    /// The index of the entry that is handed out next.
    pub closed spec fn index_spec(&self) -> i32 {
        self.index
    }

    /// A walk that starts at the first entry.
    pub fn new() -> (res: Self)
        ensures
            res.index_spec() == 0,
    {
        SparseCursor { index: 0 }
    }

    /// The index of the entry to fetch next from an array of `size` entries,
    /// or nothing when the walk is over. Looking does not move the walk: as
    /// long as the entry was not fetched, it is the next again.
    pub fn peek(&self, size: i32) -> (res: Option<i32>)
        ensures
            res == (if self.index_spec() < size {
                Some(self.index_spec())
            } else {
                None::<i32>
            }),
    {
        if self.index < size {
            Some(self.index)
        } else {
            None
        }
    }

    /// Moves the walk on by one entry. Call it once the entry that `peek`
    /// named was fetched, so that a fetch that fails skips no entry.
    pub fn advance(&mut self, size: i32)
        requires
            old(self).index_spec() < size,
        ensures
            final(self).index_spec() == old(self).index_spec() + 1,
    {
        self.index = self.index + 1;
    }
}

} // verus!
