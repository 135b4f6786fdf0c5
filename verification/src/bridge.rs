//! The bridge between a session operation and the host runtime: which host
//! actions an operation takes, in which order, and how host faults are
//! classified.
//!
//! An [`Exchange`] is one host call in flight. It never touches the host
//! runtime itself: it names the next [`HostAction`], takes the driver's
//! [`HostReply`], and names the next action or the result of the operation.

use crate::error::{BridgeFault, Error};
use crate::host::{CauseClass, HostAction, HostCall, HostReply, HostService, Shape};
use vstd::prelude::*;

verus! {

/// The host class of a completion that failed. Its cause says why.
pub const COMPLETION_FAILURE_CLASS: &'static str =
    "io/github/gedgygedgy/rust/future/FutureException";

impl CauseClass {
    /// The place of the class in the order in which causes are tried.
    pub open spec fn rank(self) -> int {
        match self {
            CauseClass::NotConnected => 0,
            CauseClass::PermissionDenied => 1,
            CauseClass::UnexpectedCallback => 2,
            CauseClass::UnexpectedCharacteristic => 3,
            CauseClass::NoSuchCharacteristic => 4,
            CauseClass::Runtime => 5,
        }
    }

    /// The class that is tried first.
    pub open spec fn first_spec() -> CauseClass {
        CauseClass::NotConnected
    }

    /// The class that is tried after this one, if any is.
    pub open spec fn next_spec(&self) -> Option<CauseClass> {
        match self {
            CauseClass::NotConnected => Some(CauseClass::PermissionDenied),
            CauseClass::PermissionDenied => Some(CauseClass::UnexpectedCallback),
            CauseClass::UnexpectedCallback => Some(CauseClass::UnexpectedCharacteristic),
            CauseClass::UnexpectedCharacteristic => Some(CauseClass::NoSuchCharacteristic),
            CauseClass::NoSuchCharacteristic => Some(CauseClass::Runtime),
            CauseClass::Runtime => None,
        }
    }

    /// The domain error that a cause of this class stands for. A runtime fault
    /// of no named class stands for none by itself: its message is needed.
    pub open spec fn error_spec(&self) -> Option<Error> {
        match self {
            CauseClass::NotConnected => Some(Error::NotConnected),
            CauseClass::PermissionDenied => Some(Error::PermissionDenied),
            CauseClass::UnexpectedCallback => Some(Error::UnexpectedCallback),
            CauseClass::UnexpectedCharacteristic => Some(Error::UnexpectedCharacteristic),
            CauseClass::NoSuchCharacteristic => Some(Error::NoSuchCharacteristic),
            CauseClass::Runtime => None,
        }
    }

    /// The class that is tried first.
    #[verifier::when_used_as_spec(first_spec)]
    pub fn first() -> (res: CauseClass)
        ensures
            res == Self::first_spec(),
            res.rank() == 0,
    {
        CauseClass::NotConnected
    }

    /// The class that is tried after this one, if any is.
    #[verifier::when_used_as_spec(next_spec)]
    pub fn next(&self) -> (res: Option<CauseClass>)
        ensures
            res == self.next_spec(),
            res matches Some(later) ==> later.rank() == self.rank() + 1,
            res is None <==> self.rank() == 5,
    {
        match self {
            CauseClass::NotConnected => Some(CauseClass::PermissionDenied),
            CauseClass::PermissionDenied => Some(CauseClass::UnexpectedCallback),
            CauseClass::UnexpectedCallback => Some(CauseClass::UnexpectedCharacteristic),
            CauseClass::UnexpectedCharacteristic => Some(CauseClass::NoSuchCharacteristic),
            CauseClass::NoSuchCharacteristic => Some(CauseClass::Runtime),
            CauseClass::Runtime => None,
        }
    }

    /// The domain error that a cause of this class stands for.
    #[verifier::when_used_as_spec(error_spec)]
    pub fn error(&self) -> (res: Option<Error>)
        ensures
            res == self.error_spec(),
    {
        match self {
            CauseClass::NotConnected => Some(Error::NotConnected),
            CauseClass::PermissionDenied => Some(Error::PermissionDenied),
            CauseClass::UnexpectedCallback => Some(Error::UnexpectedCallback),
            CauseClass::UnexpectedCharacteristic => Some(Error::UnexpectedCharacteristic),
            CauseClass::NoSuchCharacteristic => Some(Error::NoSuchCharacteristic),
            CauseClass::Runtime => None,
        }
    }

    /// The name of the host class.
    pub fn class_name(&self) -> (res: &'static str)
        ensures
            res@ == match self {
                CauseClass::NotConnected =>
                    "com/nonpolynomial/btleplug/android/impl/NotConnectedException"@,
                CauseClass::PermissionDenied =>
                    "com/nonpolynomial/btleplug/android/impl/PermissionDeniedException"@,
                CauseClass::UnexpectedCallback =>
                    "com/nonpolynomial/btleplug/android/impl/UnexpectedCallbackException"@,
                CauseClass::UnexpectedCharacteristic =>
                    "com/nonpolynomial/btleplug/android/impl/UnexpectedCharacteristicException"@,
                CauseClass::NoSuchCharacteristic =>
                    "com/nonpolynomial/btleplug/android/impl/NoSuchCharacteristicException"@,
                CauseClass::Runtime => "java/lang/RuntimeException"@,
            },
    {
        match self {
            CauseClass::NotConnected =>
                "com/nonpolynomial/btleplug/android/impl/NotConnectedException",
            CauseClass::PermissionDenied =>
                "com/nonpolynomial/btleplug/android/impl/PermissionDeniedException",
            CauseClass::UnexpectedCallback =>
                "com/nonpolynomial/btleplug/android/impl/UnexpectedCallbackException",
            CauseClass::UnexpectedCharacteristic =>
                "com/nonpolynomial/btleplug/android/impl/UnexpectedCharacteristicException",
            CauseClass::NoSuchCharacteristic =>
                "com/nonpolynomial/btleplug/android/impl/NoSuchCharacteristicException",
            CauseClass::Runtime => "java/lang/RuntimeException",
        }
    }
}

/// What the host tells of the cause of a failed completion: of which classes
/// it is an instance, and its message.
#[derive(Clone, Debug, PartialEq, Eq)]
pub struct CauseProfile {
    pub not_connected: bool,
    pub permission_denied: bool,
    pub unexpected_callback: bool,
    pub unexpected_characteristic: bool,
    pub no_such_characteristic: bool,
    pub runtime: bool,
    pub message: String,
}

impl CauseProfile {
    /// Whether the cause is an instance of `class`.
    pub open spec fn is_instance_of_spec(&self, class: CauseClass) -> bool {
        match class {
            CauseClass::NotConnected => self.not_connected,
            CauseClass::PermissionDenied => self.permission_denied,
            CauseClass::UnexpectedCallback => self.unexpected_callback,
            CauseClass::UnexpectedCharacteristic => self.unexpected_characteristic,
            CauseClass::NoSuchCharacteristic => self.no_such_characteristic,
            CauseClass::Runtime => self.runtime,
        }
    }

    /// Whether the cause is an instance of `class`.
    #[verifier::when_used_as_spec(is_instance_of_spec)]
    pub fn is_instance_of(&self, class: CauseClass) -> (res: bool)
        ensures
            res == self.is_instance_of_spec(class),
    {
        match class {
            CauseClass::NotConnected => self.not_connected,
            CauseClass::PermissionDenied => self.permission_denied,
            CauseClass::UnexpectedCallback => self.unexpected_callback,
            CauseClass::UnexpectedCharacteristic => self.unexpected_characteristic,
            CauseClass::NoSuchCharacteristic => self.no_such_characteristic,
            CauseClass::Runtime => self.runtime,
        }
    }

    /// Whether `class` is the first class in the order tried of which the
    /// cause is an instance.
    pub open spec fn first_match_is(&self, class: CauseClass) -> bool {
        &&& self.is_instance_of(class)
        &&& forall|earlier: CauseClass|
            earlier.rank() < class.rank() ==> !#[trigger] self.is_instance_of(earlier)
    }

    /// Whether the cause is an instance of no class tried.
    pub open spec fn matches_none(&self) -> bool {
        forall|class: CauseClass| !#[trigger] self.is_instance_of(class)
    }
}

/// What is made of the cause of a failed completion.
#[derive(Clone, Debug, PartialEq, Eq)]
pub enum Verdict {
    /// The cause stands for this domain error.
    Classified(Error),
    /// The cause is of no class known here: the fault goes back to the host
    /// runtime as it was.
    Unclassified,
}

/// The verdict on a cause whose first matching class is `class`.
pub open spec fn verdict_for(class: CauseClass, message: String) -> Verdict {
    match class.error_spec() {
        Some(error) => Verdict::Classified(error),
        None => Verdict::Classified(Error::RuntimeError(message)),
    }
}

/// Classifies the cause of a failed completion: the first class in the order
/// tried of which it is an instance decides, and a cause of none of them
/// stays unclassified.
pub fn classify_cause(profile: CauseProfile) -> (res: Verdict)
    ensures
        forall|class: CauseClass| #[trigger]
            profile.first_match_is(class) ==> res == verdict_for(class, profile.message),
        profile.matches_none() ==> res == Verdict::Unclassified,
        res == Verdict::Unclassified ==> profile.matches_none(),
{
    let mut class = CauseClass::first();
    loop
        invariant
            forall|earlier: CauseClass|
                earlier.rank() < class.rank() ==> !#[trigger] profile.is_instance_of(earlier),
        decreases 6 - class.rank(),
    {
        if profile.is_instance_of(class) {
            assert(profile.first_match_is(class));
            assert forall|other: CauseClass| #[trigger]
                profile.first_match_is(other) implies other == class by {
                if other.rank() < class.rank() {
                    assert(!profile.is_instance_of(other));
                } else if class.rank() < other.rank() {
                    assert(!profile.is_instance_of(class));
                }
            }
            return match class.error() {
                Some(error) => Verdict::Classified(error),
                None => Verdict::Classified(Error::RuntimeError(profile.message)),
            };
        }
        match class.next() {
            Some(later) => {
                assert forall|earlier: CauseClass| earlier.rank() < later.rank() implies !#[trigger]
                profile.is_instance_of(earlier) by {
                    if earlier.rank() == class.rank() {
                        assert(earlier == class);
                    }
                }
                class = later;
            },
            None => {
                assert forall|any: CauseClass| !#[trigger] profile.is_instance_of(any) by {
                    if any.rank() == class.rank() {
                        assert(any == class);
                    }
                }
                return Verdict::Unclassified;
            },
        }
    }
}

/// The named classes stand for domain errors one to one: two of them that
/// stand for the same error are the same class, and none of them stands for a
/// runtime error.
pub proof fn lemma_named_classes_one_to_one(a: CauseClass, b: CauseClass)
    requires
        a != CauseClass::Runtime,
        b != CauseClass::Runtime,
    ensures
        a.error_spec() is Some,
        !(a.error_spec()->0 is RuntimeError),
        a.error_spec() == b.error_spec() ==> a == b,
{
}

/// What an operation that went well hands back.
#[derive(Clone, Debug, PartialEq, Eq)]
pub enum Completion {
    /// The host completed the call; there is no value.
    Done,
    /// The bytes that were read.
    Value(Vec<u8>),
    /// The services that were discovered, as the host lists them.
    Services(Vec<HostService>),
    /// Whether the device is connected.
    Connected(bool),
    /// The transmission unit of the connection.
    Mtu(u16),
    /// The stream of notification events is open.
    Streaming,
}

/// What an exchange asks of its driver.
#[derive(Debug, PartialEq, Eq)]
pub enum Step {
    /// Do this in the host runtime and come back with the reply.
    Perform(HostAction),
    /// The operation is over, with this result.
    Finish(Result<Completion, Error>),
}

/// Where an exchange stands: which reply it waits for.
#[derive(Debug, PartialEq, Eq)]
pub enum Stage {
    /// Waiting for the attachment before the call.
    Attaching,
    /// Waiting to hear whether a fault was pending at the attachment.
    CheckingBeforeReference,
    /// Waiting for a fault that was pending before the call to be discarded.
    ClearingBeforeCall,
    /// Waiting for the reference to the peripheral's proxy.
    Referencing,
    /// Waiting to hear whether making the reference left a fault pending.
    CheckingAfterReference,
    /// Waiting to hear whether a fault is pending, right before a measuring call.
    CheckingBeforeMeasure,
    /// Waiting for the call to be issued.
    Issuing,
    /// Waiting to hear whether the fault of a measuring call is pending.
    CheckingMeasureFault,
    /// Waiting for the fault of a measuring call to be taken.
    TakingMeasureFault,
    /// Waiting to hear whether the fault of a measuring call says "not connected".
    TestingMeasureFault,
    /// Waiting for the attachment to be released before the future is awaited.
    DetachingToAwait,
    /// Waiting for the future to complete.
    Awaiting,
    /// Waiting for the attachment after the completion.
    Reattaching,
    /// Waiting to hear whether a fault is pending before the result is touched.
    CheckingPending,
    /// Waiting for the pending or raised fault to be taken.
    TakingFault,
    /// Waiting to hear whether the fault taken is a failed completion.
    TestingCompletionFailure,
    /// Waiting for the cause of the failed completion.
    FetchingCause,
    /// Waiting to hear whether the cause is an instance of the class.
    TestingCause(CauseClass),
    /// Waiting for the message of a runtime fault.
    FetchingMessage,
    /// Waiting for the fault to be raised again.
    Rethrowing,
    /// Waiting for the reference to the completed result.
    ReferencingResult,
    /// Waiting for the completed result to be opened.
    OpeningResult,
    /// Waiting for the value of the completed result.
    TakingResult,
    /// Waiting for the value as plain data.
    Reading,
    /// Waiting for the attachment to be released; the result is decided.
    Detaching(Result<Completion, Error>),
    /// The result was handed out.
    Finished,
}

/// The largest transmission unit that the protocol can name.
pub const MTU_MAX: i32 = 0xFFFF;

/// The transmission unit that a host number stands for, if it is one.
pub open spec fn mtu_of(raw: i32) -> Result<Completion, Error> {
    if 0 <= raw <= MTU_MAX {
        Ok(Completion::Mtu(raw as u16))
    } else {
        Err(Error::MtuOutOfRange(raw))
    }
}

/// The error that a reply gives where it is not the reply waited for: the
/// host's own refusal if it is one, a breach of protocol otherwise.
pub open spec fn refusal_of(reply: HostReply) -> Error {
    match reply {
        HostReply::Failed(fault) => Error::Bridge(fault),
        _ => Error::Bridge(BridgeFault::Protocol),
    }
}

/// Asking for `action` and waiting for its reply in `stage`.
pub open spec fn ask(stage: Stage, action: HostAction) -> (Stage, Step) {
    (stage, Step::Perform(action))
}

/// Releasing the attachment with the result decided.
pub open spec fn leave(result: Result<Completion, Error>) -> (Stage, Step) {
    (Stage::Detaching(result), Step::Perform(HostAction::Detach))
}

/// Handing the result out.
pub open spec fn finish(result: Result<Completion, Error>) -> (Stage, Step) {
    (Stage::Finished, Step::Finish(result))
}

/// What follows the reply to the test of a cause against `class`.
pub open spec fn after_cause_test(class: CauseClass, reply: HostReply) -> (Stage, Step) {
    match reply {
        HostReply::Flag(true) => match class.error_spec() {
            Some(error) => leave(Err(error)),
            None => ask(Stage::FetchingMessage, HostAction::FetchMessage),
        },
        HostReply::Flag(false) => match class.next_spec() {
            Some(later) => ask(Stage::TestingCause(later), HostAction::TestCause(later)),
            None => ask(Stage::Rethrowing, HostAction::Rethrow),
        },
        _ => leave(Err(refusal_of(reply))),
    }
}

/// What follows the reply to the issued call, by the shape of the call.
pub open spec fn after_issue(shape: Shape, reply: HostReply) -> (Stage, Step) {
    match shape {
        Shape::Answers => match reply {
            HostReply::Flag(connected) => leave(Ok(Completion::Connected(connected))),
            _ => leave(Err(refusal_of(reply))),
        },
        Shape::Streams => match reply {
            HostReply::Done => leave(Ok(Completion::Streaming)),
            _ => leave(Err(refusal_of(reply))),
        },
        Shape::Measures => match reply {
            HostReply::Number(raw) => leave(mtu_of(raw)),
            HostReply::Failed(BridgeFault::HostException) => ask(
                Stage::CheckingMeasureFault,
                HostAction::CheckPending,
            ),
            _ => leave(Err(refusal_of(reply))),
        },
        _ => match reply {
            HostReply::Done => ask(Stage::DetachingToAwait, HostAction::Detach),
            _ => leave(Err(refusal_of(reply))),
        },
    }
}

/// What follows the reply to a materializing action: the fault path if the
/// action raised a host fault, `onward` if it went well.
pub open spec fn after_materializing(onward: (Stage, Step), reply: HostReply) -> (Stage, Step) {
    match reply {
        HostReply::Done => onward,
        HostReply::Failed(BridgeFault::HostException) => ask(
            Stage::TakingFault,
            HostAction::TakeFault,
        ),
        _ => leave(Err(refusal_of(reply))),
    }
}

/// What follows the value of a completed result, by the shape of the call.
pub open spec fn after_value(shape: Shape) -> (Stage, Step) {
    match shape {
        Shape::YieldsBytes => ask(Stage::Reading, HostAction::ReadBytes),
        Shape::YieldsServices => ask(Stage::Reading, HostAction::ReadServices),
        _ => leave(Ok(Completion::Done)),
    }
}

/// What follows the value as plain data.
pub open spec fn after_reading(shape: Shape, reply: HostReply) -> (Stage, Step) {
    match (shape, reply) {
        (Shape::YieldsBytes, HostReply::Bytes(bytes)) => leave(Ok(Completion::Value(bytes))),
        (Shape::YieldsServices, HostReply::Services(services)) => leave(
            Ok(Completion::Services(services)),
        ),
        _ => leave(Err(refusal_of(reply))),
    }
}

/// The transition of an exchange: from the stage in which the reply arrives
/// to the next stage and what is asked next.
pub open spec fn transition(stage: Stage, shape: Shape, reply: HostReply) -> (Stage, Step) {
    match stage {
        Stage::Attaching => match reply {
            HostReply::Done => ask(Stage::CheckingBeforeReference, HostAction::CheckPending),
            _ => finish(Err(refusal_of(reply))),
        },
        Stage::CheckingBeforeReference => match reply {
            HostReply::Flag(false) => ask(Stage::Referencing, HostAction::ReferencePeripheral),
            HostReply::Flag(true) => ask(Stage::ClearingBeforeCall, HostAction::ClearPending),
            _ => leave(Err(refusal_of(reply))),
        },
        Stage::ClearingBeforeCall => match reply {
            HostReply::Done => leave(Err(Error::Bridge(BridgeFault::HostException))),
            _ => leave(Err(refusal_of(reply))),
        },
        Stage::Referencing => match reply {
            HostReply::Done => ask(Stage::CheckingAfterReference, HostAction::CheckPending),
            _ => leave(Err(refusal_of(reply))),
        },
        Stage::CheckingAfterReference => match reply {
            HostReply::Flag(false) => if shape == Shape::Measures {
                ask(Stage::CheckingBeforeMeasure, HostAction::CheckPending)
            } else {
                ask(Stage::Issuing, HostAction::Issue)
            },
            HostReply::Flag(true) => ask(Stage::ClearingBeforeCall, HostAction::ClearPending),
            _ => leave(Err(refusal_of(reply))),
        },
        Stage::CheckingBeforeMeasure => match reply {
            HostReply::Flag(false) => ask(Stage::Issuing, HostAction::Issue),
            HostReply::Flag(true) => leave(Err(Error::Bridge(BridgeFault::HostException))),
            _ => leave(Err(refusal_of(reply))),
        },
        Stage::Issuing => after_issue(shape, reply),
        Stage::CheckingMeasureFault => match reply {
            HostReply::Flag(true) => ask(Stage::TakingMeasureFault, HostAction::TakeFault),
            HostReply::Flag(false) => leave(Err(Error::Bridge(BridgeFault::HostException))),
            _ => leave(Err(refusal_of(reply))),
        },
        Stage::TakingMeasureFault => match reply {
            HostReply::Done => ask(
                Stage::TestingMeasureFault,
                HostAction::TestFault(CauseClass::NotConnected),
            ),
            _ => leave(Err(refusal_of(reply))),
        },
        Stage::TestingMeasureFault => match reply {
            HostReply::Flag(true) => leave(Err(Error::NotConnected)),
            HostReply::Flag(false) => ask(Stage::Rethrowing, HostAction::Rethrow),
            _ => leave(Err(refusal_of(reply))),
        },
        Stage::DetachingToAwait => ask(Stage::Awaiting, HostAction::Await),
        Stage::Awaiting => match reply {
            HostReply::Done => ask(Stage::Reattaching, HostAction::Attach),
            _ => finish(Err(refusal_of(reply))),
        },
        Stage::Reattaching => match reply {
            HostReply::Done => ask(Stage::CheckingPending, HostAction::CheckPending),
            _ => finish(Err(refusal_of(reply))),
        },
        Stage::CheckingPending => match reply {
            HostReply::Flag(false) => ask(Stage::ReferencingResult, HostAction::ReferenceResult),
            HostReply::Flag(true) => ask(Stage::TakingFault, HostAction::TakeFault),
            _ => leave(Err(refusal_of(reply))),
        },
        Stage::TakingFault => match reply {
            HostReply::Done => ask(
                Stage::TestingCompletionFailure,
                HostAction::TestCompletionFailure,
            ),
            _ => leave(Err(refusal_of(reply))),
        },
        Stage::TestingCompletionFailure => match reply {
            HostReply::Flag(true) => ask(Stage::FetchingCause, HostAction::FetchCause),
            HostReply::Flag(false) => ask(Stage::Rethrowing, HostAction::Rethrow),
            _ => leave(Err(refusal_of(reply))),
        },
        Stage::FetchingCause => match reply {
            HostReply::Done => ask(
                Stage::TestingCause(CauseClass::first_spec()),
                HostAction::TestCause(CauseClass::first_spec()),
            ),
            _ => leave(Err(refusal_of(reply))),
        },
        Stage::TestingCause(class) => after_cause_test(class, reply),
        Stage::FetchingMessage => match reply {
            HostReply::Text(message) => leave(Err(Error::RuntimeError(message))),
            _ => leave(Err(refusal_of(reply))),
        },
        Stage::Rethrowing => match reply {
            HostReply::Done => leave(Err(Error::Bridge(BridgeFault::HostException))),
            _ => leave(Err(refusal_of(reply))),
        },
        Stage::ReferencingResult => after_materializing(
            ask(Stage::OpeningResult, HostAction::OpenResult),
            reply,
        ),
        Stage::OpeningResult => match reply {
            HostReply::Done => ask(Stage::TakingResult, HostAction::TakeResult),
            _ => leave(Err(refusal_of(reply))),
        },
        Stage::TakingResult => after_materializing(after_value(shape), reply),
        Stage::Reading => after_reading(shape, reply),
        Stage::Detaching(result) => finish(result),
        Stage::Finished => finish(Err(Error::Bridge(BridgeFault::Protocol))),
    }
}

fn refusal(reply: HostReply) -> (res: Error)
    ensures
        res == refusal_of(reply),
{
    match reply {
        HostReply::Failed(fault) => Error::Bridge(fault),
        _ => Error::Bridge(BridgeFault::Protocol),
    }
}

fn leaving(result: Result<Completion, Error>) -> (res: (Stage, Step))
    ensures
        res == leave(result),
{
    (Stage::Detaching(result), Step::Perform(HostAction::Detach))
}

fn refused(reply: HostReply) -> (res: (Stage, Step))
    ensures
        res == leave(Err(refusal_of(reply))),
{
    leaving(Err(refusal(reply)))
}

fn host_exception() -> (res: (Stage, Step))
    ensures
        res == leave(Err(Error::Bridge(BridgeFault::HostException))),
{
    leaving(Err(Error::Bridge(BridgeFault::HostException)))
}

/// Narrows the transmission unit that the host gave to the 16 bits of the
/// protocol, or says that it does not fit.
pub fn mtu_from_host(raw: i32) -> (res: Result<Completion, Error>)
    ensures
        res == mtu_of(raw),
{
    if 0 <= raw && raw <= MTU_MAX {
        Ok(Completion::Mtu(raw as u16))
    } else {
        Err(Error::MtuOutOfRange(raw))
    }
}

fn cause_tested(class: CauseClass, reply: HostReply) -> (res: (Stage, Step))
    ensures
        res == after_cause_test(class, reply),
{
    match reply {
        HostReply::Flag(true) => match class.error() {
            Some(error) => leaving(Err(error)),
            None => (Stage::FetchingMessage, Step::Perform(HostAction::FetchMessage)),
        },
        HostReply::Flag(false) => match class.next() {
            Some(later) => (Stage::TestingCause(later), Step::Perform(HostAction::TestCause(later))),
            None => (Stage::Rethrowing, Step::Perform(HostAction::Rethrow)),
        },
        other => refused(other),
    }
}

fn issued(shape: Shape, reply: HostReply) -> (res: (Stage, Step))
    ensures
        res == after_issue(shape, reply),
{
    match shape {
        Shape::Answers => match reply {
            HostReply::Flag(connected) => leaving(Ok(Completion::Connected(connected))),
            other => refused(other),
        },
        Shape::Streams => match reply {
            HostReply::Done => leaving(Ok(Completion::Streaming)),
            other => refused(other),
        },
        Shape::Measures => match reply {
            HostReply::Number(raw) => leaving(mtu_from_host(raw)),
            HostReply::Failed(BridgeFault::HostException) => (
                Stage::CheckingMeasureFault,
                Step::Perform(HostAction::CheckPending),
            ),
            other => refused(other),
        },
        _ => match reply {
            HostReply::Done => (Stage::DetachingToAwait, Step::Perform(HostAction::Detach)),
            other => refused(other),
        },
    }
}

fn materialized(onward: (Stage, Step), reply: HostReply) -> (res: (Stage, Step))
    ensures
        res == after_materializing(onward, reply),
{
    match reply {
        HostReply::Done => onward,
        HostReply::Failed(BridgeFault::HostException) => (
            Stage::TakingFault,
            Step::Perform(HostAction::TakeFault),
        ),
        other => refused(other),
    }
}

fn valued(shape: Shape) -> (res: (Stage, Step))
    ensures
        res == after_value(shape),
{
    match shape {
        Shape::YieldsBytes => (Stage::Reading, Step::Perform(HostAction::ReadBytes)),
        Shape::YieldsServices => (Stage::Reading, Step::Perform(HostAction::ReadServices)),
        _ => leaving(Ok(Completion::Done)),
    }
}

fn read(shape: Shape, reply: HostReply) -> (res: (Stage, Step))
    ensures
        res == after_reading(shape, reply),
{
    match (shape, reply) {
        (Shape::YieldsBytes, HostReply::Bytes(bytes)) => leaving(Ok(Completion::Value(bytes))),
        (Shape::YieldsServices, HostReply::Services(services)) => leaving(
            Ok(Completion::Services(services)),
        ),
        (_, other) => refused(other),
    }
}

/// Takes the reply that arrives in `stage` and gives the next stage and what
/// is asked next.
pub fn advance(stage: Stage, shape: Shape, reply: HostReply) -> (res: (Stage, Step))
    ensures
        res == transition(stage, shape, reply),
{
    match stage {
        Stage::Attaching => match reply {
            HostReply::Done => (
                Stage::CheckingBeforeReference,
                Step::Perform(HostAction::CheckPending),
            ),
            other => (Stage::Finished, Step::Finish(Err(refusal(other)))),
        },
        Stage::CheckingBeforeReference => match reply {
            HostReply::Flag(false) => (
                Stage::Referencing,
                Step::Perform(HostAction::ReferencePeripheral),
            ),
            HostReply::Flag(true) => (
                Stage::ClearingBeforeCall,
                Step::Perform(HostAction::ClearPending),
            ),
            other => refused(other),
        },
        Stage::ClearingBeforeCall => match reply {
            HostReply::Done => host_exception(),
            other => refused(other),
        },
        Stage::Referencing => match reply {
            HostReply::Done => (
                Stage::CheckingAfterReference,
                Step::Perform(HostAction::CheckPending),
            ),
            other => refused(other),
        },
        Stage::CheckingAfterReference => match reply {
            HostReply::Flag(false) => if shape == Shape::Measures {
                (Stage::CheckingBeforeMeasure, Step::Perform(HostAction::CheckPending))
            } else {
                (Stage::Issuing, Step::Perform(HostAction::Issue))
            },
            HostReply::Flag(true) => (
                Stage::ClearingBeforeCall,
                Step::Perform(HostAction::ClearPending),
            ),
            other => refused(other),
        },
        Stage::CheckingBeforeMeasure => match reply {
            HostReply::Flag(false) => (Stage::Issuing, Step::Perform(HostAction::Issue)),
            HostReply::Flag(true) => host_exception(),
            other => refused(other),
        },
        Stage::Issuing => issued(shape, reply),
        Stage::CheckingMeasureFault => match reply {
            HostReply::Flag(true) => (
                Stage::TakingMeasureFault,
                Step::Perform(HostAction::TakeFault),
            ),
            HostReply::Flag(false) => host_exception(),
            other => refused(other),
        },
        Stage::TakingMeasureFault => match reply {
            HostReply::Done => (
                Stage::TestingMeasureFault,
                Step::Perform(HostAction::TestFault(CauseClass::NotConnected)),
            ),
            other => refused(other),
        },
        Stage::TestingMeasureFault => match reply {
            HostReply::Flag(true) => leaving(Err(Error::NotConnected)),
            HostReply::Flag(false) => (Stage::Rethrowing, Step::Perform(HostAction::Rethrow)),
            other => refused(other),
        },
        Stage::DetachingToAwait => (Stage::Awaiting, Step::Perform(HostAction::Await)),
        Stage::Awaiting => match reply {
            HostReply::Done => (Stage::Reattaching, Step::Perform(HostAction::Attach)),
            other => (Stage::Finished, Step::Finish(Err(refusal(other)))),
        },
        Stage::Reattaching => match reply {
            HostReply::Done => (Stage::CheckingPending, Step::Perform(HostAction::CheckPending)),
            other => (Stage::Finished, Step::Finish(Err(refusal(other)))),
        },
        Stage::CheckingPending => match reply {
            HostReply::Flag(false) => (
                Stage::ReferencingResult,
                Step::Perform(HostAction::ReferenceResult),
            ),
            HostReply::Flag(true) => (Stage::TakingFault, Step::Perform(HostAction::TakeFault)),
            other => refused(other),
        },
        Stage::TakingFault => match reply {
            HostReply::Done => (
                Stage::TestingCompletionFailure,
                Step::Perform(HostAction::TestCompletionFailure),
            ),
            other => refused(other),
        },
        Stage::TestingCompletionFailure => match reply {
            HostReply::Flag(true) => (Stage::FetchingCause, Step::Perform(HostAction::FetchCause)),
            HostReply::Flag(false) => (Stage::Rethrowing, Step::Perform(HostAction::Rethrow)),
            other => refused(other),
        },
        Stage::FetchingCause => match reply {
            HostReply::Done => {
                let class = CauseClass::first();
                (Stage::TestingCause(class), Step::Perform(HostAction::TestCause(class)))
            },
            other => refused(other),
        },
        Stage::TestingCause(class) => cause_tested(class, reply),
        Stage::FetchingMessage => match reply {
            HostReply::Text(message) => leaving(Err(Error::RuntimeError(message))),
            other => refused(other),
        },
        Stage::Rethrowing => match reply {
            HostReply::Done => host_exception(),
            other => refused(other),
        },
        Stage::ReferencingResult => materialized(
            (Stage::OpeningResult, Step::Perform(HostAction::OpenResult)),
            reply,
        ),
        Stage::OpeningResult => match reply {
            HostReply::Done => (Stage::TakingResult, Step::Perform(HostAction::TakeResult)),
            other => refused(other),
        },
        Stage::TakingResult => materialized(valued(shape), reply),
        Stage::Reading => read(shape, reply),
        Stage::Detaching(result) => (Stage::Finished, Step::Finish(result)),
        Stage::Finished => (
            Stage::Finished,
            Step::Finish(Err(Error::Bridge(BridgeFault::Protocol))),
        ),
    }
}

/// Whether the thread is attached to the host runtime while the exchange
/// waits in `stage`.
pub open spec fn is_attached(stage: Stage) -> bool {
    !(stage is Attaching || stage is DetachingToAwait || stage is Awaiting || stage is Reattaching
        || stage is Detaching || stage is Finished)
}

/// Every attachment is released before the operation waits or ends: the
/// result is handed out and the future is awaited only while detached, an
/// attached exchange becomes detached only by asking for the release, and a
/// detached one becomes attached only when an attachment went well.
pub proof fn lemma_attachment_is_scoped(stage: Stage, shape: Shape, reply: HostReply)
    ensures
        ({
            let (next, step) = transition(stage, shape, reply);
            &&& step is Finish ==> !is_attached(stage) && next is Finished
            &&& step == Step::Perform(HostAction::Await) ==> !is_attached(stage)
            &&& is_attached(stage) && !is_attached(next) ==> step == Step::Perform(
                HostAction::Detach,
            )
            &&& !is_attached(stage) && is_attached(next) ==> (stage is Attaching
                || stage is Reattaching) && reply is Done
        }),
{
}

/// The actions that an exchange asks for, from `stage` on, while it is fed
/// `replies` in turn.
pub open spec fn actions_asked(stage: Stage, shape: Shape, replies: Seq<HostReply>) -> Seq<
    HostAction,
>
    decreases replies.len(),
{
    if replies.len() == 0 {
        Seq::empty()
    } else {
        let (next, step) = transition(stage, shape, replies.first());
        match step {
            Step::Perform(action) => seq![action] + actions_asked(
                next,
                shape,
                replies.drop_first(),
            ),
            Step::Finish(_) => Seq::empty(),
        }
    }
}

/// Whether the call can still be issued from `stage` on.
pub open spec fn may_issue(stage: Stage) -> bool {
    stage is Attaching || stage is CheckingBeforeReference || stage is Referencing
        || stage is CheckingAfterReference || stage is CheckingBeforeMeasure
}

/// Whether the completed result can still be touched from `stage` on.
pub open spec fn may_materialize(stage: Stage) -> bool {
    may_issue(stage) || stage is Issuing || stage is DetachingToAwait || stage is Awaiting
        || stage is Reattaching || stage is CheckingPending || stage is ReferencingResult
        || stage is OpeningResult || stage is TakingResult
}

/// An action that touches the completed result.
pub open spec fn is_materializing(action: HostAction) -> bool {
    action == HostAction::ReferenceResult || action == HostAction::OpenResult || action
        == HostAction::TakeResult || action == HostAction::ReadBytes || action
        == HostAction::ReadServices
}

/// An action that is not barred, put before a run of actions of which none
/// is barred, gives a run of which none is barred.
proof fn lemma_none_barred_after(
    first: HostAction,
    later: Seq<HostAction>,
    barred: spec_fn(HostAction) -> bool,
)
    requires
        !barred(first),
        forall|action: HostAction| later.contains(action) ==> !barred(action),
    ensures
        forall|action: HostAction| (seq![first] + later).contains(action) ==> !barred(action),
{
    let all = seq![first] + later;
    assert forall|action: HostAction| all.contains(action) implies !barred(action) by {
        let i = choose|i: int| 0 <= i < all.len() && all[i] == action;
        if i > 0 {
            assert(later[i - 1] == action);
            assert(later.contains(action));
        }
    }
}

/// From a stage past the point of issue, the call is never issued, whatever
/// the driver replies.
pub proof fn lemma_call_is_not_issued_later(stage: Stage, shape: Shape, replies: Seq<HostReply>)
    requires
        !may_issue(stage),
    ensures
        !actions_asked(stage, shape, replies).contains(HostAction::Issue),
    decreases replies.len(),
{
    if replies.len() > 0 {
        let (next, step) = transition(stage, shape, replies.first());
        if let Step::Perform(action) = step {
            lemma_call_is_not_issued_later(next, shape, replies.drop_first());
            lemma_none_barred_after(
                action,
                actions_asked(next, shape, replies.drop_first()),
                |asked: HostAction| asked == HostAction::Issue,
            );
        }
    }
}

/// A failed attachment, or a host fault that is pending before the call, ends
/// the operation without the call: whatever is replied afterwards, the call
/// is never issued.
pub proof fn lemma_no_call_after_early_fault(stage: Stage, shape: Shape, replies: Seq<HostReply>)
    requires
        replies.len() > 0,
        stage is Attaching && !(replies[0] is Done) || (stage is CheckingBeforeReference
            || stage is CheckingAfterReference || stage is CheckingBeforeMeasure) && replies[0]
            == HostReply::Flag(true),
    ensures
        !actions_asked(stage, shape, replies).contains(HostAction::Issue),
{
    let (next, step) = transition(stage, shape, replies.first());
    if let Step::Perform(action) = step {
        lemma_call_is_not_issued_later(next, shape, replies.drop_first());
        lemma_none_barred_after(
            action,
            actions_asked(next, shape, replies.drop_first()),
            |asked: HostAction| asked == HostAction::Issue,
        );
    }
}

/// From a stage on the fault path, the completed result is never touched.
pub proof fn lemma_result_is_not_touched_later(
    stage: Stage,
    shape: Shape,
    replies: Seq<HostReply>,
)
    requires
        !may_materialize(stage),
    ensures
        forall|action: HostAction|
            actions_asked(stage, shape, replies).contains(action) ==> !is_materializing(action),
    decreases replies.len(),
{
    if replies.len() > 0 {
        let (next, step) = transition(stage, shape, replies.first());
        if let Step::Perform(action) = step {
            lemma_result_is_not_touched_later(next, shape, replies.drop_first());
            lemma_none_barred_after(
                action,
                actions_asked(next, shape, replies.drop_first()),
                |asked: HostAction| is_materializing(asked),
            );
        }
    }
}

/// A host fault that is pending when the result is about to be retrieved is
/// taken and classified before anything else: the result is never touched.
pub proof fn lemma_pending_fault_comes_first(shape: Shape, replies: Seq<HostReply>)
    requires
        replies.len() > 0,
        replies[0] == HostReply::Flag(true),
    ensures
        actions_asked(Stage::CheckingPending, shape, replies).len() > 0,
        actions_asked(Stage::CheckingPending, shape, replies)[0] == HostAction::TakeFault,
        forall|action: HostAction|
            actions_asked(Stage::CheckingPending, shape, replies).contains(action)
                ==> !is_materializing(action),
{
    let later = actions_asked(Stage::TakingFault, shape, replies.drop_first());
    lemma_result_is_not_touched_later(Stage::TakingFault, shape, replies.drop_first());
    assert(actions_asked(Stage::CheckingPending, shape, replies) == seq![HostAction::TakeFault]
        + later);
    lemma_none_barred_after(
        HostAction::TakeFault,
        later,
        |asked: HostAction| is_materializing(asked),
    );
}

/// Where the tests of a cause end when the host answers them as `profile`
/// says, starting with the test against `class`.
pub open spec fn cause_outcome(profile: CauseProfile, shape: Shape, class: CauseClass) -> (
    Stage,
    Step,
)
    decreases 6 - class.rank(),
{
    let answered = transition(
        Stage::TestingCause(class),
        shape,
        HostReply::Flag(profile.is_instance_of_spec(class)),
    );
    match answered.0 {
        Stage::TestingCause(later) => if later.rank() > class.rank() {
            cause_outcome(profile, shape, later)
        } else {
            answered
        },
        Stage::FetchingMessage => transition(
            Stage::FetchingMessage,
            shape,
            HostReply::Text(profile.message),
        ),
        _ => answered,
    }
}

proof fn lemma_cause_outcome_from(
    profile: CauseProfile,
    shape: Shape,
    from: CauseClass,
    class: CauseClass,
)
    requires
        profile.is_instance_of_spec(class),
        from.rank() <= class.rank(),
        forall|earlier: CauseClass|
            from.rank() <= earlier.rank() < class.rank() ==> !#[trigger] profile.is_instance_of_spec(
                earlier,
            ),
    ensures
        cause_outcome(profile, shape, from) == leave(
            Err(
                match class.error_spec() {
                    Some(error) => error,
                    None => Error::RuntimeError(profile.message),
                },
            ),
        ),
    decreases 6 - from.rank(),
{
    if from.rank() < class.rank() {
        assert(!profile.is_instance_of_spec(from));
        let later = from.next_spec()->0;
        assert forall|earlier: CauseClass|
            later.rank() <= earlier.rank() < class.rank() implies !#[trigger] profile.is_instance_of_spec(
            earlier,
        ) by {}
        lemma_cause_outcome_from(profile, shape, later, class);
    } else {
        assert(from == class);
    }
}

proof fn lemma_cause_outcome_none(profile: CauseProfile, shape: Shape, from: CauseClass)
    requires
        profile.matches_none(),
    ensures
        cause_outcome(profile, shape, from) == ask(Stage::Rethrowing, HostAction::Rethrow),
    decreases 6 - from.rank(),
{
    assert(!profile.is_instance_of(from));
    if let Some(later) = from.next_spec() {
        lemma_cause_outcome_none(profile, shape, later);
    }
}

/// The tests of a cause end as its classification says: in the domain error
/// of the first class of which the cause is an instance, or, for a cause of
/// no class tried, in the fault being raised again in the host runtime, and
/// only after that in the report of a host exception.
pub proof fn lemma_tests_follow_classification(
    profile: CauseProfile,
    shape: Shape,
    class: CauseClass,
)
    ensures
        profile.first_match_is(class) ==> (match verdict_for(class, profile.message) {
            Verdict::Classified(error) => cause_outcome(profile, shape, CauseClass::first_spec())
                == leave(Err(error)),
            Verdict::Unclassified => false,
        }),
        profile.matches_none() ==> cause_outcome(profile, shape, CauseClass::first_spec()) == ask(
            Stage::Rethrowing,
            HostAction::Rethrow,
        ) && transition(Stage::Rethrowing, shape, HostReply::Done) == leave(
            Err(Error::Bridge(BridgeFault::HostException)),
        ),
{
    if profile.first_match_is(class) {
        assert forall|earlier: CauseClass|
            0 <= earlier.rank() < class.rank() implies !#[trigger] profile.is_instance_of_spec(
            earlier,
        ) by {
            assert(!profile.is_instance_of(earlier));
        }
        lemma_cause_outcome_from(profile, shape, CauseClass::first_spec(), class);
    }
    if profile.matches_none() {
        lemma_cause_outcome_none(profile, shape, CauseClass::first_spec());
    }
}

/// The action whose reply an exchange for a call of `shape` waits for in
/// `stage`, if it waits.
pub open spec fn awaited(stage: Stage, shape: Shape) -> Option<HostAction> {
    match stage {
        Stage::Attaching => Some(HostAction::Attach),
        Stage::CheckingBeforeReference => Some(HostAction::CheckPending),
        Stage::ClearingBeforeCall => Some(HostAction::ClearPending),
        Stage::Referencing => Some(HostAction::ReferencePeripheral),
        Stage::CheckingAfterReference => Some(HostAction::CheckPending),
        Stage::CheckingBeforeMeasure => Some(HostAction::CheckPending),
        Stage::Issuing => Some(HostAction::Issue),
        Stage::CheckingMeasureFault => Some(HostAction::CheckPending),
        Stage::TakingMeasureFault => Some(HostAction::TakeFault),
        Stage::TestingMeasureFault => Some(HostAction::TestFault(CauseClass::NotConnected)),
        Stage::DetachingToAwait => Some(HostAction::Detach),
        Stage::Awaiting => Some(HostAction::Await),
        Stage::Reattaching => Some(HostAction::Attach),
        Stage::CheckingPending => Some(HostAction::CheckPending),
        Stage::TakingFault => Some(HostAction::TakeFault),
        Stage::TestingCompletionFailure => Some(HostAction::TestCompletionFailure),
        Stage::FetchingCause => Some(HostAction::FetchCause),
        Stage::TestingCause(class) => Some(HostAction::TestCause(class)),
        Stage::FetchingMessage => Some(HostAction::FetchMessage),
        Stage::Rethrowing => Some(HostAction::Rethrow),
        Stage::ReferencingResult => Some(HostAction::ReferenceResult),
        Stage::OpeningResult => Some(HostAction::OpenResult),
        Stage::TakingResult => Some(HostAction::TakeResult),
        Stage::Reading => if shape == Shape::YieldsServices {
            Some(HostAction::ReadServices)
        } else {
            Some(HostAction::ReadBytes)
        },
        Stage::Detaching(_) => Some(HostAction::Detach),
        Stage::Finished => None,
    }
}

/// An exchange waits for the reply to what it asked for last.
pub proof fn lemma_waits_for_what_was_asked(stage: Stage, shape: Shape, reply: HostReply)
    ensures
        ({
            let (next, step) = transition(stage, shape, reply);
            match step {
                Step::Perform(action) => awaited(next, shape) == Some(action),
                Step::Finish(_) => next is Finished,
            }
        }),
{
}

/// One host call in flight: the call, and the stage that its handling has
/// reached.
#[derive(Debug, PartialEq, Eq)]
pub struct Exchange {
    stage: Stage,
    call: HostCall,
}

impl Exchange {
    /// The stage that the exchange has reached.
    pub closed spec fn stage(&self) -> Stage {
        self.stage
    }

    /// The call of the exchange as a value of the specification.
    pub closed spec fn call_spec(&self) -> HostCall {
        self.call
    }

    /// An exchange for `call` that has asked for the attachment and waits
    /// for the reply.
    pub(crate) fn begin(call: HostCall) -> (res: Self)
        ensures
            res.stage() == Stage::Attaching,
            res.call_spec() == call,
    {
        Exchange { stage: Stage::Attaching, call }
    }

    /// The call that `HostAction::Issue` asks for.
    pub fn call(&self) -> (res: &HostCall)
        ensures
            *res == self.call_spec(),
    {
        &self.call
    }

    /// Whether the result has been handed out.
    pub fn is_finished(&self) -> (res: bool)
        ensures
            res == (self.stage() is Finished),
    {
        match self.stage {
            Stage::Finished => true,
            _ => false,
        }
    }

    /// Takes the driver's reply to what was asked last and says what is
    /// asked next.
    pub fn advance(self, reply: HostReply) -> (res: (Exchange, Step))
        ensures
            res.0.call_spec() == self.call_spec(),
            (res.0.stage(), res.1) == transition(self.stage(), self.call_spec().shape_spec(), reply),
    {
        let shape = self.call.shape();
        let (stage, step) = advance(self.stage, shape, reply);
        (Exchange { stage, call: self.call }, step)
    }
}

} // verus!
