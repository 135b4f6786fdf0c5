use droidplug::address::BDAddr;
use droidplug::bridge::{
    advance, classify_cause, mtu_from_host, CauseProfile, Completion, Exchange, Stage, Step,
    Verdict,
};
use droidplug::error::{BridgeFault, Error};
use droidplug::host::{CauseClass, HostAction, HostCall, HostReply, HostService, Shape};
use droidplug::peripheral::{Peripheral, PeripheralId};
use droidplug::registry::Registry;

fn profile(flags: [bool; 6], message: &str) -> CauseProfile {
    CauseProfile {
        not_connected: flags[0],
        permission_denied: flags[1],
        unexpected_callback: flags[2],
        unexpected_characteristic: flags[3],
        no_such_characteristic: flags[4],
        runtime: flags[5],
        message: message.to_string(),
    }
}

fn live_exchange(start: fn(&Peripheral, Option<&Registry>) -> Result<Exchange, Error>) -> Exchange {
    let addr = BDAddr::from_bytes([1, 2, 3, 4, 5, 6]);
    let peripheral = Peripheral::new(addr);
    let mut registry = Registry::new();
    registry.add(PeripheralId::new(addr));
    start(&peripheral, Some(&registry)).unwrap()
}

fn run(exchange: Exchange, replies: Vec<HostReply>) -> (Vec<HostAction>, Option<Result<Completion, Error>>) {
    let mut exchange = exchange;
    let mut actions = vec![HostAction::Attach];
    for reply in replies {
        let (next, step) = exchange.advance(reply);
        exchange = next;
        match step {
            Step::Perform(action) => actions.push(action),
            Step::Finish(result) => {
                assert!(exchange.is_finished());
                return (actions, Some(result));
            }
        }
    }
    (actions, None)
}

fn until_result() -> Vec<HostReply> {
    vec![
        HostReply::Done,
        HostReply::Flag(false),
        HostReply::Done,
        HostReply::Flag(false),
        HostReply::Done,
        HostReply::Done,
        HostReply::Done,
        HostReply::Done,
    ]
}

#[test]
fn each_named_class_maps_to_its_error() {
    let none = [false; 6];
    let expected = [
        Error::NotConnected,
        Error::PermissionDenied,
        Error::UnexpectedCallback,
        Error::UnexpectedCharacteristic,
        Error::NoSuchCharacteristic,
    ];
    for i in 0..5 {
        let mut flags = none;
        flags[i] = true;
        assert_eq!(
            classify_cause(profile(flags, "ignored")),
            Verdict::Classified(expected[i].clone())
        );
        flags[5] = true;
        assert_eq!(
            classify_cause(profile(flags, "ignored")),
            Verdict::Classified(expected[i].clone())
        );
    }
}

#[test]
fn first_matching_class_wins() {
    assert_eq!(
        classify_cause(profile([false, true, false, true, true, true], "m")),
        Verdict::Classified(Error::PermissionDenied)
    );
    assert_eq!(
        classify_cause(profile([true, true, true, true, true, true], "m")),
        Verdict::Classified(Error::NotConnected)
    );
}

#[test]
fn runtime_fault_carries_its_message() {
    assert_eq!(
        classify_cause(profile([false, false, false, false, false, true], "gatt busy")),
        Verdict::Classified(Error::RuntimeError("gatt busy".to_string()))
    );
}

#[test]
fn unknown_cause_is_unclassified() {
    assert_eq!(classify_cause(profile([false; 6], "m")), Verdict::Unclassified);
}

#[test]
fn classes_are_tried_in_order() {
    let mut class = CauseClass::first();
    let mut order = vec![class];
    while let Some(next) = class.next() {
        order.push(next);
        class = next;
    }
    assert_eq!(
        order,
        vec![
            CauseClass::NotConnected,
            CauseClass::PermissionDenied,
            CauseClass::UnexpectedCallback,
            CauseClass::UnexpectedCharacteristic,
            CauseClass::NoSuchCharacteristic,
            CauseClass::Runtime,
        ]
    );
    assert_eq!(CauseClass::NotConnected.error(), Some(Error::NotConnected));
    assert_eq!(CauseClass::Runtime.error(), None);
    assert_eq!(
        CauseClass::NotConnected.class_name(),
        "com/nonpolynomial/btleplug/android/impl/NotConnectedException"
    );
    assert_eq!(CauseClass::Runtime.class_name(), "java/lang/RuntimeException");
}

#[test]
fn connect_runs_to_completion() {
    let exchange = live_exchange(|p, r| p.connect(r));
    assert_eq!(exchange.call(), &HostCall::Connect);
    let mut replies = until_result();
    replies.extend(vec![
        HostReply::Flag(false),
        HostReply::Done,
        HostReply::Done,
        HostReply::Done,
        HostReply::Done,
    ]);
    let (actions, result) = run(exchange, replies);
    assert_eq!(
        actions,
        vec![
            HostAction::Attach,
            HostAction::CheckPending,
            HostAction::ReferencePeripheral,
            HostAction::CheckPending,
            HostAction::Issue,
            HostAction::Detach,
            HostAction::Await,
            HostAction::Attach,
            HostAction::CheckPending,
            HostAction::ReferenceResult,
            HostAction::OpenResult,
            HostAction::TakeResult,
            HostAction::Detach,
        ]
    );
    assert_eq!(result, Some(Ok(Completion::Done)));
}

#[test]
fn read_hands_the_bytes_out() {
    let addr = BDAddr::from_bytes([1, 2, 3, 4, 5, 6]);
    let peripheral = Peripheral::new(addr);
    let mut registry = Registry::new();
    registry.add(PeripheralId::new(addr));
    let descriptor = droidplug::gatt::Descriptor { uuid: 9, service_uuid: 1, characteristic_uuid: 5 };
    let exchange = peripheral.read_descriptor(Some(&registry), &descriptor).unwrap();
    assert_eq!(exchange.call(), &HostCall::ReadDescriptor { characteristic: 5, uuid: 9 });
    let mut replies = until_result();
    replies.extend(vec![
        HostReply::Flag(false),
        HostReply::Done,
        HostReply::Done,
        HostReply::Done,
        HostReply::Bytes(vec![1, 2, 3]),
        HostReply::Done,
    ]);
    let (actions, result) = run(exchange, replies);
    assert_eq!(actions[12], HostAction::ReadBytes);
    assert_eq!(actions[13], HostAction::Detach);
    assert_eq!(result, Some(Ok(Completion::Value(vec![1, 2, 3]))));
}

#[test]
fn discovery_hands_the_services_out() {
    let exchange = live_exchange(|p, r| p.discover_services(r));
    let listed = vec![HostService { uuid: 3, characteristics: vec![] }];
    let mut replies = until_result();
    replies.extend(vec![
        HostReply::Flag(false),
        HostReply::Done,
        HostReply::Done,
        HostReply::Done,
        HostReply::Services(listed.clone()),
        HostReply::Done,
    ]);
    let (actions, result) = run(exchange, replies);
    assert_eq!(actions[12], HostAction::ReadServices);
    assert_eq!(result, Some(Ok(Completion::Services(listed))));
}

#[test]
fn failed_attachment_ends_without_a_call() {
    let exchange = live_exchange(|p, r| p.connect(r));
    let (actions, result) =
        run(exchange, vec![HostReply::Failed(BridgeFault::Environment("no vm".to_string()))]);
    assert_eq!(actions, vec![HostAction::Attach]);
    assert_eq!(
        result,
        Some(Err(Error::Bridge(BridgeFault::Environment("no vm".to_string()))))
    );
}

#[test]
fn pending_fault_before_the_call_bars_the_call() {
    let exchange = live_exchange(|p, r| p.connect(r));
    let (actions, result) = run(
        exchange,
        vec![HostReply::Done, HostReply::Flag(true), HostReply::Done, HostReply::Done],
    );
    assert_eq!(
        actions,
        vec![
            HostAction::Attach,
            HostAction::CheckPending,
            HostAction::ClearPending,
            HostAction::Detach
        ]
    );
    assert_eq!(result, Some(Err(Error::Bridge(BridgeFault::HostException))));
}

#[test]
fn pending_fault_is_classified_before_the_result_is_touched() {
    let exchange = live_exchange(|p, r| p.connect(r));
    let mut replies = until_result();
    replies.extend(vec![
        HostReply::Flag(true),
        HostReply::Done,
        HostReply::Flag(true),
        HostReply::Done,
        HostReply::Flag(false),
        HostReply::Flag(false),
        HostReply::Flag(true),
        HostReply::Done,
    ]);
    let (actions, result) = run(exchange, replies);
    assert_eq!(
        actions[8..].to_vec(),
        vec![
            HostAction::CheckPending,
            HostAction::TakeFault,
            HostAction::TestCompletionFailure,
            HostAction::FetchCause,
            HostAction::TestCause(CauseClass::NotConnected),
            HostAction::TestCause(CauseClass::PermissionDenied),
            HostAction::TestCause(CauseClass::UnexpectedCallback),
            HostAction::Detach,
        ]
    );
    assert_eq!(result, Some(Err(Error::UnexpectedCallback)));
}

#[test]
fn fault_raised_by_the_result_is_classified() {
    let exchange = live_exchange(|p, r| p.connect(r));
    let mut replies = until_result();
    replies.extend(vec![
        HostReply::Flag(false),
        HostReply::Done,
        HostReply::Done,
        HostReply::Failed(BridgeFault::HostException),
        HostReply::Done,
        HostReply::Flag(true),
        HostReply::Done,
        HostReply::Flag(false),
        HostReply::Flag(false),
        HostReply::Flag(false),
        HostReply::Flag(false),
        HostReply::Flag(false),
        HostReply::Flag(true),
        HostReply::Text("status 133".to_string()),
        HostReply::Done,
    ]);
    let (actions, result) = run(exchange, replies);
    assert_eq!(actions[11], HostAction::TakeResult);
    assert_eq!(actions[12], HostAction::TakeFault);
    assert_eq!(actions[actions.len() - 2], HostAction::FetchMessage);
    assert_eq!(result, Some(Err(Error::RuntimeError("status 133".to_string()))));
}

#[test]
fn unknown_cause_is_raised_again() {
    let exchange = live_exchange(|p, r| p.connect(r));
    let mut replies = until_result();
    replies.extend(vec![HostReply::Flag(true), HostReply::Done, HostReply::Flag(true), HostReply::Done]);
    replies.extend(vec![HostReply::Flag(false); 6]);
    replies.extend(vec![HostReply::Done, HostReply::Done]);
    let (actions, result) = run(exchange, replies);
    assert_eq!(actions[actions.len() - 2], HostAction::Rethrow);
    assert_eq!(actions[actions.len() - 1], HostAction::Detach);
    assert_eq!(result, Some(Err(Error::Bridge(BridgeFault::HostException))));
}

#[test]
fn fault_that_is_no_failed_completion_is_raised_again() {
    let exchange = live_exchange(|p, r| p.connect(r));
    let mut replies = until_result();
    replies.extend(vec![
        HostReply::Flag(true),
        HostReply::Done,
        HostReply::Flag(false),
        HostReply::Done,
        HostReply::Done,
    ]);
    let (actions, result) = run(exchange, replies);
    assert_eq!(
        actions[9..].to_vec(),
        vec![
            HostAction::TakeFault,
            HostAction::TestCompletionFailure,
            HostAction::Rethrow,
            HostAction::Detach
        ]
    );
    assert_eq!(result, Some(Err(Error::Bridge(BridgeFault::HostException))));
}

#[test]
fn is_connected_answers_at_once() {
    let exchange = live_exchange(|p, r| p.is_connected(r));
    let (actions, result) = run(
        exchange,
        vec![
            HostReply::Done,
            HostReply::Flag(false),
            HostReply::Done,
            HostReply::Flag(false),
            HostReply::Flag(true),
            HostReply::Done,
        ],
    );
    assert_eq!(actions[4], HostAction::Issue);
    assert_eq!(actions[5], HostAction::Detach);
    assert_eq!(result, Some(Ok(Completion::Connected(true))));
}

fn mtu_replies(tail: Vec<HostReply>) -> Vec<HostReply> {
    let mut replies = vec![
        HostReply::Done,
        HostReply::Flag(false),
        HostReply::Done,
        HostReply::Flag(false),
        HostReply::Flag(false),
    ];
    replies.extend(tail);
    replies
}

#[test]
fn mtu_is_narrowed() {
    let exchange = live_exchange(|p, r| p.mtu(r));
    let (actions, result) = run(exchange, mtu_replies(vec![HostReply::Number(517), HostReply::Done]));
    assert_eq!(actions[4], HostAction::CheckPending);
    assert_eq!(actions[5], HostAction::Issue);
    assert_eq!(result, Some(Ok(Completion::Mtu(517))));
}

#[test]
fn mtu_out_of_range_is_a_conversion_fault() {
    assert_eq!(mtu_from_host(0), Ok(Completion::Mtu(0)));
    assert_eq!(mtu_from_host(65535), Ok(Completion::Mtu(65535)));
    assert_eq!(mtu_from_host(65536), Err(Error::MtuOutOfRange(65536)));
    assert_eq!(mtu_from_host(-1), Err(Error::MtuOutOfRange(-1)));
    let exchange = live_exchange(|p, r| p.mtu(r));
    let (_, result) = run(exchange, mtu_replies(vec![HostReply::Number(70000), HostReply::Done]));
    assert_eq!(result, Some(Err(Error::MtuOutOfRange(70000))));
}

#[test]
fn mtu_of_unconnected_device_reports_not_connected() {
    let exchange = live_exchange(|p, r| p.mtu(r));
    let (actions, result) = run(
        exchange,
        mtu_replies(vec![
            HostReply::Failed(BridgeFault::HostException),
            HostReply::Flag(true),
            HostReply::Done,
            HostReply::Flag(true),
            HostReply::Done,
        ]),
    );
    assert_eq!(
        actions[6..].to_vec(),
        vec![
            HostAction::CheckPending,
            HostAction::TakeFault,
            HostAction::TestFault(CauseClass::NotConnected),
            HostAction::Detach
        ]
    );
    assert_eq!(result, Some(Err(Error::NotConnected)));
}

#[test]
fn mtu_fault_of_another_kind_is_raised_again() {
    let exchange = live_exchange(|p, r| p.mtu(r));
    let (actions, result) = run(
        exchange,
        mtu_replies(vec![
            HostReply::Failed(BridgeFault::HostException),
            HostReply::Flag(true),
            HostReply::Done,
            HostReply::Flag(false),
            HostReply::Done,
            HostReply::Done,
        ]),
    );
    assert_eq!(actions[actions.len() - 2], HostAction::Rethrow);
    assert_eq!(result, Some(Err(Error::Bridge(BridgeFault::HostException))));
}

#[test]
fn notifications_open_the_stream() {
    let exchange = live_exchange(|p, r| p.notifications(r));
    assert_eq!(exchange.call(), &HostCall::GetNotifications);
    let (_, result) = run(
        exchange,
        vec![
            HostReply::Done,
            HostReply::Flag(false),
            HostReply::Done,
            HostReply::Flag(false),
            HostReply::Done,
            HostReply::Done,
        ],
    );
    assert_eq!(result, Some(Ok(Completion::Streaming)));
}

#[test]
fn reply_of_the_wrong_kind_is_a_breach_of_protocol() {
    let exchange = live_exchange(|p, r| p.connect(r));
    let (actions, result) =
        run(exchange, vec![HostReply::Done, HostReply::Number(3), HostReply::Done]);
    assert_eq!(actions, vec![HostAction::Attach, HostAction::CheckPending, HostAction::Detach]);
    assert_eq!(result, Some(Err(Error::Bridge(BridgeFault::Protocol))));
}

#[test]
fn finished_exchange_stays_finished() {
    let (stage, step) = advance(Stage::Finished, Shape::Completes, HostReply::Done);
    assert_eq!(stage, Stage::Finished);
    assert_eq!(step, Step::Finish(Err(Error::Bridge(BridgeFault::Protocol))));
}

#[test]
fn shapes_of_the_calls() {
    assert_eq!(HostCall::Connect.shape(), Shape::Completes);
    assert_eq!(HostCall::Read { uuid: 1 }.shape(), Shape::YieldsBytes);
    assert_eq!(HostCall::DiscoverServices.shape(), Shape::YieldsServices);
    assert_eq!(HostCall::IsConnected.shape(), Shape::Answers);
    assert_eq!(HostCall::GetMtu.shape(), Shape::Measures);
    assert_eq!(HostCall::GetNotifications.shape(), Shape::Streams);
}
