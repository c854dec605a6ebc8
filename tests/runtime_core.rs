use sqs_consumer::ack::AckEntry;
use sqs_consumer::config::{poller_count_from, DEFAULT_POLLER_COUNT};
use sqs_consumer::deleter::{AckEvent, BatchDeleter};
use sqs_consumer::dispatch::{max_concurrency, Dispatch, Dispatcher};
use sqs_consumer::message::{ack_after_handler, validate, Message, MessageError};
use sqs_consumer::poller::{PollAction, PollOutcome, Poller, RECEIVE_BACKOFF_MS};
use sqs_consumer::signal::{SignalKind, SignalManager};
use sqs_consumer::timer::Timer;

fn message(id: Option<&str>, body: Option<&str>, rh: Option<&str>) -> Message {
    Message {
        message_id: id.map(|s| s.to_string()),
        body: body.map(|s| s.to_string()),
        receipt_handle: rh.map(|s| s.to_string()),
    }
}

#[test]
fn concurrency_is_four_per_poller_plus_one() {
    assert_eq!(max_concurrency(1), 5);
    assert_eq!(max_concurrency(3), 13);
    assert_eq!(max_concurrency(0), 1);
}

#[test]
fn dispatcher_never_exceeds_permits() {
    let mut d = Dispatcher::new(1);
    for _ in 0..5 {
        assert_eq!(d.on_message(), Dispatch::Spawn);
    }
    assert_eq!(d.in_flight(), 5);
    assert_eq!(d.on_message(), Dispatch::AwaitPermit);
    assert_eq!(d.in_flight(), 5);
    d.on_task_finished();
    assert_eq!(d.on_message(), Dispatch::Spawn);
    assert_eq!(d.in_flight(), d.limit());
}

#[test]
fn missing_receipt_handle_gives_no_ack_and_frees_permit() {
    let mut d = Dispatcher::new(1);
    assert_eq!(d.on_message(), Dispatch::Spawn);
    let m = message(Some("m1"), Some("body"), None);
    assert_eq!(validate(&m).err(), Some(MessageError::MissingReceiptHandle));
    d.on_task_finished();
    assert_eq!(d.in_flight(), 0);
}

#[test]
fn validation_checks_fields_in_order() {
    assert_eq!(validate(&message(None, None, None)).err(), Some(MessageError::MissingId));
    assert_eq!(validate(&message(Some("a"), None, None)).err(), Some(MessageError::MissingBody));
    let e = validate(&message(Some("a"), Some("b"), Some("rh"))).unwrap();
    assert_eq!(e.id, "a");
    assert_eq!(e.receipt_handle, "rh");
}

#[test]
fn handler_result_decides_the_ack() {
    let e = AckEntry { id: "a".to_string(), receipt_handle: "rh".to_string() };
    assert!(ack_after_handler(e.duplicate(), false).is_none());
    assert_eq!(ack_after_handler(e, true).unwrap().id, "a");
}

#[test]
fn interrupt_discards_undispatched_and_waits_for_tasks() {
    let mut s = SignalManager::new();
    let mut d = Dispatcher::new(1);
    assert_eq!(d.on_message(), Dispatch::Spawn);
    assert_eq!(d.on_message(), Dispatch::Spawn);
    assert!(s.on_signal(SignalKind::Interrupt));
    d.on_cancel();
    // messages still in the channel are not dispatched
    assert_eq!(d.on_message(), Dispatch::Discard);
    assert_eq!(d.on_message(), Dispatch::Discard);
    assert_eq!(d.in_flight(), 2);
    assert!(!d.may_return());
    d.on_task_finished();
    d.on_task_finished();
    assert_eq!(d.pollers_running(), 1);
    d.on_poller_stopped();
    assert_eq!(d.pollers_running(), 0);
    assert!(!d.may_return());
    let mut a = BatchDeleter::new();
    a.step(AckEvent::Cancelled);
    a.step(AckEvent::Closed);
    d.on_acknowledger_done(&a);
    assert!(d.may_return());
}

#[test]
fn second_signal_does_not_broadcast_again() {
    let mut s = SignalManager::new();
    assert!(!s.has_fired());
    assert!(s.on_signal(SignalKind::Terminate));
    assert!(!s.on_signal(SignalKind::Interrupt));
    assert!(s.has_fired());
}

#[test]
fn poller_forwards_backs_off_and_stops() {
    let mut p = Poller::new();
    match p.step(PollOutcome::Received(vec![message(Some("1"), None, None), message(Some("2"), None, None)])) {
        PollAction::Forward(ms) => {
            assert_eq!(ms.len(), 2);
            assert_eq!(ms[0].message_id.as_deref(), Some("1"));
        }
        _ => panic!("expected forward"),
    }
    assert!(matches!(p.step(PollOutcome::Failed), PollAction::Backoff(RECEIVE_BACKOFF_MS)));
    assert_eq!(RECEIVE_BACKOFF_MS, 1000);
    assert!(matches!(p.step(PollOutcome::Cancelled), PollAction::Stop));
    assert!(p.is_stopped());
    assert!(matches!(p.step(PollOutcome::Received(vec![])), PollAction::Stop));
}

#[test]
fn timer_records_once_from_first_step() {
    let mut t = Timer::new();
    assert_eq!(t.on_step(5_000_000_000, false), None);
    assert_eq!(t.on_step(6_000_000_000, false), None);
    assert_eq!(t.on_step(8_700_000_000, true), Some(3));
    assert_eq!(t.on_step(9_000_000_000, true), None);
}

#[test]
fn timer_completing_on_first_step_records_zero() {
    let mut t = Timer::new();
    assert_eq!(t.on_step(42, true), Some(0));
}

#[test]
fn poller_count_parses_or_defaults() {
    assert_eq!(poller_count_from(None), DEFAULT_POLLER_COUNT);
    assert_eq!(poller_count_from(Some("3")), 3);
    assert_eq!(poller_count_from(Some("abc")), 1);
    assert_eq!(poller_count_from(Some("")), 1);
    assert_eq!(poller_count_from(Some("99999999999999999999999")), 1);
    assert_eq!(poller_count_from(Some("+3")), 3);
    assert_eq!(poller_count_from(Some("-3")), 1);
    assert_eq!(poller_count_from(Some("+")), 1);
    assert_eq!(poller_count_from(Some("++3")), 1);
    assert_eq!(poller_count_from(Some(" 3")), 1);
}

#[test]
fn checked_dispatcher_rejects_huge_poller_count() {
    assert!(Dispatcher::checked_new(usize::MAX).is_none());
    assert_eq!(Dispatcher::checked_new(2).unwrap().limit(), 9);
}
