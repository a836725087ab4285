use promise_rs::{Promise, Settlement, Status};
use std::sync::atomic::{AtomicUsize, Ordering};
use std::sync::Arc;

fn text(s: &str) -> Option<String> {
    Some(s.to_string())
}

fn append(suffix: &'static str) -> impl Fn(Option<String>) -> Option<String> + Send + 'static {
    move |payload: Option<String>| Some(format!("{}{}", payload.unwrap_or(String::new()), suffix))
}

fn counting(
    calls: &Arc<AtomicUsize>,
    suffix: &'static str,
) -> impl Fn(Option<String>) -> Option<String> + Send + 'static {
    let calls = calls.clone();
    move |payload: Option<String>| {
        calls.fetch_add(1, Ordering::SeqCst);
        Some(format!("{}{}", payload.unwrap_or(String::new()), suffix))
    }
}

#[test]
fn new_promise_is_pending_and_empty() {
    let promise = Promise::new();
    assert_eq!(promise.status, Status::Pending);
    assert_eq!(promise.value, None);
    assert_eq!(promise.handlers.as_ref().map(|queue| queue.len()), Some(0));
}

#[test]
fn resolve_gives_a_fulfilled_promise() {
    let promise = Promise::resolve(text("v"));
    assert_eq!(promise.status, Status::Fulfilled);
    assert_eq!(promise.value, text("v"));
    assert!(promise.handlers.is_none());
}

#[test]
fn reject_gives_a_rejected_promise() {
    let promise = Promise::reject(text("why"));
    assert_eq!(promise.status, Status::Rejected);
    assert_eq!(promise.value, text("why"));
    assert!(promise.handlers.is_none());
}

#[test]
fn absent_payload_is_not_the_empty_string() {
    let absent = Promise::resolve(None);
    let empty = Promise::resolve(text(""));
    assert_eq!(absent.value, None);
    assert_eq!(empty.value, text(""));
    assert_ne!(absent.value, empty.value);
    let absent_reason = Promise::reject(None);
    assert_eq!(absent_reason.status, Status::Rejected);
    assert_eq!(absent_reason.value, None);
}

#[test]
fn then_while_pending_queues_a_pair() {
    let mut promise = Promise::new();
    promise.then(append("f"), append("g"));
    assert_eq!(promise.status, Status::Pending);
    assert_eq!(promise.value, None);
    let queue = promise.handlers.as_ref().unwrap();
    assert_eq!(queue.len(), 2);
    assert!(queue[0].resolve);
    assert!(!queue[1].resolve);
    assert_eq!(queue[0].handler.apply(text("x")), text("xf"));
    assert_eq!(queue[1].handler.apply(text("x")), text("xg"));
}

#[test]
fn catch_while_pending_queues_one_rejection_handler() {
    let mut promise = Promise::new();
    promise.catch(append("c"));
    assert_eq!(promise.status, Status::Pending);
    let queue = promise.handlers.as_ref().unwrap();
    assert_eq!(queue.len(), 1);
    assert!(!queue[0].resolve);
    assert_eq!(queue[0].handler.apply(None), text("c"));
}

#[test]
fn registrations_keep_their_order_in_the_queue() {
    let mut promise = Promise::new();
    promise.then(append("1"), append("2")).catch(append("3")).then(append("4"), append("5"));
    let queue = promise.handlers.as_ref().unwrap();
    let flags: Vec<bool> = queue.iter().map(|entry| entry.resolve).collect();
    assert_eq!(flags, vec![true, false, false, true, false]);
    let marks: Vec<Option<String>> = queue.iter().map(|entry| entry.handler.apply(None)).collect();
    assert_eq!(marks, vec![text("1"), text("2"), text("3"), text("4"), text("5")]);
}

#[test]
fn fulfillment_runs_the_fulfillment_handlers_in_order() {
    let mut promise = Promise::new();
    promise.then(append("1"), append("x")).then(append("2"), append("y")).then(append("3"), append("z"));
    promise.settle(Settlement::Resolve(text("a")));
    assert_eq!(promise.status, Status::Fulfilled);
    assert_eq!(promise.value, text("a123"));
    assert!(promise.handlers.is_none());
}

#[test]
fn rejection_runs_the_rejection_handlers_in_order() {
    let mut promise = Promise::new();
    promise.then(append("1"), append("x")).catch(append("y")).then(append("2"), append("z"));
    promise.settle(Settlement::Reject(text("r")));
    assert_eq!(promise.status, Status::Rejected);
    assert_eq!(promise.value, text("rxyz"));
    assert!(promise.handlers.is_none());
}

#[test]
fn second_handler_sees_what_the_first_returned() {
    let seen = Arc::new(std::sync::Mutex::new(Vec::new()));
    let seen_by_second = seen.clone();
    let mut promise = Promise::new();
    promise.then(|_| Some("from first".to_string()), |reason| reason);
    promise.then(
        move |value: Option<String>| {
            seen_by_second.lock().unwrap().push(value.clone());
            value
        },
        |reason| reason,
    );
    promise.settle(Settlement::Resolve(text("start")));
    assert_eq!(*seen.lock().unwrap(), vec![text("from first")]);
    assert_eq!(promise.value, text("from first"));
}

#[test]
fn rejection_never_calls_a_fulfillment_handler() {
    let fulfilled_calls = Arc::new(AtomicUsize::new(0));
    let rejected_calls = Arc::new(AtomicUsize::new(0));
    let mut promise = Promise::new();
    promise.then(counting(&fulfilled_calls, "f"), counting(&rejected_calls, "g"));
    promise.then(counting(&fulfilled_calls, "f"), counting(&rejected_calls, "g"));
    promise.settle(Settlement::Reject(text("r")));
    assert_eq!(fulfilled_calls.load(Ordering::SeqCst), 0);
    assert_eq!(rejected_calls.load(Ordering::SeqCst), 2);
    assert_eq!(promise.value, text("rgg"));
}

#[test]
fn fulfillment_never_calls_a_rejection_handler() {
    let fulfilled_calls = Arc::new(AtomicUsize::new(0));
    let rejected_calls = Arc::new(AtomicUsize::new(0));
    let mut promise = Promise::new();
    promise.then(counting(&fulfilled_calls, "f"), counting(&rejected_calls, "g"));
    promise.catch(counting(&rejected_calls, "c"));
    promise.settle(Settlement::Resolve(None));
    assert_eq!(fulfilled_calls.load(Ordering::SeqCst), 1);
    assert_eq!(rejected_calls.load(Ordering::SeqCst), 0);
    assert_eq!(promise.value, text("f"));
}

#[test]
fn every_queued_handler_runs_exactly_once() {
    let calls = Arc::new(AtomicUsize::new(0));
    let mut promise = Promise::new();
    promise.then(counting(&calls, "a"), |reason| reason);
    promise.then(counting(&calls, "b"), |reason| reason);
    promise.settle(Settlement::Resolve(text("")));
    promise.then(|value| value, |reason| reason);
    assert_eq!(calls.load(Ordering::SeqCst), 2);
    assert_eq!(promise.value, text("ab"));
}

#[test]
fn settlement_without_handlers_stores_the_payload() {
    let mut fulfilled = Promise::new();
    fulfilled.settle(Settlement::Resolve(text("v")));
    assert_eq!(fulfilled.status, Status::Fulfilled);
    assert_eq!(fulfilled.value, text("v"));
    let mut rejected = Promise::new();
    rejected.settle(Settlement::Reject(None));
    assert_eq!(rejected.status, Status::Rejected);
    assert_eq!(rejected.value, None);
}

#[test]
fn then_on_a_fulfilled_promise_applies_at_once() {
    let rejected_calls = Arc::new(AtomicUsize::new(0));
    let mut promise = Promise::resolve(text("v"));
    promise.then(append("!"), counting(&rejected_calls, "?"));
    assert_eq!(promise.status, Status::Fulfilled);
    assert_eq!(promise.value, text("v!"));
    assert!(promise.handlers.is_none());
    assert_eq!(rejected_calls.load(Ordering::SeqCst), 0);
}

#[test]
fn then_on_a_rejected_promise_applies_at_once() {
    let fulfilled_calls = Arc::new(AtomicUsize::new(0));
    let mut promise = Promise::reject(text("r"));
    promise.then(counting(&fulfilled_calls, "!"), append("?"));
    assert_eq!(promise.status, Status::Rejected);
    assert_eq!(promise.value, text("r?"));
    assert!(promise.handlers.is_none());
    assert_eq!(fulfilled_calls.load(Ordering::SeqCst), 0);
}

#[test]
fn then_chains_on_the_same_promise() {
    let mut promise = Promise::resolve(text("v"));
    promise.then(append("1"), append("x")).then(append("2"), append("y")).catch(append("z"));
    assert_eq!(promise.value, text("v12"));
}

#[test]
fn rejection_stays_on_the_rejection_track() {
    let mut promise = Promise::reject(text("r"));
    promise.catch(|_| Some("handled".to_string())).then(append("!"), append("?"));
    assert_eq!(promise.status, Status::Rejected);
    assert_eq!(promise.value, text("handled?"));
}

#[test]
fn registering_early_or_late_gives_the_same_value() {
    let mut early = Promise::new();
    early.then(append("!"), append("?"));
    early.settle(Settlement::Resolve(text("v")));
    let mut late = Promise::new();
    late.settle(Settlement::Resolve(text("v")));
    late.then(append("!"), append("?"));
    assert_eq!(early.status, late.status);
    assert_eq!(early.value, text("v!"));
    assert_eq!(late.value, text("v!"));
}

#[test]
fn registering_early_or_late_gives_the_same_reason() {
    let mut early = Promise::new();
    early.then(append("!"), append("?"));
    early.settle(Settlement::Reject(None));
    let mut late = Promise::new();
    late.settle(Settlement::Reject(None));
    late.then(append("!"), append("?"));
    assert_eq!(early.status, Status::Rejected);
    assert_eq!(late.status, Status::Rejected);
    assert_eq!(early.value, text("?"));
    assert_eq!(late.value, text("?"));
}

#[test]
fn catch_on_a_fulfilled_promise_changes_nothing() {
    let calls = Arc::new(AtomicUsize::new(0));
    let mut promise = Promise::resolve(text("v"));
    promise.catch(counting(&calls, "c"));
    assert_eq!(promise.status, Status::Fulfilled);
    assert_eq!(promise.value, text("v"));
    assert!(promise.handlers.is_none());
    assert_eq!(calls.load(Ordering::SeqCst), 0);
}

#[test]
fn catch_on_a_rejected_promise_applies_at_once() {
    let mut promise = Promise::reject(text("r"));
    promise.catch(append("c"));
    assert_eq!(promise.status, Status::Rejected);
    assert_eq!(promise.value, text("rc"));
}

#[test]
fn queued_catch_is_idle_on_fulfillment() {
    let calls = Arc::new(AtomicUsize::new(0));
    let mut promise = Promise::new();
    promise.catch(counting(&calls, "c"));
    promise.settle(Settlement::Resolve(text("v")));
    assert_eq!(promise.value, text("v"));
    assert_eq!(calls.load(Ordering::SeqCst), 0);
}

#[test]
fn handler_may_return_an_absent_payload() {
    let mut promise = Promise::new();
    promise.then(|_| None, |reason| reason).then(
        |value: Option<String>| Some(format!("{:?}", value)),
        |reason| reason,
    );
    promise.settle(Settlement::Resolve(text("v")));
    assert_eq!(promise.value, text("None"));
    let mut caught = Promise::reject(text("r"));
    caught.catch(|_| None);
    assert_eq!(caught.status, Status::Rejected);
    assert_eq!(caught.value, None);
}

#[test]
fn status_never_changes_once_settled() {
    let mut fulfilled = Promise::resolve(text("v"));
    let first = fulfilled.status;
    fulfilled.then(append("1"), append("2")).catch(append("3")).then(|_| None, |_| None);
    assert_eq!(first, Status::Fulfilled);
    assert_eq!(fulfilled.status, first);
    let mut rejected = Promise::reject(None);
    let first = rejected.status;
    rejected.catch(append("1")).then(append("2"), append("3")).catch(|_| None);
    assert_eq!(first, Status::Rejected);
    assert_eq!(rejected.status, first);
}

#[test]
fn settlement_knows_its_status() {
    let mut promise = Promise::new();
    let outcome = Settlement::Reject(text("r"));
    assert!(matches!(outcome, Settlement::Reject(Some(_))));
    promise.settle(outcome);
    assert_eq!(promise.status, Status::Rejected);
}
