use amdu::bridge::{complete_query, complete_unsub, OneShotSlot, QueryError, RemoteError};
use amdu::presets::Mod;

fn mk(id: u64) -> Mod {
    Mod {
        tags: vec![],
        url: String::new(),
        id,
        name: format!("mod{}", id),
        local_filesize: 0,
    }
}

#[test]
fn slot_delivers_exactly_once() {
    let mut slot: OneShotSlot<u32> = OneShotSlot::new();
    assert_eq!(slot.take(), None);
    assert!(slot.deliver(42));
    // A second delivery is dropped silently.
    assert!(!slot.deliver(43));
    assert_eq!(slot.take(), Some(42));
    // The value crosses at most once.
    assert_eq!(slot.take(), None);
    assert!(!slot.deliver(44));
    assert_eq!(slot.take(), None);
}

#[test]
fn delivery_after_abandon_is_dropped() {
    // The requester is gone before the callback fires: the late response
    // neither panics nor resurrects the request.
    let mut slot: OneShotSlot<String> = OneShotSlot::new();
    slot.abandon();
    assert!(!slot.deliver("late response".to_string()));
    assert_eq!(slot.take(), None);
}

#[test]
fn abandon_discards_a_waiting_delivery() {
    let mut slot: OneShotSlot<u32> = OneShotSlot::new();
    assert!(slot.deliver(7));
    slot.abandon();
    assert_eq!(slot.take(), None);
}

#[test]
fn rejected_submission_resolves_immediately() {
    let r = complete_query(false, None);
    assert_eq!(r.unwrap_err(), QueryError::SubmissionRejected);
}

#[test]
fn shutdown_before_response_is_a_cancellation() {
    let r = complete_query(true, None);
    assert_eq!(r.unwrap_err(), QueryError::Cancelled);
}

#[test]
fn delivered_failure_is_a_remote_error() {
    let r = complete_query(true, Some(None));
    assert_eq!(r.unwrap_err(), QueryError::Remote);
}

#[test]
fn delivered_answer_is_the_answer() {
    let items = vec![mk(1), mk(2)];
    let r = complete_query(true, Some(Some(items))).unwrap();
    let ids: Vec<u64> = r.iter().map(|m| m.id).collect();
    assert_eq!(ids, vec![1, 2]);
}

#[test]
fn unsub_outcomes_map_exactly() {
    assert!(complete_unsub(Some(true)).is_ok());
    assert_eq!(complete_unsub(Some(false)).unwrap_err(), RemoteError::Failed);
    assert_eq!(complete_unsub(None).unwrap_err(), RemoteError::Cancelled);
}
