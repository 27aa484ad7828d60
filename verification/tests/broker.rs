use harnel::broker::{Broker, Correlator, Ticket, MAX_PEER_REPLIES, MAX_PENDING};
use harnel::Error;

#[test]
fn ids_start_at_one_and_increase() {
    let mut b = Broker::new("harness");
    let a = b.submit(false, None, None).unwrap();
    let c = b.submit(false, None, None).unwrap();
    assert_eq!(a.id, 1);
    assert_eq!(c.id, 2);
    assert_eq!(b.outstanding(), 2);
}

#[test]
fn closed_broker_refuses_everything() {
    let mut b = Broker::new("harness");
    b.submit(false, None, None).unwrap();
    b.shut();
    assert_eq!(b.outstanding(), 0);
    assert!(b.closed());
    assert!(matches!(b.submit(false, None, None), Err(Error::Closed)));
    assert!(matches!(b.submit(true, Some("s"), None), Err(Error::Closed)));
}

#[test]
fn one_root_turn_at_a_time() {
    let mut b = Broker::new("harness");
    let turn = b.submit(true, Some("session-1"), None).unwrap();
    assert!(turn.turn);
    assert_eq!(b.turn(), turn.id);
    assert!(matches!(b.submit(true, Some("session-2"), None), Err(Error::Busy)));
    // The refused prompt used up an id but left nothing outstanding.
    assert_eq!(b.outstanding(), 1);
    assert_eq!(b.peek_next_id(), 3);
    let other = b.submit(false, None, None).unwrap();
    assert_eq!(other.id, 3);
}

#[test]
fn abandoned_turn_is_cancelled_and_answered_one_is_not() {
    let mut b = Broker::new("harness");
    let turn = b.submit(true, Some("s-9"), None).unwrap();
    assert_eq!(b.release(turn, false), Some("s-9".to_string()));
    assert!(!b.has_active_turn());
    assert_eq!(b.turn(), 0);
    let again = b.submit(true, None, None).unwrap();
    assert!(b.deliver(again.id));
    assert_eq!(b.release(again, true), None);
    assert!(!b.has_active_turn());
}

#[test]
fn releasing_a_stale_ticket_keeps_the_current_turn() {
    let mut b = Broker::new("harness");
    let turn = b.submit(true, Some("s"), None).unwrap();
    let stale = Ticket { id: turn.id + 100, turn: true };
    assert_eq!(b.release(stale, false), None);
    assert!(b.has_active_turn());
}

#[test]
fn pending_requests_are_bounded() {
    let mut b = Broker::new("harness");
    for _ in 0..MAX_PENDING {
        b.submit(false, None, None).unwrap();
    }
    assert!(matches!(b.submit(false, None, None), Err(Error::Busy)));
    assert!(b.deliver(1));
    assert!(!b.deliver(1));
    assert!(b.submit(false, None, None).is_ok());
}

#[test]
fn replies_reach_only_outstanding_requests() {
    let mut c = Correlator::new(MAX_PEER_REPLIES);
    let id = c.open().unwrap();
    assert!(!c.settle(id + 1));
    assert!(c.settle(id));
    assert!(!c.settle(id));
    for _ in 0..MAX_PEER_REPLIES {
        c.open().unwrap();
    }
    assert!(matches!(c.open(), Err(Error::Busy)));
    c.clear();
    assert_eq!(c.len(), 0);
}

#[test]
fn event_sequence_numbers_increase() {
    let mut b = Broker::new("harness");
    assert_eq!(b.next_sequence(), 1);
    assert_eq!(b.next_sequence(), 2);
    assert_eq!(b.next_sequence(), 3);
}

#[test]
fn host_requests_go_to_the_turn_originator() {
    let mut b = Broker::new("harness");
    assert_eq!(*b.callback_handler(), "harness");
    let turn = b.submit(true, Some("s"), Some("peer-1")).unwrap();
    assert_eq!(*b.callback_handler(), "peer-1");
    assert!(b.submit(true, Some("s"), Some("peer-2")).is_err());
    assert_eq!(*b.callback_handler(), "peer-1");
    b.release(turn, true);
    assert_eq!(*b.callback_handler(), "harness");
    let turn = b.submit(true, None, None).unwrap();
    assert_eq!(*b.callback_handler(), "harness");
    b.release(turn, true);
}
