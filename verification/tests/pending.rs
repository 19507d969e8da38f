use rpc::client::ClientDispatcher;
use rpc::context::Context;
use rpc::pending::{PendingCall, PendingTable};

fn call(request_id: u64, deadline: Option<u64>) -> PendingCall {
    PendingCall { request_id, context: Context::new(deadline).for_request(request_id) }
}

fn table_of(calls: &[PendingCall]) -> PendingTable {
    let mut table = PendingTable::new();
    for call in calls {
        table.insert(*call);
    }
    table
}

#[test]
fn a_new_table_is_empty() {
    let mut table = PendingTable::new();
    assert_eq!(table.get(0), None);
    assert_eq!(table.remove(0), None);
    assert!(table.remove_inactive(u64::MAX).is_empty());
    assert!(table.take_all().is_empty());
}

#[test]
fn a_call_is_found_under_its_id() {
    let table = table_of(&[call(3, None), call(5, Some(9)), call(6, None)]);
    assert_eq!(table.get(3), Some(call(3, None)));
    assert_eq!(table.get(5), Some(call(5, Some(9))));
    assert_eq!(table.get(6), Some(call(6, None)));
    assert_eq!(table.get(0), None);
    assert_eq!(table.get(4), None);
    assert_eq!(table.get(7), None);
}

#[test]
fn removing_takes_one_call_and_leaves_the_others() {
    let mut table = table_of(&[call(1, None), call(2, Some(4)), call(3, None)]);
    assert_eq!(table.remove(2), Some(call(2, Some(4))));
    assert_eq!(table.remove(2), None);
    assert_eq!(table.get(1), Some(call(1, None)));
    assert_eq!(table.get(3), Some(call(3, None)));
    assert_eq!(table.remove(1), Some(call(1, None)));
    assert_eq!(table.remove(3), Some(call(3, None)));
    assert!(table.take_all().is_empty());
}

#[test]
fn inactive_calls_leave_in_ascending_order() {
    let mut cancelled = call(4, None);
    cancelled.context.cancel();
    let mut table = table_of(&[
        call(0, Some(50)),
        call(1, None),
        call(2, Some(10)),
        call(3, Some(11)),
        cancelled,
        call(9, Some(0)),
    ]);
    let gone = table.remove_inactive(10);
    assert_eq!(gone, vec![call(2, Some(10)), cancelled, call(9, Some(0))]);
    assert_eq!(table.get(0), Some(call(0, Some(50))));
    assert_eq!(table.get(1), Some(call(1, None)));
    assert_eq!(table.get(2), None);
    assert_eq!(table.get(3), Some(call(3, Some(11))));
    assert_eq!(table.get(4), None);
    assert_eq!(table.get(9), None);
    assert!(table.remove_inactive(10).is_empty());
    assert_eq!(table.remove_inactive(11), vec![call(3, Some(11))]);
}

#[test]
fn take_all_empties_the_table_in_ascending_order() {
    let calls = [call(2, None), call(7, Some(1)), call(8, None), call(u64::MAX, None)];
    let mut table = table_of(&calls);
    assert_eq!(table.take_all(), calls.to_vec());
    assert_eq!(table.get(2), None);
    assert!(table.take_all().is_empty());
    table.insert(call(0, None));
    assert_eq!(table.get(0), Some(call(0, None)));
}

#[test]
fn the_dispatcher_shows_the_call_that_waits() {
    let mut d = ClientDispatcher::new();
    d.begin_connect();
    d.finish_connect(true).unwrap();
    d.submit("ping", vec![], Context::new(Some(12))).unwrap();
    let mut cancelled = Context::new(None);
    cancelled.cancel();
    d.submit("ping", vec![], cancelled).unwrap();
    assert_eq!(d.pending_call(0), Some(call(0, Some(12))));
    assert_eq!(d.pending_call(1), Some(PendingCall { request_id: 1, context: cancelled.for_request(1) }));
    assert_eq!(d.pending_call(2), None);
}

#[test]
fn every_call_of_a_large_table_is_found_and_no_other() {
    let mut table = PendingTable::new();
    for k in 0..200u64 {
        table.insert(call(3 * k + 1, Some(k)));
    }
    for id in 0..=600u64 {
        let expected = if id % 3 == 1 { Some(call(id, Some(id / 3))) } else { None };
        assert_eq!(table.get(id), expected, "for id {}", id);
    }
    assert_eq!(table.get(u64::MAX), None);
    for k in (0..200u64).rev().step_by(2) {
        assert_eq!(table.remove(3 * k + 1), Some(call(3 * k + 1, Some(k))));
    }
    for k in 0..200u64 {
        let expected = if k % 2 == 0 { Some(call(3 * k + 1, Some(k))) } else { None };
        assert_eq!(table.get(3 * k + 1), expected);
    }
    assert_eq!(table.take_all().len(), 100);
}
