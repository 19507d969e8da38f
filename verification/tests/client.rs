use rpc::client::{ClientDispatcher, Completion, ConnState};
use rpc::codec::{decode_request, encode_response, ResponseEnvelope};
use rpc::context::Context;
use rpc::error::RpcError;

fn connected() -> ClientDispatcher {
    let mut d = ClientDispatcher::new();
    assert!(d.begin_connect());
    assert_eq!(d.finish_connect(true), Ok(()));
    d
}

fn response(request_id: u64, payload: &[u8]) -> ResponseEnvelope {
    ResponseEnvelope { request_id, payload: payload.to_vec() }
}

#[test]
fn a_new_dispatcher_is_disconnected() {
    let d = ClientDispatcher::new();
    assert_eq!(d.state(), ConnState::Disconnected);
    assert_eq!(d.next_request_id(), 0);
    assert!(!d.is_pending(0));
}

#[test]
fn the_connection_goes_through_its_states() {
    let mut d = ClientDispatcher::new();
    assert!(d.begin_connect());
    assert_eq!(d.state(), ConnState::Connecting);
    assert_eq!(d.finish_connect(true), Ok(()));
    assert_eq!(d.state(), ConnState::Connected);
    assert!(d.close().is_empty());
    assert_eq!(d.state(), ConnState::Closed);
}

#[test]
fn a_failed_connection_attempt_reports_connect_error_and_closes() {
    let mut d = ClientDispatcher::new();
    assert!(d.begin_connect());
    assert_eq!(d.finish_connect(false), Err(RpcError::ConnectError));
    assert_eq!(d.state(), ConnState::Closed);
    assert!(!d.begin_connect());
    assert_eq!(d.state(), ConnState::Closed);
}

#[test]
fn a_connection_attempt_starts_only_once() {
    let mut d = ClientDispatcher::new();
    assert!(d.begin_connect());
    assert!(!d.begin_connect());
    assert_eq!(d.state(), ConnState::Connecting);
    assert_eq!(d.finish_connect(true), Ok(()));
    assert!(!d.begin_connect());
    assert_eq!(d.state(), ConnState::Connected);
}

#[test]
fn the_end_of_an_attempt_that_never_began_changes_nothing() {
    let mut d = ClientDispatcher::new();
    assert_eq!(d.finish_connect(true), Err(RpcError::ConnectError));
    assert_eq!(d.state(), ConnState::Disconnected);
    let mut d = connected();
    assert_eq!(d.finish_connect(false), Ok(()));
    assert_eq!(d.state(), ConnState::Connected);
    d.close();
    assert_eq!(d.finish_connect(true), Err(RpcError::TransportClosed));
    assert_eq!(d.state(), ConnState::Closed);
}

#[test]
fn submit_is_refused_before_the_connection_stands() {
    let mut d = ClientDispatcher::new();
    assert_eq!(d.submit("ping", vec![], Context::new(None)), Err(RpcError::TransportClosed));
    d.begin_connect();
    assert_eq!(d.submit("ping", vec![], Context::new(None)), Err(RpcError::TransportClosed));
    assert_eq!(d.next_request_id(), 0);
    assert!(!d.is_pending(0));
}

#[test]
fn submit_gives_the_next_id_and_the_frame_to_send() {
    let mut d = connected();
    let first = d.submit("echo", b"a".to_vec(), Context::new(Some(1000))).unwrap();
    let second = d.submit("delay", vec![2, 0, 0, 0, 0, 0, 0, 0], Context::new(None)).unwrap();
    assert_eq!(first.request_id, 0);
    assert_eq!(second.request_id, 1);
    assert_eq!(d.next_request_id(), 2);
    assert!(d.is_pending(0));
    assert!(d.is_pending(1));
    assert!(!d.is_pending(2));
    let request = decode_request(&first.frame).unwrap();
    assert_eq!(request.request_id, 0);
    assert_eq!(request.operation, "echo");
    assert_eq!(request.deadline, Some(1000));
    assert_eq!(request.payload, b"a".to_vec());
    let request = decode_request(&second.frame).unwrap();
    assert_eq!(request.request_id, 1);
    assert_eq!(request.operation, "delay");
    assert_eq!(request.deadline, None);
}

#[test]
fn each_call_gets_the_response_with_its_own_id() {
    let mut d = connected();
    let n: u64 = 20;
    for i in 0..n {
        let submitted = d.submit("echo", vec![i as u8], Context::new(None)).unwrap();
        assert_eq!(submitted.request_id, i);
    }
    let order = [7u64, 19, 0, 3, 12, 1, 18, 5, 4, 11, 2, 17, 6, 13, 9, 16, 8, 15, 10, 14];
    for id in order {
        let done = d.on_response(response(id, &[id as u8, 0xee])).unwrap();
        assert_eq!(done, Completion { request_id: id, outcome: Ok(vec![id as u8, 0xee]) });
        assert!(!d.is_pending(id));
    }
    for id in 0..n {
        assert!(!d.is_pending(id));
    }
    assert_eq!(d.state(), ConnState::Connected);
}

#[test]
fn two_concurrent_echoes_are_never_swapped() {
    let mut d = connected();
    let a = d.submit("echo", b"a".to_vec(), Context::new(None)).unwrap();
    let b = d.submit("echo", b"b".to_vec(), Context::new(None)).unwrap();
    let for_b = d.on_response(response(b.request_id, b"b")).unwrap();
    let for_a = d.on_response(response(a.request_id, b"a")).unwrap();
    assert_eq!(for_a, Completion { request_id: a.request_id, outcome: Ok(b"a".to_vec()) });
    assert_eq!(for_b, Completion { request_id: b.request_id, outcome: Ok(b"b".to_vec()) });
}

#[test]
fn a_response_completes_its_call_once() {
    let mut d = connected();
    let call = d.submit("ping", vec![], Context::new(None)).unwrap();
    assert!(d.on_response(response(call.request_id, &[1])).is_some());
    assert_eq!(d.on_response(response(call.request_id, &[1])), None);
    assert_eq!(d.on_response(response(call.request_id, &[2])), None);
}

#[test]
fn a_response_for_an_unknown_id_is_discarded() {
    let mut d = connected();
    d.submit("ping", vec![], Context::new(None)).unwrap();
    assert_eq!(d.on_response(response(5, &[])), None);
    assert_eq!(d.on_response(response(u64::MAX, &[])), None);
    assert!(d.is_pending(0));
    assert_eq!(d.state(), ConnState::Connected);
}

#[test]
fn frames_are_routed_like_responses() {
    let mut d = connected();
    let call = d.submit("ping", vec![], Context::new(None)).unwrap();
    let frame = encode_response(&response(call.request_id, &[0, b'P']));
    assert_eq!(
        d.on_frame(&frame),
        Ok(Some(Completion { request_id: call.request_id, outcome: Ok(vec![0, b'P']) }))
    );
    assert_eq!(d.on_frame(&frame), Ok(None));
}

#[test]
fn a_malformed_frame_is_dropped_and_the_calls_keep_waiting() {
    let mut d = connected();
    let call = d.submit("ping", vec![], Context::new(None)).unwrap();
    assert_eq!(d.on_frame(&[]), Err(RpcError::MalformedMessage));
    assert_eq!(d.on_frame(&[0, 0, 0]), Err(RpcError::MalformedMessage));
    assert_eq!(d.on_frame(&[0; 7]), Err(RpcError::MalformedMessage));
    assert!(d.is_pending(call.request_id));
    assert_eq!(d.state(), ConnState::Connected);
    assert_eq!(
        d.on_frame(&[0; 8]),
        Ok(Some(Completion { request_id: call.request_id, outcome: Ok(vec![]) }))
    );
}

#[test]
fn a_call_past_its_deadline_ends_with_deadline_exceeded() {
    let mut d = connected();
    let call = d.submit("delay", vec![2, 0, 0, 0, 0, 0, 0, 0], Context::new(Some(1000))).unwrap();
    assert!(d.sweep(0).is_empty());
    assert!(d.sweep(999).is_empty());
    assert!(d.is_pending(call.request_id));
    let done = d.sweep(1000);
    assert_eq!(
        done,
        vec![Completion { request_id: call.request_id, outcome: Err(RpcError::DeadlineExceeded) }]
    );
    assert!(!d.is_pending(call.request_id));
    assert!(d.sweep(2000).is_empty());
}

#[test]
fn a_late_response_is_silently_ignored() {
    let mut d = connected();
    let slow = d.submit("delay", vec![2, 0, 0, 0, 0, 0, 0, 0], Context::new(Some(1000))).unwrap();
    let other = d.submit("ping", vec![], Context::new(None)).unwrap();
    assert_eq!(d.sweep(1500).len(), 1);
    let late = encode_response(&response(slow.request_id, b"\0Delayed for 2 seconds"));
    assert_eq!(d.on_frame(&late), Ok(None));
    assert_eq!(d.state(), ConnState::Connected);
    assert!(d.is_pending(other.request_id));
    assert!(d.on_response(response(other.request_id, &[0])).is_some());
    assert!(d.submit("ping", vec![], Context::new(None)).is_ok());
}

#[test]
fn a_sweep_takes_the_expired_and_leaves_the_rest() {
    let mut d = connected();
    d.submit("a", vec![], Context::new(Some(30))).unwrap();
    d.submit("b", vec![], Context::new(None)).unwrap();
    d.submit("c", vec![], Context::new(Some(10))).unwrap();
    d.submit("d", vec![], Context::new(Some(20))).unwrap();
    d.submit("e", vec![], Context::new(Some(21))).unwrap();
    let done = d.sweep(20);
    assert_eq!(
        done,
        vec![
            Completion { request_id: 2, outcome: Err(RpcError::DeadlineExceeded) },
            Completion { request_id: 3, outcome: Err(RpcError::DeadlineExceeded) },
        ]
    );
    assert!(d.is_pending(0));
    assert!(d.is_pending(1));
    assert!(!d.is_pending(2));
    assert!(!d.is_pending(3));
    assert!(d.is_pending(4));
    let done = d.sweep(u64::MAX);
    assert_eq!(
        done,
        vec![
            Completion { request_id: 0, outcome: Err(RpcError::DeadlineExceeded) },
            Completion { request_id: 4, outcome: Err(RpcError::DeadlineExceeded) },
        ]
    );
    assert!(d.is_pending(1));
}

#[test]
fn a_call_with_a_cancelled_context_is_swept_as_cancelled() {
    let mut d = connected();
    let mut ctx = Context::new(Some(5));
    ctx.cancel();
    let call = d.submit("ping", vec![], ctx).unwrap();
    assert_eq!(
        d.sweep(100),
        vec![Completion { request_id: call.request_id, outcome: Err(RpcError::Cancelled) }]
    );
}

#[test]
fn cancel_ends_a_pending_call_once() {
    let mut d = connected();
    let call = d.submit("delay", vec![9, 0, 0, 0, 0, 0, 0, 0], Context::new(None)).unwrap();
    let other = d.submit("ping", vec![], Context::new(None)).unwrap();
    assert_eq!(
        d.cancel(call.request_id),
        Some(Completion { request_id: call.request_id, outcome: Err(RpcError::Cancelled) })
    );
    assert_eq!(d.cancel(call.request_id), None);
    assert_eq!(d.on_response(response(call.request_id, &[0])), None);
    assert!(d.is_pending(other.request_id));
    assert_eq!(d.cancel(77), None);
}

#[test]
fn closing_fails_every_pending_call_with_transport_closed() {
    let mut d = connected();
    for _ in 0..5 {
        d.submit("ping", vec![], Context::new(Some(10))).unwrap();
    }
    d.on_response(response(1, &[])).unwrap();
    d.cancel(3).unwrap();
    let done = d.close();
    assert_eq!(
        done,
        vec![
            Completion { request_id: 0, outcome: Err(RpcError::TransportClosed) },
            Completion { request_id: 2, outcome: Err(RpcError::TransportClosed) },
            Completion { request_id: 4, outcome: Err(RpcError::TransportClosed) },
        ]
    );
    assert_eq!(d.state(), ConnState::Closed);
    for id in 0..5 {
        assert!(!d.is_pending(id));
    }
}

#[test]
fn a_closed_dispatcher_rejects_new_calls() {
    let mut d = connected();
    d.submit("ping", vec![], Context::new(None)).unwrap();
    d.close();
    assert_eq!(d.submit("ping", vec![], Context::new(None)), Err(RpcError::TransportClosed));
    assert_eq!(d.submit("echo", vec![1], Context::new(Some(1))), Err(RpcError::TransportClosed));
    assert_eq!(d.next_request_id(), 1);
    assert!(!d.is_pending(1));
}

#[test]
fn a_closed_dispatcher_stays_closed() {
    let mut d = connected();
    d.submit("ping", vec![], Context::new(None)).unwrap();
    assert_eq!(d.close().len(), 1);
    assert!(d.close().is_empty());
    assert!(!d.begin_connect());
    assert_eq!(d.finish_connect(true), Err(RpcError::TransportClosed));
    assert_eq!(d.on_response(response(0, &[])), None);
    assert_eq!(d.cancel(0), None);
    assert!(d.sweep(u64::MAX).is_empty());
    assert_eq!(d.state(), ConnState::Closed);
}

#[test]
fn ids_are_not_given_out_again() {
    let mut d = connected();
    let first = d.submit("ping", vec![], Context::new(None)).unwrap();
    d.on_response(response(first.request_id, &[])).unwrap();
    let second = d.submit("ping", vec![], Context::new(None)).unwrap();
    assert_eq!(second.request_id, first.request_id + 1);
    d.cancel(second.request_id).unwrap();
    let third = d.submit("ping", vec![], Context::new(Some(0))).unwrap();
    assert_eq!(third.request_id, 2);
    d.sweep(0);
    let fourth = d.submit("ping", vec![], Context::new(None)).unwrap();
    assert_eq!(fourth.request_id, 3);
}
