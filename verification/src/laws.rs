//! What holds of the client dispatcher over many events, whatever their order.

use vstd::prelude::*;
use crate::client::{CompletionView, ConnState, DispatcherView};
use crate::codec::{parse_response, ResponseView};
use crate::context::ContextView;
use crate::error::RpcError;

verus! {

/// The dispatcher after it accepted one call for each context, in turn.
pub open spec fn submit_all(s: DispatcherView, contexts: Seq<ContextView>) -> DispatcherView
    decreases contexts.len(),
{
    if contexts.len() == 0 {
        s
    } else {
        submit_all(s, contexts.drop_last()).submit(contexts.last())
    }
}

/// The dispatcher after the responses arrived, in turn.
pub open spec fn deliver_all(s: DispatcherView, responses: Seq<ResponseView>) -> DispatcherView
    decreases responses.len(),
{
    if responses.len() == 0 {
        s
    } else {
        deliver_all(s, responses.drop_last()).deliver(responses.last())
    }
}

/// What each response completed when it arrived.
pub open spec fn deliveries(s: DispatcherView, responses: Seq<ResponseView>) -> Seq<
    Option<CompletionView>,
>
    decreases responses.len(),
{
    if responses.len() == 0 {
        Seq::empty()
    } else {
        deliveries(s, responses.drop_last()).push(
            deliver_all(s, responses.drop_last()).delivery(responses.last()),
        )
    }
}

/// The request ids that a run of responses answers.
pub open spec fn answered(responses: Seq<ResponseView>) -> Set<u64> {
    Set::new(
        |id: u64|
            exists|i: int|
                0 <= i < responses.len() && (#[trigger] responses[i]).request_id == id,
    )
}

/// Every event leaves a well-formed dispatcher well-formed.
pub proof fn lemma_events_preserve_wf(
    s: DispatcherView,
    established: bool,
    ctx: ContextView,
    response: ResponseView,
    request_id: u64,
    now: u64,
)
    requires
        s.wf(),
    ensures
        DispatcherView::initial().wf(),
        s.begin_connect().wf(),
        s.finish_connect(established).wf(),
        s.next_id < u64::MAX ==> s.submit(ctx).wf(),
        s.deliver(response).wf(),
        s.cancel(request_id).wf(),
        s.sweep(now).wf(),
        s.close().wf(),
{
    if s.conn != ConnState::Connected {
        assert(s.deliver(response).pending =~= s.pending);
        assert(s.cancel(request_id).pending =~= s.pending);
        assert(s.sweep(now).pending =~= s.pending);
    }
}

/// A closed dispatcher stays closed: no event opens it again, none enters a
/// call, and `submit` is refused.
pub proof fn lemma_closed_is_final(
    s: DispatcherView,
    established: bool,
    ctx: ContextView,
    response: ResponseView,
    request_id: u64,
    now: u64,
)
    requires
        s.wf(),
        s.conn == ConnState::Closed,
    ensures
        !s.accepts(),
        s.begin_connect() == s,
        s.finish_connect(established) == s,
        s.connect_outcome(established) == Err::<(), RpcError>(RpcError::TransportClosed),
        s.submit(ctx) == s,
        s.deliver(response) == s,
        s.delivery(response) is None,
        s.cancel(request_id) == s,
        s.cancellation(request_id) is None,
        s.sweep(now) == s,
        s.close() == s,
{
    assert(s.deliver(response).pending =~= s.pending);
    assert(s.cancel(request_id).pending =~= s.pending);
    assert(s.sweep(now).pending =~= s.pending);
}

/// Closing the transport fails every pending call with `TransportClosed`,
/// leaves none pending, and the dispatcher accepts no call afterwards.
pub proof fn lemma_close_fails_all_pending(s: DispatcherView, ctx: ContextView)
    requires
        s.wf(),
    ensures
        forall|id: u64|
            s.pending.contains_key(id) <==> #[trigger] s.failed_by_close().contains_key(id),
        forall|id: u64|
            s.pending.contains_key(id) ==> #[trigger] s.failed_by_close()[id]
                == RpcError::TransportClosed,
        s.close().conn == ConnState::Closed,
        s.close().pending == Map::<u64, ContextView>::empty(),
        !s.close().accepts(),
        s.close().submit(ctx) == s.close(),
{
}

/// A frame that carries no response completes no call and changes
/// nothing: the calls that wait keep waiting, and the connection stays as
/// it is.
pub proof fn lemma_malformed_frame_is_dropped(s: DispatcherView, frame: Seq<u8>)
    requires
        parse_response(frame) is None,
    ensures
        s.frame_outcome(frame) == Err::<Option<CompletionView>, RpcError>(
            RpcError::MalformedMessage,
        ),
        s.after_frame(frame) == s,
{
}

/// A response for a call that is not pending completes nothing and changes nothing.
pub proof fn lemma_unclaimed_response_is_discarded(s: DispatcherView, response: ResponseView)
    requires
        !s.pending.contains_key(response.request_id),
    ensures
        s.delivery(response) is None,
        s.deliver(response) == s,
{
    assert(s.deliver(response).pending =~= s.pending);
}

/// A call whose context is no longer active is given up by the next sweep,
/// with the reason that its context gives, and a response that arrives for
/// it afterwards is discarded.
pub proof fn lemma_late_response_is_discarded(s: DispatcherView, now: u64, response: ResponseView)
    requires
        s.pending.contains_key(response.request_id),
        !s.pending[response.request_id].active_at(now),
    ensures
        s.abandoned(now).contains_key(response.request_id),
        s.abandoned(now)[response.request_id] == s.pending[response.request_id].end_reason(),
        !s.sweep(now).pending.contains_key(response.request_id),
        s.sweep(now).delivery(response) is None,
        s.sweep(now).deliver(response) == s.sweep(now),
{
    lemma_unclaimed_response_is_discarded(s.sweep(now), response);
}

/// A response that arrives for a cancelled call is discarded.
pub proof fn lemma_response_after_cancel_is_discarded(s: DispatcherView, response: ResponseView)
    ensures
        s.cancel(response.request_id).delivery(response) is None,
        s.cancel(response.request_id).deliver(response) == s.cancel(response.request_id),
{
    lemma_unclaimed_response_is_discarded(s.cancel(response.request_id), response);
}

/// Calls that are accepted one after another on a connected dispatcher get
/// the ids that follow one another from `next_id`, all wait at once, each
/// under its own id with its own context, and the calls that were pending
/// before are untouched.
pub proof fn lemma_submitted_calls_are_pending(s: DispatcherView, contexts: Seq<ContextView>)
    requires
        s.wf(),
        s.conn == ConnState::Connected,
        s.next_id + contexts.len() <= u64::MAX,
    ensures
        submit_all(s, contexts).wf(),
        submit_all(s, contexts).conn == ConnState::Connected,
        submit_all(s, contexts).next_id == s.next_id + contexts.len(),
        forall|i: int|
            0 <= i < contexts.len() ==> submit_all(s, contexts).pending.contains_key(
                #[trigger] ((s.next_id + i) as u64),
            ) && submit_all(s, contexts).pending[(s.next_id + i) as u64] == contexts[i].for_request(
                (s.next_id + i) as u64,
            ),
        forall|id: u64|
            id < s.next_id ==> (#[trigger] submit_all(s, contexts).pending.contains_key(id)
                <==> s.pending.contains_key(id)),
        forall|id: u64|
            s.pending.contains_key(id) ==> #[trigger] submit_all(s, contexts).pending[id]
                == s.pending[id],
    decreases contexts.len(),
{
    if contexts.len() > 0 {
        let before = contexts.drop_last();
        lemma_submitted_calls_are_pending(s, before);
        let t = submit_all(s, before);
        let u = submit_all(s, contexts);
        assert(u == t.submit(contexts.last()));
        assert forall|i: int| 0 <= i < contexts.len() implies u.pending.contains_key(
            #[trigger] ((s.next_id + i) as u64),
        ) && u.pending[(s.next_id + i) as u64] == contexts[i].for_request(
            (s.next_id + i) as u64,
        ) by {
            if i < before.len() {
                assert(t.pending.contains_key((s.next_id + i) as u64));
                assert(before[i] == contexts[i]);
            }
        }
    }
}

/// However the responses to pending calls are ordered, each completes the
/// call of its own request id with its own payload and no other call, the
/// calls it does not name keep waiting, and a call that was answered waits
/// no longer.
pub proof fn lemma_each_call_gets_its_own_response(s: DispatcherView, responses: Seq<ResponseView>)
    requires
        forall|i: int|
            0 <= i < responses.len() ==> s.pending.contains_key(
                (#[trigger] responses[i]).request_id,
            ),
        forall|i: int, j: int|
            0 <= i < j < responses.len() ==> (#[trigger] responses[i]).request_id != (
            #[trigger] responses[j]).request_id,
    ensures
        deliveries(s, responses).len() == responses.len(),
        forall|i: int|
            0 <= i < responses.len() ==> #[trigger] deliveries(s, responses)[i] == Some(
                CompletionView {
                    request_id: responses[i].request_id,
                    outcome: Ok(responses[i].payload),
                },
            ),
        deliver_all(s, responses).pending == s.pending.remove_keys(answered(responses)),
        deliver_all(s, responses).conn == s.conn,
        deliver_all(s, responses).next_id == s.next_id,
    decreases responses.len(),
{
    if responses.len() == 0 {
        assert(s.pending.remove_keys(answered(responses)) =~= s.pending);
    } else {
        let before = responses.drop_last();
        let last = responses.last();
        lemma_each_call_gets_its_own_response(s, before);
        let t = deliver_all(s, before);
        assert(!answered(before).contains(last.request_id)) by {
            if answered(before).contains(last.request_id) {
                let i = choose|i: int|
                    0 <= i < before.len() && (#[trigger] before[i]).request_id == last.request_id;
                assert(responses[i].request_id == responses[responses.len() - 1].request_id);
            }
        }
        assert(t.pending.contains_key(last.request_id));
        assert forall|id: u64| answered(responses).contains(id) <==> (answered(before).contains(
            id,
        ) || id == last.request_id) by {
            if answered(before).contains(id) {
                let i = choose|i: int|
                    0 <= i < before.len() && (#[trigger] before[i]).request_id == id;
                assert(responses[i].request_id == id);
            }
            if id == last.request_id {
                assert(responses[responses.len() - 1].request_id == id);
            }
            if answered(responses).contains(id) && id != last.request_id {
                let i = choose|i: int|
                    0 <= i < responses.len() && (#[trigger] responses[i]).request_id == id;
                assert(before[i].request_id == id);
            }
        }
        assert(t.deliver(last).pending =~= s.pending.remove_keys(answered(responses)));
        assert forall|i: int| 0 <= i < responses.len() implies #[trigger] deliveries(
            s,
            responses,
        )[i] == Some(
            CompletionView {
                request_id: responses[i].request_id,
                outcome: Ok(responses[i].payload),
            },
        ) by {
            if i < before.len() {
                assert(deliveries(s, before)[i] == deliveries(s, responses)[i]);
                assert(before[i] == responses[i]);
            }
        }
    }
}

/// Calls that are in flight together, answered in any order. When a
/// connected dispatcher has accepted one call for each context and the
/// responses answer some of these calls, each at most once, then every
/// response completes the call of its own id with its own payload, the
/// calls that were answered wait no longer, and the others still wait.
pub proof fn lemma_concurrent_calls_complete(
    s: DispatcherView,
    contexts: Seq<ContextView>,
    responses: Seq<ResponseView>,
)
    requires
        s.wf(),
        s.conn == ConnState::Connected,
        s.next_id + contexts.len() <= u64::MAX,
        forall|i: int|
            0 <= i < responses.len() ==> s.next_id <= (#[trigger] responses[i]).request_id
                < s.next_id + contexts.len(),
        forall|i: int, j: int|
            0 <= i < j < responses.len() ==> (#[trigger] responses[i]).request_id != (
            #[trigger] responses[j]).request_id,
    ensures
        deliveries(submit_all(s, contexts), responses).len() == responses.len(),
        forall|i: int|
            0 <= i < responses.len() ==> #[trigger] deliveries(
                submit_all(s, contexts),
                responses,
            )[i] == Some(
                CompletionView {
                    request_id: responses[i].request_id,
                    outcome: Ok(responses[i].payload),
                },
            ),
        forall|k: int|
            0 <= k < contexts.len() ==> (deliver_all(
                submit_all(s, contexts),
                responses,
            ).pending.contains_key(#[trigger] ((s.next_id + k) as u64)) <==> !answered(
                responses,
            ).contains((s.next_id + k) as u64)),
{
    let t = submit_all(s, contexts);
    lemma_submitted_calls_are_pending(s, contexts);
    assert forall|i: int| 0 <= i < responses.len() implies t.pending.contains_key(
        (#[trigger] responses[i]).request_id,
    ) by {
        let k = responses[i].request_id - s.next_id;
        assert(t.pending.contains_key((s.next_id + k) as u64));
    }
    lemma_each_call_gets_its_own_response(t, responses);
    assert forall|k: int| 0 <= k < contexts.len() implies (deliver_all(
        t,
        responses,
    ).pending.contains_key(#[trigger] ((s.next_id + k) as u64)) <==> !answered(
        responses,
    ).contains((s.next_id + k) as u64)) by {
        assert(t.pending.contains_key((s.next_id + k) as u64));
    }
}

} // verus!
