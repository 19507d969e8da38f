//! The client stub: the typed face of the service, one method per operation.
//!
//! A call is made in two steps, since the stub never waits: the method
//! submits the call and returns the frame to send; when the dispatcher
//! completes the call, `WorldClient::finish` turns the completion into the
//! operation's result. What the remote handler returned comes out as it was
//! given, a refusal included; a failure of the framework comes out as an
//! `RpcError`, never as a refusal.

use vstd::prelude::*;
use vstd::utf8::is_ascii_chars_encode_utf8;
use crate::client::{ClientDispatcher, CompletionView, DispatcherView, Submitted};
use crate::codec::{
    args_bytes,
    decode_reply,
    encode_args,
    lemma_args_roundtrip,
    lemma_reply_roundtrip,
    lemma_request_roundtrip,
    lemma_response_roundtrip,
    parse_reply,
    parse_response,
    reply_bytes,
    request_bytes,
    Reply,
    ReplyView,
    RequestView,
    ResponseView,
};
use crate::context::{Context, ContextView};
use crate::error::{call_result_view, RpcError};
use crate::server::{reply_frame, ServerActionView, ServerState, ServerView};
use crate::service::{lemma_operation_found_by_name, Call, CallView, Operation};
use crate::text::text_bytes;

verus! {

/// The frame that carries a call under a request id and a deadline.
pub open spec fn call_frame(request_id: u64, deadline: Option<u64>, call: CallView) -> Seq<u8> {
    request_bytes(
        RequestView {
            request_id,
            operation: call.operation().name_spec(),
            deadline,
            payload: args_bytes(call),
        },
    )
}

/// What a caller gets for the way its call ended: the handler's result if a
/// well-formed reply carried one, `UnknownOperation` if the reply said so,
/// `MalformedMessage` if the payload is no reply, and otherwise the error
/// that ended the call.
pub open spec fn call_outcome(outcome: Result<Seq<u8>, RpcError>) -> Result<
    Result<Seq<char>, Seq<char>>,
    RpcError,
> {
    match outcome {
        Ok(payload) => match parse_reply(payload) {
            Some(reply) => reply.call_result(),
            None => Err(RpcError::MalformedMessage),
        },
        Err(e) => Err(e),
    }
}

/// What submitting a call gives: while the dispatcher accepts calls, the
/// id that was next and the frame that carries the call under it; else
/// `TransportClosed`.
pub open spec fn submission(
    dispatcher: DispatcherView,
    ctx: ContextView,
    call: CallView,
    r: Result<Submitted, RpcError>,
) -> bool {
    match r {
        Ok(submitted) => {
            &&& dispatcher.accepts()
            &&& submitted.request_id == dispatcher.next_id
            &&& submitted.frame@ == call_frame(dispatcher.next_id, ctx.deadline, call)
        },
        Err(e) => !dispatcher.accepts() && e == RpcError::TransportClosed,
    }
}

pub open spec fn outcome_view(outcome: Result<Vec<u8>, RpcError>) -> Result<Seq<u8>, RpcError> {
    match outcome {
        Ok(payload) => Ok(payload@),
        Err(e) => Err(e),
    }
}

/// The names of the operations are short.
proof fn lemma_operation_name_fits(op: Operation)
    ensures
        text_bytes(op.name_spec()).len() <= 5,
{
    reveal_strlit("ping");
    reveal_strlit("echo");
    reveal_strlit("delay");
    is_ascii_chars_encode_utf8(op.name_spec());
}

/// A call that the stub framed reaches the handler as it was made: a
/// serving dispatcher that has no request of that id in flight invokes the
/// same call, under the same id and with the same deadline.
pub proof fn lemma_call_reaches_handler(
    s: ServerView,
    request_id: u64,
    deadline: Option<u64>,
    call: CallView,
)
    requires
        s.state == ServerState::Serving,
        !s.in_flight.contains(request_id),
    ensures
        s.action_for(call_frame(request_id, deadline, call)) == (ServerActionView::Invoke {
            request_id,
            context: ContextView { request_id, deadline, cancelled: false },
            call,
        }),
{
    lemma_operation_name_fits(call.operation());
    lemma_request_roundtrip(
        RequestView {
            request_id,
            operation: call.operation().name_spec(),
            deadline,
            payload: args_bytes(call),
        },
    );
    lemma_operation_found_by_name(call.operation());
    lemma_args_roundtrip(call);
}

/// What the handler returned is what the caller gets: the frame that
/// carries a handler's result back is a response under the request's id,
/// and its payload comes out as that very result, value or refusal.
pub proof fn lemma_result_reaches_caller(request_id: u64, result: Result<Seq<char>, Seq<char>>)
    ensures
        parse_response(reply_frame(request_id, ReplyView::of_handler(result))) == Some(
            ResponseView { request_id, payload: reply_bytes(ReplyView::of_handler(result)) },
        ),
        call_outcome(Ok(reply_bytes(ReplyView::of_handler(result)))) == Ok::<
            Result<Seq<char>, Seq<char>>,
            RpcError,
        >(result),
{
    let reply = ReplyView::of_handler(result);
    lemma_response_roundtrip(ResponseView { request_id, payload: reply_bytes(reply) });
    lemma_reply_roundtrip(reply);
}

/// One call from end to end. A connected client submits it; a serving
/// dispatcher that has no request of that id in flight invokes the handler
/// with the same call; whatever the handler returns travels back under the
/// call's id, completes that call on the client, and comes out of the stub
/// as the handler gave it.
pub proof fn lemma_call_round_trip(
    client: DispatcherView,
    server: ServerView,
    ctx: ContextView,
    call: CallView,
    result: Result<Seq<char>, Seq<char>>,
)
    requires
        client.accepts(),
        server.state == ServerState::Serving,
        !server.in_flight.contains(client.next_id),
    ensures
        ({
            let id = client.next_id;
            let request = call_frame(id, ctx.deadline, call);
            let reply = reply_frame(id, ReplyView::of_handler(result));
            &&& server.action_for(request) == (ServerActionView::Invoke {
                request_id: id,
                context: ContextView { request_id: id, deadline: ctx.deadline, cancelled: false },
                call,
            })
            &&& server.after_frame(request).reply_for(id, result) == Some(reply)
            &&& parse_response(reply) is Some
            &&& client.submit(ctx).delivery(parse_response(reply).unwrap()) == Some(
                CompletionView {
                    request_id: id,
                    outcome: Ok(reply_bytes(ReplyView::of_handler(result))),
                },
            )
            &&& call_outcome(Ok(reply_bytes(ReplyView::of_handler(result)))) == Ok::<
                Result<Seq<char>, Seq<char>>,
                RpcError,
            >(result)
        }),
{
    lemma_call_reaches_handler(server, client.next_id, ctx.deadline, call);
    lemma_result_reaches_caller(client.next_id, result);
}

/// A failure of the framework never comes out as the handler's refusal:
/// a call that ended without a response, a payload that is no reply, and a
/// reply that reports an unknown operation all give an `RpcError`.
pub proof fn lemma_framework_errors_stay_apart(outcome: Result<Seq<u8>, RpcError>)
    ensures
        outcome is Err ==> call_outcome(outcome) == Err::<Result<Seq<char>, Seq<char>>, RpcError>(
            outcome->Err_0,
        ),
        call_outcome(Ok(reply_bytes(ReplyView::UnknownOperation))) == Err::<
            Result<Seq<char>, Seq<char>>,
            RpcError,
        >(RpcError::UnknownOperation),
        call_outcome(outcome) matches Ok(Err(reason)) ==> outcome matches Ok(payload)
            && parse_reply(payload) == Some(ReplyView::Failure(reason)),
{
    lemma_reply_roundtrip(ReplyView::UnknownOperation);
}

/// The client of the service, on one connection.
pub struct WorldClient {
    pub dispatcher: ClientDispatcher,
}

impl WorldClient {
    /// A client whose connection has not been attempted yet.
    pub fn new() -> (client: WorldClient)
        ensures
            client.dispatcher.wf(),
            client.dispatcher@ == DispatcherView::initial(),
    {
        WorldClient { dispatcher: ClientDispatcher::new() }
    }

    /// Submits a call: frames its arguments under the name of its operation
    /// and hands it to the dispatcher, which accepts it only while connected.
    pub fn call(&mut self, ctx: Context, call: Call) -> (r: Result<Submitted, RpcError>)
        requires
            old(self).dispatcher.wf(),
            old(self).dispatcher@.next_id < u64::MAX,
        ensures
            final(self).dispatcher.wf(),
            final(self).dispatcher@ == old(self).dispatcher@.submit(ctx@),
            submission(old(self).dispatcher@, ctx@, call@, r),
    {
        let payload = encode_args(&call);
        self.dispatcher.submit(call.operation().name(), payload, ctx)
    }

    /// Calls `ping`.
    pub fn ping(&mut self, ctx: Context) -> (r: Result<Submitted, RpcError>)
        requires
            old(self).dispatcher.wf(),
            old(self).dispatcher@.next_id < u64::MAX,
        ensures
            final(self).dispatcher.wf(),
            final(self).dispatcher@ == old(self).dispatcher@.submit(ctx@),
            submission(old(self).dispatcher@, ctx@, CallView::Ping, r),
    {
        self.call(ctx, Call::Ping)
    }

    /// Calls `echo` with a value.
    pub fn echo(&mut self, ctx: Context, value: String) -> (r: Result<Submitted, RpcError>)
        requires
            old(self).dispatcher.wf(),
            old(self).dispatcher@.next_id < u64::MAX,
        ensures
            final(self).dispatcher.wf(),
            final(self).dispatcher@ == old(self).dispatcher@.submit(ctx@),
            submission(old(self).dispatcher@, ctx@, CallView::Echo(value@), r),
    {
        self.call(ctx, Call::Echo(value))
    }

    /// Calls `delay` with a number of seconds.
    pub fn delay(&mut self, ctx: Context, duration: u64) -> (r: Result<Submitted, RpcError>)
        requires
            old(self).dispatcher.wf(),
            old(self).dispatcher@.next_id < u64::MAX,
        ensures
            final(self).dispatcher.wf(),
            final(self).dispatcher@ == old(self).dispatcher@.submit(ctx@),
            submission(old(self).dispatcher@, ctx@, CallView::Delay(duration), r),
    {
        self.call(ctx, Call::Delay(duration))
    }

    /// Turns the way a call ended into the operation's result, as
    /// `call_outcome` lays down.
    pub fn finish(outcome: Result<Vec<u8>, RpcError>) -> (r: Result<
        Result<String, String>,
        RpcError,
    >)
        ensures
            call_result_view(r) == call_outcome(outcome_view(outcome)),
    {
        match outcome {
            Ok(payload) => match decode_reply(payload.as_slice()) {
                Ok(Reply::Success(value)) => Ok(Ok(value)),
                Ok(Reply::Failure(reason)) => Ok(Err(reason)),
                Ok(Reply::UnknownOperation) => Err(RpcError::UnknownOperation),
                Err(e) => Err(e),
            },
            Err(e) => Err(e),
        }
    }
}

} // verus!
