//! The server dispatcher: one connection, requests served independently.
//!
//! Like the client dispatcher it is a state machine. Whoever owns the
//! connection hands it each frame that arrives and each handler result as it
//! becomes ready, and sends what comes back. A request is in flight from the
//! frame that asks for it until its handler's result is reported; requests
//! in flight do not wait for one another.

use vstd::prelude::*;
use crate::codec::{
    decode_args,
    decode_request,
    encode_reply,
    encode_response,
    parse_args,
    parse_request,
    reply_bytes,
    response_bytes,
    Reply,
    ReplyView,
    ResponseEnvelope,
    ResponseView,
};
use crate::context::{Context, ContextView};
use crate::error::handler_result_view;
use crate::service::{Call, CallView, Operation, World};

verus! {

/// Where a served connection stands. `Closed` is final.
#[derive(Clone, Copy, Debug, PartialEq, Eq, Structural)]
pub enum ServerState {
    Accepted,
    Serving,
    Closed,
}

/// Why a frame was dropped.
#[derive(Clone, Copy, Debug, PartialEq, Eq, Structural)]
pub enum DropReason {
    /// The connection is not serving: not yet, or no more.
    NotServing,
    /// The frame is no request, or its arguments do not fit its operation.
    Malformed,
    /// A request of the same id is still in flight.
    AlreadyInFlight,
}

/// What to do about a frame.
#[derive(Clone, Debug, PartialEq, Eq)]
pub enum ServerAction {
    /// Nothing: the frame was dropped.
    Dropped(DropReason),
    /// Send this frame back.
    Reply(Vec<u8>),
    /// Run the handler for this call and report what it returns with `on_handled`.
    Invoke { request_id: u64, context: Context, call: Call },
}

pub enum ServerActionView {
    Dropped(DropReason),
    Reply(Seq<u8>),
    Invoke { request_id: u64, context: ContextView, call: CallView },
}

impl View for ServerAction {
    type V = ServerActionView;

    open spec fn view(&self) -> ServerActionView {
        match *self {
            ServerAction::Dropped(reason) => ServerActionView::Dropped(reason),
            ServerAction::Reply(frame) => ServerActionView::Reply(frame@),
            ServerAction::Invoke { request_id, context, call } => ServerActionView::Invoke {
                request_id,
                context: context@,
                call: call@,
            },
        }
    }
}

pub open spec fn option_bytes_view(frame: Option<Vec<u8>>) -> Option<Seq<u8>> {
    match frame {
        Some(bytes) => Some(bytes@),
        None => None,
    }
}

/// The frame that answers a request with a reply.
pub open spec fn reply_frame(request_id: u64, reply: ReplyView) -> Seq<u8> {
    response_bytes(ResponseView { request_id, payload: reply_bytes(reply) })
}

/// The server dispatcher as a value: the connection state and the ids of
/// the requests whose handlers have not reported yet.
pub struct ServerView {
    pub state: ServerState,
    pub in_flight: Set<u64>,
}

impl ServerView {
    /// Requests are in flight only while serving.
    pub open spec fn wf(self) -> bool {
        self.state != ServerState::Serving ==> self.in_flight == Set::<u64>::empty()
    }

    pub open spec fn initial() -> ServerView {
        ServerView { state: ServerState::Accepted, in_flight: Set::empty() }
    }

    /// Serving begins from `Accepted` only.
    pub open spec fn begin(self) -> ServerView {
        if self.state == ServerState::Accepted {
            ServerView { state: ServerState::Serving, ..self }
        } else {
            self
        }
    }

    /// What a frame asks for.
    ///
    /// While serving: a frame that is no request is dropped, and so is a
    /// request whose arguments do not fit its operation or whose id is
    /// already in flight; a request for an operation that the service does
    /// not have is answered at once with `UnknownOperation` under its own
    /// id; every other request has its handler invoked, with a fresh context
    /// that carries the request's id and deadline. Before serving has begun
    /// and after the connection closed, every frame is dropped.
    pub open spec fn action_for(self, frame: Seq<u8>) -> ServerActionView {
        if self.state != ServerState::Serving {
            ServerActionView::Dropped(DropReason::NotServing)
        } else {
            match parse_request(frame) {
                None => ServerActionView::Dropped(DropReason::Malformed),
                Some(request) => match Operation::from_name_spec(request.operation) {
                    None => ServerActionView::Reply(
                        reply_frame(request.request_id, ReplyView::UnknownOperation),
                    ),
                    Some(op) => match parse_args(op, request.payload) {
                        None => ServerActionView::Dropped(DropReason::Malformed),
                        Some(call) => if self.in_flight.contains(request.request_id) {
                            ServerActionView::Dropped(DropReason::AlreadyInFlight)
                        } else {
                            ServerActionView::Invoke {
                                request_id: request.request_id,
                                context: ContextView {
                                    request_id: request.request_id,
                                    deadline: request.deadline,
                                    cancelled: false,
                                },
                                call,
                            }
                        },
                    },
                },
            }
        }
    }

    /// A frame changes the state only by putting the request it invokes in flight.
    pub open spec fn after_frame(self, frame: Seq<u8>) -> ServerView {
        match self.action_for(frame) {
            ServerActionView::Invoke { request_id, .. } => ServerView {
                in_flight: self.in_flight.insert(request_id),
                ..self
            },
            _ => self,
        }
    }

    /// The frame that carries a handler's result back, if the request is in flight.
    pub open spec fn reply_for(
        self,
        request_id: u64,
        result: Result<Seq<char>, Seq<char>>,
    ) -> Option<Seq<u8>> {
        if self.in_flight.contains(request_id) {
            Some(reply_frame(request_id, ReplyView::of_handler(result)))
        } else {
            None
        }
    }

    /// A request whose handler has reported is in flight no longer.
    pub open spec fn after_handled(self, request_id: u64) -> ServerView {
        ServerView { in_flight: self.in_flight.remove(request_id), ..self }
    }

    pub open spec fn close(self) -> ServerView {
        ServerView { state: ServerState::Closed, in_flight: Set::empty() }
    }
}

/// A frame that is no request is dropped, and nothing else happens: the
/// connection keeps serving, the requests in flight stay in flight, and
/// each of them is answered as it would have been.
pub proof fn lemma_malformed_frame_is_isolated(
    s: ServerView,
    frame: Seq<u8>,
    request_id: u64,
    result: Result<Seq<char>, Seq<char>>,
)
    requires
        parse_request(frame) is None,
    ensures
        s.action_for(frame) is Dropped,
        s.state == ServerState::Serving ==> s.action_for(frame) == ServerActionView::Dropped(
            DropReason::Malformed,
        ),
        s.after_frame(frame) == s,
        s.after_frame(frame).reply_for(request_id, result) == s.reply_for(request_id, result),
{
}

/// A request is answered once: after its handler's result was reported, a
/// second report for the same id gives no frame.
pub proof fn lemma_request_is_answered_once(
    s: ServerView,
    request_id: u64,
    result: Result<Seq<char>, Seq<char>>,
)
    ensures
        s.after_handled(request_id).reply_for(request_id, result) is None,
{
}

/// A closed connection stays closed: it drops every frame, answers no
/// request, and no event opens it again.
pub proof fn lemma_closed_connection_is_final(
    s: ServerView,
    frame: Seq<u8>,
    request_id: u64,
    result: Result<Seq<char>, Seq<char>>,
)
    requires
        s.wf(),
        s.state == ServerState::Closed,
    ensures
        s.begin() == s,
        s.action_for(frame) == ServerActionView::Dropped(DropReason::NotServing),
        s.after_frame(frame) == s,
        s.reply_for(request_id, result) is None,
        s.after_handled(request_id) == s,
        s.close() == s,
{
    assert(s.after_handled(request_id).in_flight =~= s.in_flight);
}

/// Every event leaves a well-formed server dispatcher well-formed.
pub proof fn lemma_server_events_preserve_wf(s: ServerView, frame: Seq<u8>, request_id: u64)
    requires
        s.wf(),
    ensures
        ServerView::initial().wf(),
        s.begin().wf(),
        s.after_frame(frame).wf(),
        s.after_handled(request_id).wf(),
        s.close().wf(),
{
    if s.state != ServerState::Serving {
        assert(s.after_handled(request_id).in_flight =~= s.in_flight);
    }
}

proof fn lemma_ids_without(s: Seq<u64>, k: int)
    requires
        s.no_duplicates(),
        0 <= k < s.len(),
    ensures
        s.remove(k).no_duplicates(),
        s.remove(k).to_set() == s.to_set().remove(s[k]),
{
    let t = s.remove(k);
    assert forall|i: int| 0 <= i < t.len() implies #[trigger] t[i] == s[if i < k {
        i
    } else {
        i + 1
    }] by {}
    assert forall|id: u64| #[trigger] t.to_set().contains(id) <==> s.to_set().remove(
        s[k],
    ).contains(id) by {
        if t.contains(id) {
            let i = choose|i: int| 0 <= i < t.len() && t[i] == id;
            let j = if i < k {
                i
            } else {
                i + 1
            };
            assert(s[j] == id);
        }
        if s.contains(id) && id != s[k] {
            let j = choose|j: int| 0 <= j < s.len() && s[j] == id;
            let i = if j < k {
                j
            } else {
                j - 1
            };
            assert(t[i] == id);
        }
    }
    assert(t.to_set() =~= s.to_set().remove(s[k]));
}

/// Invokes the handler method that a call names, with the context and the
/// call's arguments.
pub fn invoke<H: World>(handler: H, ctx: Context, call: Call) -> (r: Result<String, String>)
    ensures
        handler.may_answer(ctx@, call@, handler_result_view(r)),
{
    match call {
        Call::Ping => handler.ping(ctx),
        Call::Echo(value) => handler.echo(ctx, value),
        Call::Delay(duration) => handler.delay(ctx, duration),
    }
}

/// The reply that carries a handler's result.
pub fn reply_of(result: Result<String, String>) -> (reply: Reply)
    ensures
        reply@ == ReplyView::of_handler(handler_result_view(result)),
{
    match result {
        Ok(value) => Reply::Success(value),
        Err(reason) => Reply::Failure(reason),
    }
}

/// The frame that answers a request with a reply.
pub fn encode_reply_frame(request_id: u64, reply: &Reply) -> (frame: Vec<u8>)
    ensures
        frame@ == reply_frame(request_id, reply@),
{
    encode_response(&ResponseEnvelope { request_id, payload: encode_reply(reply) })
}

/// The dispatcher of one served connection.
pub struct ServerDispatcher {
    state: ServerState,
    in_flight: Vec<u64>,
}

impl View for ServerDispatcher {
    type V = ServerView;

    closed spec fn view(&self) -> ServerView {
        ServerView { state: self.state, in_flight: self.in_flight@.to_set() }
    }
}

impl ServerDispatcher {
    /// Every dispatcher that `accept` made and the methods below changed is
    /// well-formed.
    pub closed spec fn wf(&self) -> bool {
        &&& self.in_flight@.no_duplicates()
        &&& self.state != ServerState::Serving ==> self.in_flight@.len() == 0
    }

    /// A well-formed dispatcher has a well-formed view.
    pub proof fn lemma_view_wf(&self)
        requires
            self.wf(),
        ensures
            self@.wf(),
    {
        if self.in_flight@.len() == 0 {
            assert(self.in_flight@.to_set() =~= Set::<u64>::empty());
        }
    }

    /// A dispatcher for a connection that was just accepted.
    pub fn accept() -> (d: ServerDispatcher)
        ensures
            d.wf(),
            d@ == ServerView::initial(),
    {
        let d = ServerDispatcher { state: ServerState::Accepted, in_flight: Vec::new() };
        assert(d.in_flight@.to_set() =~= Set::<u64>::empty());
        d
    }

    pub fn state(&self) -> (state: ServerState)
        ensures
            state == self@.state,
    {
        self.state
    }

    fn position(&self, request_id: u64) -> (r: Option<usize>)
        ensures
            match r {
                Some(i) => i < self.in_flight@.len() && self.in_flight@[i as int] == request_id,
                None => !self.in_flight@.contains(request_id),
            },
    {
        let mut i: usize = 0;
        while i < self.in_flight.len()
            invariant
                i <= self.in_flight@.len(),
                forall|j: int| 0 <= j < i ==> self.in_flight@[j] != request_id,
            decreases self.in_flight@.len() - i,
        {
            if self.in_flight[i] == request_id {
                return Some(i);
            }
            i = i + 1;
        }
        None
    }

    /// Whether the handler of a request has yet to report.
    pub fn is_in_flight(&self, request_id: u64) -> (b: bool)
        ensures
            b == self@.in_flight.contains(request_id),
    {
        self.position(request_id).is_some()
    }

    /// Starts serving. Returns whether it did: only a connection that was
    /// just accepted can start.
    pub fn begin(&mut self) -> (started: bool)
        requires
            old(self).wf(),
        ensures
            final(self).wf(),
            final(self)@ == old(self)@.begin(),
            started == (old(self)@.state == ServerState::Accepted),
    {
        match self.state {
            ServerState::Accepted => {
                self.state = ServerState::Serving;
                true
            },
            _ => false,
        }
    }

    /// Takes a frame from the transport and says what to do about it, as
    /// `ServerView::action_for` lays down.
    pub fn on_frame(&mut self, frame: &[u8]) -> (action: ServerAction)
        requires
            old(self).wf(),
        ensures
            final(self).wf(),
            final(self)@ == old(self)@.after_frame(frame@),
            action@ == old(self)@.action_for(frame@),
    {
        match self.state {
            ServerState::Serving => {},
            _ => {
                return ServerAction::Dropped(DropReason::NotServing);
            },
        }
        let request = match decode_request(frame) {
            Ok(request) => request,
            Err(_) => {
                return ServerAction::Dropped(DropReason::Malformed);
            },
        };
        let op = match Operation::from_name(request.operation.as_str()) {
            Some(op) => op,
            None => {
                return ServerAction::Reply(
                    encode_reply_frame(request.request_id, &Reply::UnknownOperation),
                );
            },
        };
        let call = match decode_args(op, request.payload.as_slice()) {
            Ok(call) => call,
            Err(_) => {
                return ServerAction::Dropped(DropReason::Malformed);
            },
        };
        if self.position(request.request_id).is_some() {
            return ServerAction::Dropped(DropReason::AlreadyInFlight);
        }
        proof {
            self.in_flight@.lemma_push_to_set_commute(request.request_id);
        }
        self.in_flight.push(request.request_id);
        ServerAction::Invoke {
            request_id: request.request_id,
            context: Context::new(request.deadline).for_request(request.request_id),
            call,
        }
    }

    /// Takes the result of a handler and returns the frame that carries it
    /// back, under the id of its request. The request is in flight no
    /// longer. A result for a request that is not in flight gives no frame.
    pub fn on_handled(&mut self, request_id: u64, result: Result<String, String>) -> (frame: Option<
        Vec<u8>,
    >)
        requires
            old(self).wf(),
        ensures
            final(self).wf(),
            final(self)@ == old(self)@.after_handled(request_id),
            option_bytes_view(frame) == old(self)@.reply_for(
                request_id,
                handler_result_view(result),
            ),
    {
        match self.position(request_id) {
            Some(i) => {
                proof {
                    lemma_ids_without(self.in_flight@, i as int);
                }
                self.in_flight.remove(i);
                Some(encode_reply_frame(request_id, &reply_of(result)))
            },
            None => {
                assert(self.in_flight@.to_set().remove(request_id) =~= self.in_flight@.to_set());
                None
            },
        }
    }

    /// Notes that the transport reached its end, failed, or was shut down:
    /// the connection is closed for good and nothing is in flight on it.
    pub fn close(&mut self)
        requires
            old(self).wf(),
        ensures
            final(self).wf(),
            final(self)@ == old(self)@.close(),
    {
        self.state = ServerState::Closed;
        self.in_flight = Vec::new();
        assert(self.in_flight@.to_set() =~= Set::<u64>::empty());
    }

    /// Serves one frame from start to end with a handler that answers on
    /// the spot: the frame that `on_frame` replies with, or the frame that
    /// carries what the handler returned, or nothing if the frame was
    /// dropped. Nothing is left in flight that was not in flight before.
    pub fn serve<H: World>(&mut self, handler: H, frame: &[u8]) -> (reply: Option<Vec<u8>>)
        requires
            old(self).wf(),
        ensures
            final(self).wf(),
            final(self)@ == old(self)@,
            match old(self)@.action_for(frame@) {
                ServerActionView::Dropped(_) => reply is None,
                ServerActionView::Reply(bytes) => option_bytes_view(reply) == Some(bytes),
                ServerActionView::Invoke { request_id, context, call } => exists|
                    result: Result<Seq<char>, Seq<char>>,
                |
                    #[trigger] handler.may_answer(context, call, result) && option_bytes_view(reply)
                        == Some(
                        reply_frame(request_id, ReplyView::of_handler(result)),
                    ),
            },
    {
        match self.on_frame(frame) {
            ServerAction::Dropped(_) => None,
            ServerAction::Reply(bytes) => Some(bytes),
            ServerAction::Invoke { request_id, context, call } => {
                let result = invoke(handler, context, call);
                assert(self@.in_flight.remove(request_id) =~= old(self)@.in_flight);
                self.on_handled(request_id, result)
            },
        }
    }
}

} // verus!
