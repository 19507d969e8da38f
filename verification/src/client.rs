//! The client dispatcher: one connection, many calls in flight.
//!
//! The dispatcher is a state machine. It never touches a transport or a
//! clock: whoever owns the connection tells it what happened (a connection
//! attempt ended, a frame arrived, time passed, the transport closed) and it
//! answers with what to do (a frame to send, calls to complete). Every call
//! is completed at most once, by the event that removes it from the table of
//! pending calls.

use vstd::prelude::*;
use crate::codec::{
    decode_response,
    encode_request,
    parse_response,
    request_bytes,
    RequestEnvelope,
    RequestView,
    ResponseEnvelope,
    ResponseView,
};
use crate::context::{Context, ContextView};
use crate::error::RpcError;
use crate::pending::{inactive_part, PendingCall, PendingTable};

verus! {

/// Where a connection stands. `Closed` is final.
#[derive(Clone, Copy, Debug, PartialEq, Eq, Structural)]
pub enum ConnState {
    Disconnected,
    Connecting,
    Connected,
    Closed,
}

/// The end of one call: the payload of its response, or the reason why it
/// ended without one.
#[derive(Debug, PartialEq, Eq)]
pub struct Completion {
    pub request_id: u64,
    pub outcome: Result<Vec<u8>, RpcError>,
}

pub struct CompletionView {
    pub request_id: u64,
    pub outcome: Result<Seq<u8>, RpcError>,
}

impl View for Completion {
    type V = CompletionView;

    open spec fn view(&self) -> CompletionView {
        CompletionView {
            request_id: self.request_id,
            outcome: match self.outcome {
                Ok(payload) => Ok(payload@),
                Err(e) => Err(e),
            },
        }
    }
}

pub open spec fn option_completion_view(c: Option<Completion>) -> Option<CompletionView> {
    match c {
        Some(completion) => Some(completion@),
        None => None,
    }
}

pub open spec fn frame_result_view(r: Result<Option<Completion>, RpcError>) -> Result<
    Option<CompletionView>,
    RpcError,
> {
    match r {
        Ok(done) => Ok(option_completion_view(done)),
        Err(e) => Err(e),
    }
}

/// A call that was accepted: its request id, and the frame to send.
#[derive(Clone, Debug, PartialEq, Eq)]
pub struct Submitted {
    pub request_id: u64,
    pub frame: Vec<u8>,
}

/// Whether `done` lists the calls of `failed`, each once with its error, in
/// ascending order of request id.
pub open spec fn lists_failures(done: Seq<Completion>, failed: Map<u64, RpcError>) -> bool {
    &&& forall|i: int|
        0 <= i < done.len() ==> failed.contains_key((#[trigger] done[i]).request_id)
            && done[i].outcome == Err::<Vec<u8>, RpcError>(failed[done[i].request_id])
    &&& forall|id: u64| #[trigger]
        failed.contains_key(id) ==> exists|i: int|
            0 <= i < done.len() && (#[trigger] done[i]).request_id == id
    &&& forall|i: int, j: int|
        0 <= i < j < done.len() ==> (#[trigger] done[i]).request_id < (
        #[trigger] done[j]).request_id
}

/// The dispatcher as a value: the connection state, the id that the next
/// call gets, and the table of pending calls by request id.
pub struct DispatcherView {
    pub conn: ConnState,
    pub next_id: u64,
    pub pending: Map<u64, ContextView>,
}

impl DispatcherView {
    /// Pending calls carry ids that were given out, each context is bound to
    /// its own id, and calls are pending only while connected.
    pub open spec fn wf(self) -> bool {
        &&& forall|id: u64| #[trigger]
            self.pending.contains_key(id) ==> id < self.next_id && self.pending[id].request_id
                == id
        &&& self.conn != ConnState::Connected ==> self.pending == Map::<u64, ContextView>::empty()
    }

    pub open spec fn initial() -> DispatcherView {
        DispatcherView { conn: ConnState::Disconnected, next_id: 0, pending: Map::empty() }
    }

    /// A connection attempt starts from `Disconnected` only.
    pub open spec fn begin_connect(self) -> DispatcherView {
        if self.conn == ConnState::Disconnected {
            DispatcherView { conn: ConnState::Connecting, ..self }
        } else {
            self
        }
    }

    /// A connection attempt that ends leaves `Connecting`: for `Connected`
    /// if it succeeded, for `Closed` if it did not.
    pub open spec fn finish_connect(self, established: bool) -> DispatcherView {
        if self.conn == ConnState::Connecting {
            DispatcherView {
                conn: if established {
                    ConnState::Connected
                } else {
                    ConnState::Closed
                },
                ..self
            }
        } else {
            self
        }
    }

    /// What the end of a connection attempt reports: success if the
    /// dispatcher is connected now; `TransportClosed` if it had been closed
    /// before; `ConnectError` otherwise.
    pub open spec fn connect_outcome(self, established: bool) -> Result<(), RpcError> {
        match self.conn {
            ConnState::Connected => Ok(()),
            ConnState::Connecting => if established {
                Ok(())
            } else {
                Err(RpcError::ConnectError)
            },
            ConnState::Disconnected => Err(RpcError::ConnectError),
            ConnState::Closed => Err(RpcError::TransportClosed),
        }
    }

    /// Calls are accepted only while connected.
    pub open spec fn accepts(self) -> bool {
        self.conn == ConnState::Connected
    }

    /// A call that is accepted gets the next id and waits under it; one
    /// that is refused changes nothing.
    pub open spec fn submit(self, ctx: ContextView) -> DispatcherView {
        if self.accepts() {
            DispatcherView {
                next_id: (self.next_id + 1) as u64,
                pending: self.pending.insert(self.next_id, ctx.for_request(self.next_id)),
                ..self
            }
        } else {
            self
        }
    }

    /// A response takes the call of its id out of the table.
    pub open spec fn deliver(self, response: ResponseView) -> DispatcherView {
        DispatcherView { pending: self.pending.remove(response.request_id), ..self }
    }

    /// A response completes the call of its id, if that call is pending,
    /// and no other.
    pub open spec fn delivery(self, response: ResponseView) -> Option<CompletionView> {
        if self.pending.contains_key(response.request_id) {
            Some(
                CompletionView { request_id: response.request_id, outcome: Ok(response.payload) },
            )
        } else {
            None
        }
    }

    /// A frame that carries a response delivers it; any other frame
    /// changes nothing.
    pub open spec fn after_frame(self, frame: Seq<u8>) -> DispatcherView {
        match parse_response(frame) {
            Some(response) => self.deliver(response),
            None => self,
        }
    }

    /// What a frame brings about: the completion of the call that its
    /// response answers, nothing if no such call is pending, and
    /// `MalformedMessage` if the frame carries no response.
    pub open spec fn frame_outcome(self, frame: Seq<u8>) -> Result<
        Option<CompletionView>,
        RpcError,
    > {
        match parse_response(frame) {
            Some(response) => Ok(self.delivery(response)),
            None => Err(RpcError::MalformedMessage),
        }
    }

    pub open spec fn cancel(self, request_id: u64) -> DispatcherView {
        DispatcherView { pending: self.pending.remove(request_id), ..self }
    }

    pub open spec fn cancellation(self, request_id: u64) -> Option<CompletionView> {
        if self.pending.contains_key(request_id) {
            Some(CompletionView { request_id, outcome: Err(RpcError::Cancelled) })
        } else {
            None
        }
    }

    /// The calls that are given up at `now`: those whose context is no
    /// longer active, each with the reason.
    pub open spec fn abandoned(self, now: u64) -> Map<u64, RpcError> {
        Map::new(
            |id: u64| self.pending.contains_key(id) && !self.pending[id].active_at(now),
            |id: u64| self.pending[id].end_reason(),
        )
    }

    /// Giving up the calls whose context is no longer active leaves the others.
    pub open spec fn sweep(self, now: u64) -> DispatcherView {
        DispatcherView {
            pending: Map::new(
                |id: u64| self.pending.contains_key(id) && self.pending[id].active_at(now),
                |id: u64| self.pending[id],
            ),
            ..self
        }
    }

    /// Every pending call fails with `TransportClosed` when the transport closes.
    pub open spec fn failed_by_close(self) -> Map<u64, RpcError> {
        Map::new(|id: u64| self.pending.contains_key(id), |id: u64| RpcError::TransportClosed)
    }

    pub open spec fn close(self) -> DispatcherView {
        DispatcherView { conn: ConnState::Closed, pending: Map::empty(), ..self }
    }
}

/// The completions of calls that ended without a response, in the order of
/// the calls: each with `TransportClosed` if the transport closed under it,
/// else with the reason that its context gives.
fn failures(calls: Vec<PendingCall>, closed: bool) -> (done: Vec<Completion>)
    ensures
        done@.len() == calls@.len(),
        forall|i: int|
            0 <= i < calls@.len() ==> (#[trigger] done@[i]).request_id == calls@[i].request_id
                && done@[i].outcome == Err::<Vec<u8>, RpcError>(
                if closed {
                    RpcError::TransportClosed
                } else {
                    calls@[i].context@.end_reason()
                },
            ),
{
    let mut done: Vec<Completion> = Vec::new();
    let mut i: usize = 0;
    while i < calls.len()
        invariant
            i <= calls@.len(),
            done@.len() == i,
            forall|k: int|
                0 <= k < i ==> (#[trigger] done@[k]).request_id == calls@[k].request_id
                    && done@[k].outcome == Err::<Vec<u8>, RpcError>(
                    if closed {
                        RpcError::TransportClosed
                    } else {
                        calls@[k].context@.end_reason()
                    },
                ),
        decreases calls@.len() - i,
    {
        let call = calls[i];
        let reason = if closed {
            RpcError::TransportClosed
        } else {
            call.context.end_reason()
        };
        done.push(Completion { request_id: call.request_id, outcome: Err(reason) });
        i = i + 1;
    }
    done
}

/// The dispatcher of one connection.
pub struct ClientDispatcher {
    conn: ConnState,
    next_id: u64,
    pending: PendingTable,
}

impl View for ClientDispatcher {
    type V = DispatcherView;

    closed spec fn view(&self) -> DispatcherView {
        DispatcherView { conn: self.conn, next_id: self.next_id, pending: self.pending@ }
    }
}

impl ClientDispatcher {
    /// Every dispatcher that `new` made and the methods below changed is
    /// well-formed.
    pub closed spec fn wf(&self) -> bool {
        &&& self.pending.wf()
        &&& forall|id: u64| #[trigger] self.pending@.contains_key(id) ==> id < self.next_id
        &&& self.conn != ConnState::Connected ==> self.pending@ =~= Map::<u64, ContextView>::empty()
    }

    /// A well-formed dispatcher has a well-formed view.
    pub proof fn lemma_view_wf(&self)
        requires
            self.wf(),
        ensures
            self@.wf(),
    {
        self.pending.lemma_bound_to_ids();
    }

    /// A dispatcher for a connection that has not been attempted yet.
    pub fn new() -> (d: ClientDispatcher)
        ensures
            d.wf(),
            d@ == DispatcherView::initial(),
    {
        ClientDispatcher { conn: ConnState::Disconnected, next_id: 0, pending: PendingTable::new() }
    }

    pub fn state(&self) -> (conn: ConnState)
        ensures
            conn == self@.conn,
    {
        self.conn
    }

    /// The id that the next accepted call gets.
    pub fn next_request_id(&self) -> (id: u64)
        ensures
            id == self@.next_id,
    {
        self.next_id
    }

    /// The call that waits under an id, if one does.
    pub fn pending_call(&self, request_id: u64) -> (r: Option<PendingCall>)
        requires
            self.wf(),
        ensures
            match r {
                Some(call) => self@.pending.contains_key(request_id) && call.request_id
                    == request_id && call.context@ == self@.pending[request_id],
                None => !self@.pending.contains_key(request_id),
            },
    {
        self.pending.get(request_id)
    }

    /// Whether the call of an id waits for its response.
    pub fn is_pending(&self, request_id: u64) -> (b: bool)
        requires
            self.wf(),
        ensures
            b == self@.pending.contains_key(request_id),
    {
        self.pending.get(request_id).is_some()
    }

    /// Notes that a connection attempt has started. Returns whether it may:
    /// only a dispatcher that was never connected can connect.
    pub fn begin_connect(&mut self) -> (started: bool)
        requires
            old(self).wf(),
        ensures
            final(self).wf(),
            final(self)@ == old(self)@.begin_connect(),
            started == (old(self)@.conn == ConnState::Disconnected),
    {
        match self.conn {
            ConnState::Disconnected => {
                self.conn = ConnState::Connecting;
                true
            },
            _ => false,
        }
    }

    /// Notes how a connection attempt ended.
    pub fn finish_connect(&mut self, established: bool) -> (r: Result<(), RpcError>)
        requires
            old(self).wf(),
        ensures
            final(self).wf(),
            final(self)@ == old(self)@.finish_connect(established),
            r == old(self)@.connect_outcome(established),
    {
        match self.conn {
            ConnState::Connecting => {
                if established {
                    self.conn = ConnState::Connected;
                    Ok(())
                } else {
                    self.conn = ConnState::Closed;
                    Err(RpcError::ConnectError)
                }
            },
            ConnState::Connected => Ok(()),
            ConnState::Disconnected => Err(RpcError::ConnectError),
            ConnState::Closed => Err(RpcError::TransportClosed),
        }
    }

    /// Accepts a call: gives it the next request id, enters it in the table
    /// of pending calls and returns the frame to send. Fails with
    /// `TransportClosed`, and changes nothing, unless the dispatcher is
    /// connected.
    pub fn submit(&mut self, operation: &str, payload: Vec<u8>, ctx: Context) -> (r: Result<
        Submitted,
        RpcError,
    >)
        requires
            old(self).wf(),
            old(self)@.next_id < u64::MAX,
        ensures
            final(self).wf(),
            final(self)@ == old(self)@.submit(ctx@),
            match r {
                Ok(submitted) => {
                    &&& old(self)@.accepts()
                    &&& submitted.request_id == old(self)@.next_id
                    &&& submitted.frame@ == request_bytes(
                        RequestView {
                            request_id: old(self)@.next_id,
                            operation: operation@,
                            deadline: ctx@.deadline,
                            payload: payload@,
                        },
                    )
                },
                Err(e) => !old(self)@.accepts() && e == RpcError::TransportClosed,
            },
    {
        match self.conn {
            ConnState::Connected => {},
            _ => {
                return Err(RpcError::TransportClosed);
            },
        }
        let request_id = self.next_id;
        self.pending.insert(PendingCall { request_id, context: ctx.for_request(request_id) });
        self.next_id = request_id + 1;
        let request = RequestEnvelope {
            request_id,
            operation: operation.to_owned(),
            deadline: ctx.deadline(),
            payload,
        };
        Ok(Submitted { request_id, frame: encode_request(&request) })
    }

    /// Routes a response to the call that waits for it: that call leaves the
    /// table and is completed with the response's payload. A response for an
    /// id that is not pending is discarded.
    pub fn on_response(&mut self, response: ResponseEnvelope) -> (r: Option<Completion>)
        requires
            old(self).wf(),
        ensures
            final(self).wf(),
            final(self)@ == old(self)@.deliver(response@),
            option_completion_view(r) == old(self)@.delivery(response@),
    {
        match self.pending.remove(response.request_id) {
            Some(_) => Some(
                Completion { request_id: response.request_id, outcome: Ok(response.payload) },
            ),
            None => None,
        }
    }

    /// Takes a frame from the transport. A frame that is no response is
    /// dropped: it changes nothing, completes no call, and is reported as
    /// `MalformedMessage`. Any other frame is routed as `on_response` says.
    pub fn on_frame(&mut self, frame: &[u8]) -> (r: Result<Option<Completion>, RpcError>)
        requires
            old(self).wf(),
        ensures
            final(self).wf(),
            final(self)@ == old(self)@.after_frame(frame@),
            frame_result_view(r) == old(self)@.frame_outcome(frame@),
    {
        match decode_response(frame) {
            Ok(response) => Ok(self.on_response(response)),
            Err(e) => Err(e),
        }
    }

    /// Cancels a call: if it is pending it leaves the table and is completed
    /// with `Cancelled`. Cancelling a call that is not pending does nothing.
    pub fn cancel(&mut self, request_id: u64) -> (r: Option<Completion>)
        requires
            old(self).wf(),
        ensures
            final(self).wf(),
            final(self)@ == old(self)@.cancel(request_id),
            option_completion_view(r) == old(self)@.cancellation(request_id),
    {
        match self.pending.remove(request_id) {
            Some(_) => Some(Completion { request_id, outcome: Err(RpcError::Cancelled) }),
            None => None,
        }
    }

    /// Gives up every call whose context is no longer active at `now`: each
    /// leaves the table and is completed with `Cancelled` if its context was
    /// cancelled, with `DeadlineExceeded` otherwise. The calls that stay are
    /// untouched. The completions come in ascending order of request id.
    pub fn sweep(&mut self, now: u64) -> (done: Vec<Completion>)
        requires
            old(self).wf(),
        ensures
            final(self).wf(),
            final(self)@ == old(self)@.sweep(now),
            lists_failures(done@, old(self)@.abandoned(now)),
    {
        let gone = self.pending.remove_inactive(now);
        let done = failures(gone, false);
        proof {
            let failed = old(self)@.abandoned(now);
            let rest = inactive_part(old(self)@.pending, now);
            assert(self.pending@ =~= old(self)@.sweep(now).pending);
            assert forall|id: u64| #[trigger] failed.contains_key(id) implies exists|i: int|
                0 <= i < done@.len() && (#[trigger] done@[i]).request_id == id by {
                assert(rest.contains_key(id));
                let i = choose|i: int|
                    0 <= i < gone@.len() && (#[trigger] gone@[i]).request_id == id;
                assert(done@[i].request_id == id);
            }
            assert forall|i: int, j: int| 0 <= i < j < done@.len() implies (
            #[trigger] done@[i]).request_id < (#[trigger] done@[j]).request_id by {
                assert(gone@[i].request_id < gone@[j].request_id);
            }
            assert forall|i: int| 0 <= i < done@.len() implies failed.contains_key(
                (#[trigger] done@[i]).request_id,
            ) && done@[i].outcome == Err::<Vec<u8>, RpcError>(failed[done@[i].request_id]) by {
                assert(gone@[i].request_id == done@[i].request_id);
                assert(rest.contains_key(gone@[i].request_id));
            }
        }
        done
    }

    /// Notes that the transport failed or was closed: every pending call is
    /// completed with `TransportClosed`, in ascending order of request id,
    /// and the dispatcher is closed for good.
    pub fn close(&mut self) -> (done: Vec<Completion>)
        requires
            old(self).wf(),
        ensures
            final(self).wf(),
            final(self)@ == old(self)@.close(),
            lists_failures(done@, old(self)@.failed_by_close()),
    {
        let gone = self.pending.take_all();
        self.conn = ConnState::Closed;
        let done = failures(gone, true);
        proof {
            let failed = old(self)@.failed_by_close();
            assert forall|id: u64| #[trigger] failed.contains_key(id) implies exists|i: int|
                0 <= i < done@.len() && (#[trigger] done@[i]).request_id == id by {
                let i = choose|i: int|
                    0 <= i < gone@.len() && (#[trigger] gone@[i]).request_id == id;
                assert(done@[i].request_id == id);
            }
            assert forall|i: int, j: int| 0 <= i < j < done@.len() implies (
            #[trigger] done@[i]).request_id < (#[trigger] done@[j]).request_id by {
                assert(gone@[i].request_id < gone@[j].request_id);
            }
            assert forall|i: int| 0 <= i < done@.len() implies failed.contains_key(
                (#[trigger] done@[i]).request_id,
            ) && done@[i].outcome == Err::<Vec<u8>, RpcError>(failed[done@[i].request_id]) by {
                assert(gone@[i].request_id == done@[i].request_id);
            }
        }
        done
    }
}

} // verus!
