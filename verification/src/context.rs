//! Per-call metadata: request id, optional deadline, cancellation flag.
//!
//! Time is a reading of a monotonic clock, in whatever unit the caller
//! counts in. The library never reads a clock: whoever asks whether a
//! context has expired says what time it is.

use vstd::prelude::*;
use crate::error::RpcError;

verus! {

/// The metadata that travels with one call. A context starts active and
/// can only go from active to cancelled or expired, never back.
#[derive(Clone, Copy, Debug, PartialEq, Eq, Structural)]
pub struct Context {
    request_id: u64,
    deadline: Option<u64>,
    cancelled: bool,
}

pub struct ContextView {
    pub request_id: u64,
    pub deadline: Option<u64>,
    pub cancelled: bool,
}

impl View for Context {
    type V = ContextView;

    closed spec fn view(&self) -> ContextView {
        ContextView {
            request_id: self.request_id,
            deadline: self.deadline,
            cancelled: self.cancelled,
        }
    }
}

impl ContextView {
    /// A context has expired once the clock has reached its deadline.
    pub open spec fn expired_at(self, now: u64) -> bool {
        self.deadline matches Some(deadline) && deadline <= now
    }

    /// A context is active while it is neither cancelled nor expired.
    pub open spec fn active_at(self, now: u64) -> bool {
        !self.cancelled && !self.expired_at(now)
    }

    /// Why a call whose context is no longer active is given up:
    /// cancellation comes before expiry.
    pub open spec fn end_reason(self) -> RpcError {
        if self.cancelled {
            RpcError::Cancelled
        } else {
            RpcError::DeadlineExceeded
        }
    }

    /// The same context, bound to a request.
    pub open spec fn for_request(self, request_id: u64) -> ContextView {
        ContextView { request_id, ..self }
    }
}

/// A context that is not active at some time is not active at any later time.
pub proof fn lemma_inactive_stays_inactive(ctx: ContextView, earlier: u64, later: u64)
    requires
        earlier <= later,
        !ctx.active_at(earlier),
    ensures
        !ctx.active_at(later),
{
}

impl Context {
    /// A fresh, active context with the given deadline, not yet bound to a request.
    pub fn new(deadline: Option<u64>) -> (ctx: Context)
        ensures
            ctx@ == (ContextView { request_id: 0, deadline, cancelled: false }),
    {
        Context { request_id: 0, deadline, cancelled: false }
    }

    /// The same context, bound to a request.
    pub fn for_request(self, request_id: u64) -> (ctx: Context)
        ensures
            ctx@ == self@.for_request(request_id),
    {
        Context { request_id, deadline: self.deadline, cancelled: self.cancelled }
    }

    pub fn request_id(&self) -> (id: u64)
        ensures
            id == self@.request_id,
    {
        self.request_id
    }

    pub fn deadline(&self) -> (deadline: Option<u64>)
        ensures
            deadline == self@.deadline,
    {
        self.deadline
    }

    pub fn is_cancelled(&self) -> (b: bool)
        ensures
            b == self@.cancelled,
    {
        self.cancelled
    }

    pub fn is_expired(&self, now: u64) -> (b: bool)
        ensures
            b == self@.expired_at(now),
    {
        match self.deadline {
            Some(deadline) => deadline <= now,
            None => false,
        }
    }

    pub fn is_active(&self, now: u64) -> (b: bool)
        ensures
            b == self@.active_at(now),
    {
        !self.cancelled && !self.is_expired(now)
    }

    /// Cancels the context. Cancelling again changes nothing, and a cancelled
    /// context is not active at any time.
    pub fn cancel(&mut self)
        ensures
            final(self)@ == (ContextView { cancelled: true, ..old(self)@ }),
            forall|now: u64| !final(self)@.active_at(now),
    {
        self.cancelled = true;
    }

    /// The error that ends a call whose context is no longer active.
    pub fn end_reason(&self) -> (e: RpcError)
        ensures
            e == self@.end_reason(),
    {
        if self.cancelled {
            RpcError::Cancelled
        } else {
            RpcError::DeadlineExceeded
        }
    }
}

} // verus!
