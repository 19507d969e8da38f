//! The ways a call can fail below the handler, and views of call results.

use vstd::prelude::*;

verus! {

/// A failure of the framework itself, as opposed to a failure that the
/// remote handler reported.
#[derive(Clone, Copy, Debug, PartialEq, Eq, Structural)]
pub enum RpcError {
    /// The connection could not be established.
    ConnectError,
    /// The transport failed or was closed; every call that was pending on it fails this way.
    TransportClosed,
    /// A frame or a payload could not be decoded.
    MalformedMessage,
    /// The server knows no operation of the requested name.
    UnknownOperation,
    /// The caller cancelled the call.
    Cancelled,
    /// The call's deadline passed before a response arrived.
    DeadlineExceeded,
}

/// What a handler returned, with its strings as sequences of characters.
pub open spec fn handler_result_view(r: Result<String, String>) -> Result<Seq<char>, Seq<char>> {
    match r {
        Ok(value) => Ok(value@),
        Err(reason) => Err(reason@),
    }
}

/// What a call returned to its caller: the handler's own result, or the
/// framework error that kept the call from getting one.
pub open spec fn call_result_view(r: Result<Result<String, String>, RpcError>) -> Result<
    Result<Seq<char>, Seq<char>>,
    RpcError,
> {
    match r {
        Ok(inner) => Ok(handler_result_view(inner)),
        Err(e) => Err(e),
    }
}

} // verus!
