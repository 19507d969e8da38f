//! The wire codec: envelopes and payloads, and the bytes that carry them.
//!
//! A request frame is the request id (eight bytes, little-endian), the
//! deadline (one byte 0, or one byte 1 and eight bytes), the operation name
//! (its length in eight bytes, then its UTF-8 bytes) and the payload, which
//! runs to the end of the frame. A response frame is the request id and the
//! payload. A reply payload is one tag byte (0 success, 1 refusal by the
//! handler, 2 unknown operation) and, for the first two, the UTF-8 bytes of
//! the text. Arguments travel as nothing (`ping`), as UTF-8 bytes (`echo`) or
//! as eight bytes (`delay`).

use vstd::prelude::*;
use vstd::bytes::{
    lemma_auto_spec_u64_to_from_le_bytes,
    spec_u64_from_le_bytes,
    spec_u64_to_le_bytes,
    u64_from_le_bytes,
    u64_to_le_bytes,
};
use vstd::slice::{slice_subrange, slice_to_vec};
use vstd::utf8::decode_utf8_encode_utf8;
use crate::error::RpcError;
use crate::service::{Call, CallView, Operation};
use crate::text::{
    append_bytes,
    append_text,
    lemma_text_roundtrip,
    parse_text,
    read_text,
    text_bytes,
};

verus! {

/// A request on its way to the server.
#[derive(Clone, Debug, PartialEq, Eq)]
pub struct RequestEnvelope {
    pub request_id: u64,
    pub operation: String,
    pub deadline: Option<u64>,
    pub payload: Vec<u8>,
}

pub struct RequestView {
    pub request_id: u64,
    pub operation: Seq<char>,
    pub deadline: Option<u64>,
    pub payload: Seq<u8>,
}

impl View for RequestEnvelope {
    type V = RequestView;

    open spec fn view(&self) -> RequestView {
        RequestView {
            request_id: self.request_id,
            operation: self.operation@,
            deadline: self.deadline,
            payload: self.payload@,
        }
    }
}

/// A response on its way back; `request_id` is that of the request it answers.
#[derive(Clone, Debug, PartialEq, Eq)]
pub struct ResponseEnvelope {
    pub request_id: u64,
    pub payload: Vec<u8>,
}

pub struct ResponseView {
    pub request_id: u64,
    pub payload: Seq<u8>,
}

impl View for ResponseEnvelope {
    type V = ResponseView;

    open spec fn view(&self) -> ResponseView {
        ResponseView { request_id: self.request_id, payload: self.payload@ }
    }
}

/// What a response payload says.
#[derive(Clone, Debug, PartialEq, Eq)]
pub enum Reply {
    /// The handler's value.
    Success(String),
    /// The handler's reason for refusing.
    Failure(String),
    /// The server has no operation of the requested name.
    UnknownOperation,
}

pub enum ReplyView {
    Success(Seq<char>),
    Failure(Seq<char>),
    UnknownOperation,
}

impl View for Reply {
    type V = ReplyView;

    open spec fn view(&self) -> ReplyView {
        match *self {
            Reply::Success(value) => ReplyView::Success(value@),
            Reply::Failure(reason) => ReplyView::Failure(reason@),
            Reply::UnknownOperation => ReplyView::UnknownOperation,
        }
    }
}

impl ReplyView {
    /// The reply that carries a handler's result.
    pub open spec fn of_handler(result: Result<Seq<char>, Seq<char>>) -> ReplyView {
        match result {
            Ok(value) => ReplyView::Success(value),
            Err(reason) => ReplyView::Failure(reason),
        }
    }

    /// What the caller gets for a reply: the handler's result as it was
    /// given, or the framework's error.
    pub open spec fn call_result(self) -> Result<Result<Seq<char>, Seq<char>>, RpcError> {
        match self {
            ReplyView::Success(value) => Ok(Ok(value)),
            ReplyView::Failure(reason) => Ok(Err(reason)),
            ReplyView::UnknownOperation => Err(RpcError::UnknownOperation),
        }
    }
}

// Writing

/// Eight bytes for a number, least significant byte first.
pub open spec fn word_bytes(x: u64) -> Seq<u8> {
    spec_u64_to_le_bytes(x)
}

pub open spec fn deadline_bytes(deadline: Option<u64>) -> Seq<u8> {
    match deadline {
        None => seq![0u8],
        Some(t) => seq![1u8] + word_bytes(t),
    }
}

/// Bytes behind their own length.
pub open spec fn block_bytes(b: Seq<u8>) -> Seq<u8> {
    word_bytes(b.len() as u64) + b
}

pub open spec fn request_bytes(r: RequestView) -> Seq<u8> {
    word_bytes(r.request_id) + (deadline_bytes(r.deadline) + (block_bytes(text_bytes(r.operation))
        + r.payload))
}

pub open spec fn response_bytes(r: ResponseView) -> Seq<u8> {
    word_bytes(r.request_id) + r.payload
}

pub open spec fn reply_bytes(r: ReplyView) -> Seq<u8> {
    match r {
        ReplyView::Success(value) => seq![0u8] + text_bytes(value),
        ReplyView::Failure(reason) => seq![1u8] + text_bytes(reason),
        ReplyView::UnknownOperation => seq![2u8],
    }
}

pub open spec fn args_bytes(call: CallView) -> Seq<u8> {
    match call {
        CallView::Ping => Seq::empty(),
        CallView::Echo(value) => text_bytes(value),
        CallView::Delay(duration) => word_bytes(duration),
    }
}

// Reading. Each `take_` function reads one item from the front and gives it
// back with the bytes that follow it.

pub open spec fn take_word(b: Seq<u8>) -> Option<(u64, Seq<u8>)> {
    if b.len() < 8 {
        None
    } else {
        Some((spec_u64_from_le_bytes(b.take(8)), b.skip(8)))
    }
}

pub open spec fn take_deadline(b: Seq<u8>) -> Option<(Option<u64>, Seq<u8>)> {
    if b.len() == 0 {
        None
    } else if b[0] == 0 {
        Some((None, b.skip(1)))
    } else if b[0] == 1 {
        match take_word(b.skip(1)) {
            Some((t, rest)) => Some((Some(t), rest)),
            None => None,
        }
    } else {
        None
    }
}

pub open spec fn take_block(b: Seq<u8>) -> Option<(Seq<u8>, Seq<u8>)> {
    match take_word(b) {
        Some((n, rest)) => if n <= rest.len() {
            Some((rest.take(n as int), rest.skip(n as int)))
        } else {
            None
        },
        None => None,
    }
}

/// The request that a frame carries, if it is well-formed.
pub open spec fn parse_request(b: Seq<u8>) -> Option<RequestView> {
    match take_word(b) {
        Some((request_id, b1)) => match take_deadline(b1) {
            Some((deadline, b2)) => match take_block(b2) {
                Some((name, payload)) => match parse_text(name) {
                    Some(operation) => Some(
                        RequestView { request_id, operation, deadline, payload },
                    ),
                    None => None,
                },
                None => None,
            },
            None => None,
        },
        None => None,
    }
}

/// The response that a frame carries, if it is well-formed.
pub open spec fn parse_response(b: Seq<u8>) -> Option<ResponseView> {
    match take_word(b) {
        Some((request_id, payload)) => Some(ResponseView { request_id, payload }),
        None => None,
    }
}

/// The reply that a response payload carries, if it is well-formed.
pub open spec fn parse_reply(b: Seq<u8>) -> Option<ReplyView> {
    if b.len() == 0 {
        None
    } else if b[0] == 0 {
        match parse_text(b.skip(1)) {
            Some(value) => Some(ReplyView::Success(value)),
            None => None,
        }
    } else if b[0] == 1 {
        match parse_text(b.skip(1)) {
            Some(reason) => Some(ReplyView::Failure(reason)),
            None => None,
        }
    } else if b[0] == 2 && b.len() == 1 {
        Some(ReplyView::UnknownOperation)
    } else {
        None
    }
}

/// The call that a request payload carries for an operation, if it is well-formed.
pub open spec fn parse_args(op: Operation, b: Seq<u8>) -> Option<CallView> {
    match op {
        Operation::Ping => if b.len() == 0 {
            Some(CallView::Ping)
        } else {
            None
        },
        Operation::Echo => match parse_text(b) {
            Some(value) => Some(CallView::Echo(value)),
            None => None,
        },
        Operation::Delay => if b.len() == 8 {
            Some(CallView::Delay(spec_u64_from_le_bytes(b)))
        } else {
            None
        },
    }
}

// Round trips

proof fn lemma_take_word(x: u64, rest: Seq<u8>)
    ensures
        take_word(word_bytes(x) + rest) == Some((x, rest)),
{
    lemma_auto_spec_u64_to_from_le_bytes();
    let b = word_bytes(x) + rest;
    assert(b.take(8) =~= word_bytes(x));
    assert(b.skip(8) =~= rest);
}

proof fn lemma_take_deadline(deadline: Option<u64>, rest: Seq<u8>)
    ensures
        take_deadline(deadline_bytes(deadline) + rest) == Some((deadline, rest)),
{
    let b = deadline_bytes(deadline) + rest;
    match deadline {
        None => {
            assert(b.skip(1) =~= rest);
        },
        Some(t) => {
            assert(b.skip(1) =~= word_bytes(t) + rest);
            lemma_take_word(t, rest);
        },
    }
}

proof fn lemma_take_block(block: Seq<u8>, rest: Seq<u8>)
    requires
        block.len() <= u64::MAX,
    ensures
        take_block(block_bytes(block) + rest) == Some((block, rest)),
{
    let b = block_bytes(block) + rest;
    assert(b =~= word_bytes(block.len() as u64) + (block + rest));
    lemma_take_word(block.len() as u64, block + rest);
    assert((block + rest).take(block.len() as int) =~= block);
    assert((block + rest).skip(block.len() as int) =~= rest);
}

/// A request is read back from its frame, whatever it holds, as long as the
/// length of its operation name fits in the eight bytes that carry it.
pub proof fn lemma_request_roundtrip(r: RequestView)
    requires
        text_bytes(r.operation).len() <= u64::MAX,
    ensures
        parse_request(request_bytes(r)) == Some(r),
{
    let name = text_bytes(r.operation);
    let b2 = block_bytes(name) + r.payload;
    let b1 = deadline_bytes(r.deadline) + b2;
    lemma_take_word(r.request_id, b1);
    lemma_take_deadline(r.deadline, b2);
    lemma_take_block(name, r.payload);
    lemma_text_roundtrip(r.operation);
}

/// A response is read back from its frame.
pub proof fn lemma_response_roundtrip(r: ResponseView)
    ensures
        parse_response(response_bytes(r)) == Some(r),
{
    lemma_take_word(r.request_id, r.payload);
}

/// A reply is read back from its payload.
pub proof fn lemma_reply_roundtrip(r: ReplyView)
    ensures
        parse_reply(reply_bytes(r)) == Some(r),
{
    let b = reply_bytes(r);
    match r {
        ReplyView::Success(value) => {
            assert(b.skip(1) =~= text_bytes(value));
            lemma_text_roundtrip(value);
        },
        ReplyView::Failure(reason) => {
            assert(b.skip(1) =~= text_bytes(reason));
            lemma_text_roundtrip(reason);
        },
        ReplyView::UnknownOperation => {},
    }
}

/// A call is read back from its payload, under its own operation.
pub proof fn lemma_args_roundtrip(call: CallView)
    ensures
        parse_args(call.operation(), args_bytes(call)) == Some(call),
{
    lemma_auto_spec_u64_to_from_le_bytes();
    match call {
        CallView::Ping => {},
        CallView::Echo(value) => {
            lemma_text_roundtrip(value);
        },
        CallView::Delay(duration) => {},
    }
}

proof fn lemma_word_taken(b: Seq<u8>)
    requires
        take_word(b) is Some,
    ensures
        b == word_bytes(take_word(b).unwrap().0) + take_word(b).unwrap().1,
{
    lemma_auto_spec_u64_to_from_le_bytes();
    assert(b =~= b.take(8) + b.skip(8));
}

/// A request frame has one meaning and one spelling: a frame that parses
/// is, byte for byte, the frame of the request it parses to.
pub proof fn lemma_request_frame_unique(b: Seq<u8>)
    requires
        parse_request(b) is Some,
    ensures
        request_bytes(parse_request(b).unwrap()) == b,
{
    let (request_id, b1) = take_word(b).unwrap();
    let (deadline, b2) = take_deadline(b1).unwrap();
    let (name, payload) = take_block(b2).unwrap();
    lemma_word_taken(b);
    assert(b1 == deadline_bytes(deadline) + b2) by {
        if b1[0] == 0 {
            assert(b1 =~= seq![0u8] + b1.skip(1));
        } else {
            lemma_word_taken(b1.skip(1));
            assert(b1 =~= seq![1u8] + b1.skip(1));
            assert(b1 =~= seq![1u8] + word_bytes(take_word(b1.skip(1)).unwrap().0) + b2);
        }
    }
    assert(b2 == block_bytes(name) + payload) by {
        lemma_word_taken(b2);
        let rest = take_word(b2).unwrap().1;
        assert(rest =~= name + payload);
        assert(b2 =~= word_bytes(name.len() as u64) + name + payload);
    }
    decode_utf8_encode_utf8(name);
}

/// A response frame has one meaning and one spelling: a frame that parses
/// is, byte for byte, the frame of the response it parses to.
pub proof fn lemma_response_frame_unique(b: Seq<u8>)
    requires
        parse_response(b) is Some,
    ensures
        response_bytes(parse_response(b).unwrap()) == b,
{
    lemma_word_taken(b);
}

/// A reply payload has one meaning and one spelling.
pub proof fn lemma_reply_payload_unique(b: Seq<u8>)
    requires
        parse_reply(b) is Some,
    ensures
        reply_bytes(parse_reply(b).unwrap()) == b,
{
    if b[0] == 0 || b[0] == 1 {
        decode_utf8_encode_utf8(b.skip(1));
        assert(b =~= seq![b[0]] + b.skip(1));
    } else {
        assert(b =~= seq![2u8]);
    }
}

// Executable writers

fn append_word(out: &mut Vec<u8>, x: u64)
    ensures
        final(out)@ == old(out)@ + word_bytes(x),
{
    let word = u64_to_le_bytes(x);
    append_bytes(out, word.as_slice());
}

pub fn encode_request(request: &RequestEnvelope) -> (frame: Vec<u8>)
    ensures
        frame@ == request_bytes(request@),
{
    let mut frame: Vec<u8> = Vec::new();
    append_word(&mut frame, request.request_id);
    match request.deadline {
        None => {
            frame.push(0);
        },
        Some(t) => {
            frame.push(1);
            append_word(&mut frame, t);
        },
    }
    let ghost head = frame@;
    assert(head =~= word_bytes(request.request_id) + deadline_bytes(request.deadline));
    let name = request.operation.as_str().as_bytes();
    append_word(&mut frame, name.len() as u64);
    append_bytes(&mut frame, name);
    append_bytes(&mut frame, request.payload.as_slice());
    assert(frame@ =~= request_bytes(request@));
    frame
}

pub fn encode_response(response: &ResponseEnvelope) -> (frame: Vec<u8>)
    ensures
        frame@ == response_bytes(response@),
{
    let mut frame: Vec<u8> = Vec::new();
    append_word(&mut frame, response.request_id);
    append_bytes(&mut frame, response.payload.as_slice());
    assert(frame@ =~= response_bytes(response@));
    frame
}

pub fn encode_reply(reply: &Reply) -> (payload: Vec<u8>)
    ensures
        payload@ == reply_bytes(reply@),
{
    let mut payload: Vec<u8> = Vec::new();
    match reply {
        Reply::Success(value) => {
            payload.push(0);
            append_text(&mut payload, value.as_str());
        },
        Reply::Failure(reason) => {
            payload.push(1);
            append_text(&mut payload, reason.as_str());
        },
        Reply::UnknownOperation => {
            payload.push(2);
        },
    }
    assert(payload@ =~= reply_bytes(reply@));
    payload
}

pub fn encode_args(call: &Call) -> (payload: Vec<u8>)
    ensures
        payload@ == args_bytes(call@),
{
    let mut payload: Vec<u8> = Vec::new();
    match call {
        Call::Ping => {},
        Call::Echo(value) => {
            append_text(&mut payload, value.as_str());
        },
        Call::Delay(duration) => {
            append_word(&mut payload, *duration);
        },
    }
    assert(payload@ =~= args_bytes(call@));
    payload
}

// Executable readers. Each reads at a position and gives back the position
// behind what it read.

fn read_word(bytes: &[u8], at: usize) -> (r: Option<(u64, usize)>)
    requires
        at <= bytes@.len(),
    ensures
        match take_word(bytes@.skip(at as int)) {
            Some((x, rest)) => r == Some((x, (at + 8) as usize)) && at + 8 <= bytes@.len() && rest
                == bytes@.skip(at + 8),
            None => r is None,
        },
{
    let ghost tail = bytes@.skip(at as int);
    if bytes.len() - at < 8 {
        return None;
    }
    let word = slice_subrange(bytes, at, at + 8);
    assert(word@ =~= tail.take(8));
    assert(tail.skip(8) =~= bytes@.skip(at + 8));
    Some((u64_from_le_bytes(word), at + 8))
}

fn read_deadline(bytes: &[u8], at: usize) -> (r: Option<(Option<u64>, usize)>)
    requires
        at <= bytes@.len(),
    ensures
        match take_deadline(bytes@.skip(at as int)) {
            Some((deadline, rest)) => r matches Some((d, next)) && d == deadline && at <= next
                <= bytes@.len() && rest == bytes@.skip(next as int),
            None => r is None,
        },
{
    let ghost tail = bytes@.skip(at as int);
    if at == bytes.len() {
        return None;
    }
    let flag = bytes[at];
    assert(flag == tail[0]);
    assert(tail.skip(1) =~= bytes@.skip(at + 1));
    if flag == 0 {
        Some((None, at + 1))
    } else if flag == 1 {
        match read_word(bytes, at + 1) {
            Some((t, next)) => Some((Some(t), next)),
            None => None,
        }
    } else {
        None
    }
}

fn read_block<'a>(bytes: &'a [u8], at: usize) -> (r: Option<(&'a [u8], usize)>)
    requires
        at <= bytes@.len(),
    ensures
        match take_block(bytes@.skip(at as int)) {
            Some((block, rest)) => r matches Some((b, next)) && b@ == block && at <= next
                <= bytes@.len() && rest == bytes@.skip(next as int),
            None => r is None,
        },
{
    match read_word(bytes, at) {
        Some((n, start)) => {
            if n > (bytes.len() - start) as u64 {
                return None;
            }
            let end = start + n as usize;
            let block = slice_subrange(bytes, start, end);
            assert(block@ =~= bytes@.skip(start as int).take(n as int));
            assert(bytes@.skip(start as int).skip(n as int) =~= bytes@.skip(end as int));
            Some((block, end))
        },
        None => None,
    }
}

pub open spec fn request_result_view(r: Result<RequestEnvelope, RpcError>) -> Result<
    RequestView,
    RpcError,
> {
    match r {
        Ok(request) => Ok(request@),
        Err(e) => Err(e),
    }
}

pub open spec fn response_result_view(r: Result<ResponseEnvelope, RpcError>) -> Result<
    ResponseView,
    RpcError,
> {
    match r {
        Ok(response) => Ok(response@),
        Err(e) => Err(e),
    }
}

pub open spec fn reply_result_view(r: Result<Reply, RpcError>) -> Result<ReplyView, RpcError> {
    match r {
        Ok(reply) => Ok(reply@),
        Err(e) => Err(e),
    }
}

pub open spec fn call_result_of(r: Result<Call, RpcError>) -> Result<CallView, RpcError> {
    match r {
        Ok(call) => Ok(call@),
        Err(e) => Err(e),
    }
}

/// What decoding gives for a parse: the value, or `MalformedMessage`.
pub open spec fn decoded<T>(parsed: Option<T>) -> Result<T, RpcError> {
    match parsed {
        Some(value) => Ok(value),
        None => Err(RpcError::MalformedMessage),
    }
}

pub fn decode_request(frame: &[u8]) -> (r: Result<RequestEnvelope, RpcError>)
    ensures
        request_result_view(r) == decoded(parse_request(frame@)),
{
    assert(frame@.skip(0) =~= frame@);
    let (request_id, at) = match read_word(frame, 0) {
        Some(x) => x,
        None => {
            return Err(RpcError::MalformedMessage);
        },
    };
    let (deadline, at) = match read_deadline(frame, at) {
        Some(x) => x,
        None => {
            return Err(RpcError::MalformedMessage);
        },
    };
    let (name, at) = match read_block(frame, at) {
        Some(x) => x,
        None => {
            return Err(RpcError::MalformedMessage);
        },
    };
    let operation = match read_text(name) {
        Some(s) => s,
        None => {
            return Err(RpcError::MalformedMessage);
        },
    };
    let payload = slice_to_vec(slice_subrange(frame, at, frame.len()));
    assert(payload@ =~= frame@.skip(at as int));
    Ok(RequestEnvelope { request_id, operation, deadline, payload })
}

pub fn decode_response(frame: &[u8]) -> (r: Result<ResponseEnvelope, RpcError>)
    ensures
        response_result_view(r) == decoded(parse_response(frame@)),
{
    assert(frame@.skip(0) =~= frame@);
    match read_word(frame, 0) {
        Some((request_id, at)) => {
            let payload = slice_to_vec(slice_subrange(frame, at, frame.len()));
            assert(payload@ =~= frame@.skip(at as int));
            Ok(ResponseEnvelope { request_id, payload })
        },
        None => Err(RpcError::MalformedMessage),
    }
}

pub fn decode_reply(payload: &[u8]) -> (r: Result<Reply, RpcError>)
    ensures
        reply_result_view(r) == decoded(parse_reply(payload@)),
{
    if payload.len() == 0 {
        return Err(RpcError::MalformedMessage);
    }
    let tag = payload[0];
    let body = slice_subrange(payload, 1, payload.len());
    assert(body@ =~= payload@.skip(1));
    if tag == 0 {
        match read_text(body) {
            Some(value) => Ok(Reply::Success(value)),
            None => Err(RpcError::MalformedMessage),
        }
    } else if tag == 1 {
        match read_text(body) {
            Some(reason) => Ok(Reply::Failure(reason)),
            None => Err(RpcError::MalformedMessage),
        }
    } else if tag == 2 && payload.len() == 1 {
        Ok(Reply::UnknownOperation)
    } else {
        Err(RpcError::MalformedMessage)
    }
}

pub fn decode_args(op: Operation, payload: &[u8]) -> (r: Result<Call, RpcError>)
    ensures
        call_result_of(r) == decoded(parse_args(op, payload@)),
{
    match op {
        Operation::Ping => {
            if payload.len() == 0 {
                Ok(Call::Ping)
            } else {
                Err(RpcError::MalformedMessage)
            }
        },
        Operation::Echo => {
            match read_text(payload) {
                Some(value) => Ok(Call::Echo(value)),
                None => Err(RpcError::MalformedMessage),
            }
        },
        Operation::Delay => {
            if payload.len() == 8 {
                Ok(Call::Delay(u64_from_le_bytes(payload)))
            } else {
                Err(RpcError::MalformedMessage)
            }
        },
    }
}

} // verus!
