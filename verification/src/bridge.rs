//! Per-call decision logic of the boundary entry points.
//!
//! Each entry point is a linear pipeline: decode, compute, encode or
//! deliver, with every failure intercepted and turned into an error
//! response or a rejection before anything crosses back over the boundary.
//! The functions here take the request buffer and return a complete plan
//! of what the unverified boundary layer must do: which bytes to return
//! at once, how long to wait, and what to deliver afterwards.

use vstd::prelude::*;

use crate::codec::decode_request;
use crate::codec::encode_payload;
use crate::codec::lemma_decoded_request_text_valid;
use crate::codec::encode_request;
use crate::codec::encode_response;
use crate::codec::lemma_response_round_trip;
use crate::codec::spec_decode_request;
use crate::codec::spec_decode_response;
use crate::codec::spec_encode_payload;
use crate::codec::spec_encode_request;
use crate::codec::spec_encode_response;
use crate::errors::DecodeError;
use crate::messages::spec_response_text_valid;
use crate::messages::Request;
use crate::messages::RequestModel;
use crate::messages::Response;
use crate::messages::ResponseModel;
use crate::service::bytes_eq;
use crate::service::compute_response;
use crate::service::decode_failure_reply;
use crate::service::decode_failure_text;
use crate::service::lemma_compute_response_text_valid;
use crate::service::lemma_service_texts_valid;
use crate::service::expected_message;
use crate::service::expected_message_bytes;
use crate::service::later_message;
use crate::service::later_message_bytes;
use crate::service::reply_message;
use crate::service::spec_compute_response;
use crate::service::unsupported_text;

verus! {

/// The response a blocking call returns for `b`: the computed one when the
/// buffer decodes, an error response when it does not.
pub open spec fn spec_blocking_reply(b: Seq<u8>) -> ResponseModel {
    match spec_decode_request(b) {
        Some(req) => spec_compute_response(req.message),
        None => ResponseModel::Error { error_message: decode_failure_text() },
    }
}

/// The delay a blocking call must let elapse before returning.
pub open spec fn spec_blocking_delay(b: Seq<u8>) -> u64 {
    match spec_decode_request(b) {
        Some(req) => req.response_delay,
        None => 0u64,
    }
}

/// Blocking entry point. Returns the delay to let elapse and the encoded
/// response bytes to hand back; it never fails, an undecodable buffer
/// becomes an encoded error response.
pub fn blocking_call(request_bytes: &Vec<u8>) -> (r: (u64, Vec<u8>))
    ensures
        r.0 == spec_blocking_delay(request_bytes@),
        r.1@ == spec_encode_response(spec_blocking_reply(request_bytes@)),
{
    match decode_request(request_bytes) {
        Ok(request) => {
            let response = compute_response(&request);
            (request.response_delay, encode_response(&response))
        },
        Err(_) => {
            let response = Response::Error { error_message: decode_failure_reply() };
            (0, encode_response(&response))
        },
    }
}

/// Whatever the blocking path replies is text-valued: the computed texts
/// are fixed literals, and an echoed message was itself decoded as text.
pub proof fn lemma_blocking_reply_text_valid(b: Seq<u8>)
    ensures
        spec_response_text_valid(spec_blocking_reply(b)),
{
    lemma_decoded_request_text_valid(b);
    match spec_decode_request(b) {
        Some(req) => lemma_compute_response_text_valid(req.message),
        None => lemma_service_texts_valid(),
    }
}

/// What a blocking call hands back always decodes again, to exactly the
/// response it was computed from: failure never yields a malformed buffer.
pub proof fn lemma_blocking_reply_well_formed(b: Seq<u8>)
    ensures
        spec_decode_response(spec_encode_response(spec_blocking_reply(b))) == Some(
            spec_blocking_reply(b),
        ),
{
    lemma_blocking_reply_text_valid(b);
    lemma_response_round_trip(spec_blocking_reply(b));
}

/// The work a non-blocking call schedules on the execution context: wait
/// out the delay, then deliver the response through the boundary promise.
pub struct AsyncPlan {
    /// Milliseconds to wait before delivering.
    pub delay_ms: u64,
    /// The response to deliver once the delay has elapsed.
    pub response: Response,
}

/// Non-blocking entry point, setup stage. An undecodable buffer is
/// rejected here, synchronously, before any promise exists; afterwards the
/// returned plan is the whole of the scheduled work.
pub fn plan_async_call(request_bytes: &Vec<u8>) -> (r: Result<AsyncPlan, DecodeError>)
    ensures
        match r {
            Ok(plan) => spec_decode_request(request_bytes@) matches Some(req)
                && plan.delay_ms == req.response_delay && plan.response@ == spec_compute_response(
                req.message,
            ),
            Err(_) => spec_decode_request(request_bytes@) is None,
        },
{
    match decode_request(request_bytes) {
        Ok(request) => {
            let response = compute_response(&request);
            Ok(AsyncPlan { delay_ms: request.response_delay, response })
        },
        Err(e) => Err(e),
    }
}

/// How a computed response reaches the host future: a success payload
/// completes it, an error description fails it.
pub enum CompletionAction {
    /// Complete the future with these encoded success-payload bytes.
    Complete { payload: Vec<u8> },
    /// Fail the future with an exception built from this description.
    CompleteExceptionally { error_message: Vec<u8> },
}

/// Decides how the response of a scheduled unit of work is delivered.
pub fn completion_action(response: Response) -> (r: CompletionAction)
    ensures
        (response@ matches ResponseModel::Success { message } ==> (r matches
        CompletionAction::Complete { payload } && payload@ == spec_encode_payload(message))),
        (response@ matches ResponseModel::Error { error_message } ==> (r matches
        CompletionAction::CompleteExceptionally { error_message: d } && d@ == error_message)),
{
    match response {
        Response::Success { message } => CompletionAction::Complete {
            payload: encode_payload(&message),
        },
        Response::Error { error_message } => CompletionAction::CompleteExceptionally {
            error_message,
        },
    }
}

/// Whether a buffer asks for the delayed-callback path: a decodable
/// request with the supported message and a positive delay.
pub open spec fn spec_sync_is_delayed(b: Seq<u8>) -> bool {
    match spec_decode_request(b) {
        Some(req) => req.message == expected_message() && req.response_delay > 0,
        None => false,
    }
}

/// The response a direct call returns at once.
pub open spec fn spec_sync_immediate_reply(b: Seq<u8>) -> ResponseModel {
    match spec_decode_request(b) {
        None => ResponseModel::Error { error_message: decode_failure_text() },
        Some(req) => if req.message != expected_message() {
            ResponseModel::Error { error_message: unsupported_text(req.message) }
        } else if req.response_delay == 0 {
            ResponseModel::Success { message: reply_message() }
        } else {
            ResponseModel::Success { message: later_message() }
        },
    }
}

/// The request the delayed callback carries back to the host object.
pub open spec fn spec_callback_request() -> RequestModel {
    RequestModel { message: reply_message(), response_delay: 0 }
}

/// The plan of a direct call: either reply at once, or reply that the
/// answer comes later and call back after the delay.
pub enum SyncPlan {
    /// Return these encoded response bytes; nothing else to do.
    Reply { response_bytes: Vec<u8> },
    /// Return `response_bytes` at once; after `delay_ms` milliseconds,
    /// invoke the host callback with `callback_request_bytes`.
    ReplyLater { response_bytes: Vec<u8>, delay_ms: u64, callback_request_bytes: Vec<u8> },
}

/// Direct entry point with optional delayed callback. Total: an
/// undecodable or unsupported buffer becomes an immediate error reply.
pub fn plan_sync_call(request_bytes: &Vec<u8>) -> (r: SyncPlan)
    ensures
        match r {
            SyncPlan::Reply { response_bytes } => !spec_sync_is_delayed(request_bytes@)
                && response_bytes@ == spec_encode_response(
                spec_sync_immediate_reply(request_bytes@),
            ),
            SyncPlan::ReplyLater { response_bytes, delay_ms, callback_request_bytes } => {
                &&& spec_sync_is_delayed(request_bytes@)
                &&& response_bytes@ == spec_encode_response(
                    spec_sync_immediate_reply(request_bytes@),
                )
                &&& delay_ms == spec_blocking_delay(request_bytes@)
                &&& callback_request_bytes@ == spec_encode_request(spec_callback_request())
            },
        },
{
    match decode_request(request_bytes) {
        Err(_) => {
            let response = Response::Error { error_message: decode_failure_reply() };
            SyncPlan::Reply { response_bytes: encode_response(&response) }
        },
        Ok(request) => {
            let expected = expected_message_bytes();
            if bytes_eq(&request.message, &expected) && request.response_delay > 0 {
                let response = Response::Success { message: later_message_bytes() };
                let callback = Request::message("Hello, Java!".to_owned());
                SyncPlan::ReplyLater {
                    response_bytes: encode_response(&response),
                    delay_ms: request.response_delay,
                    callback_request_bytes: encode_request(&callback),
                }
            } else {
                let response = compute_response(&request);
                SyncPlan::Reply { response_bytes: encode_response(&response) }
            }
        },
    }
}

} // verus!
