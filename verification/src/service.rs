//! The toy greeting computation run by the execution context.
//!
//! One message is supported; it is answered with a fixed reply after the
//! requested delay has elapsed. Any other message yields an error response
//! naming the unsupported input.

use vstd::prelude::*;

use vstd::string::StrSliceExecFns;
use vstd::utf8::encode_utf8;
use vstd::utf8::encode_utf8_valid_utf8;
use vstd::utf8::valid_utf8;
use vstd::utf8::valid_utf8_concat;

use crate::messages::spec_response_text_valid;
use crate::messages::Request;
use crate::messages::Response;
use crate::messages::ResponseModel;

verus! {

/// UTF-8 bytes of the one supported request message.
pub open spec fn expected_message() -> Seq<u8> {
    encode_utf8("Hello, Rust!"@)
}

/// UTF-8 bytes of the fixed reply to the supported message.
pub open spec fn reply_message() -> Seq<u8> {
    encode_utf8("Hello, Java!"@)
}

/// UTF-8 bytes of the immediate reply on the delayed-callback path.
pub open spec fn later_message() -> Seq<u8> {
    encode_utf8("Will reply later!"@)
}

/// UTF-8 bytes of the error text naming an unsupported input message.
pub open spec fn unsupported_text(message: Seq<u8>) -> Seq<u8> {
    encode_utf8("Unable to respond to '"@) + message + encode_utf8("'"@)
}

/// UTF-8 bytes of the error text for an undecodable request buffer.
pub open spec fn decode_failure_text() -> Seq<u8> {
    encode_utf8("Unable to decode request"@)
}

/// The response owed to a request carrying `message`.
pub open spec fn spec_compute_response(message: Seq<u8>) -> ResponseModel {
    if message == expected_message() {
        ResponseModel::Success { message: reply_message() }
    } else {
        ResponseModel::Error { error_message: unsupported_text(message) }
    }
}

/// The service's fixed texts are valid UTF-8.
pub proof fn lemma_service_texts_valid()
    ensures
        valid_utf8(expected_message()),
        valid_utf8(reply_message()),
        valid_utf8(later_message()),
        valid_utf8(decode_failure_text()),
{
    encode_utf8_valid_utf8("Hello, Rust!"@);
    encode_utf8_valid_utf8("Hello, Java!"@);
    encode_utf8_valid_utf8("Will reply later!"@);
    encode_utf8_valid_utf8("Unable to decode request"@);
}

/// The error text naming a text-valued message is itself text.
pub proof fn lemma_unsupported_text_valid(message: Seq<u8>)
    requires
        valid_utf8(message),
    ensures
        valid_utf8(unsupported_text(message)),
{
    encode_utf8_valid_utf8("Unable to respond to '"@);
    encode_utf8_valid_utf8("'"@);
    valid_utf8_concat(encode_utf8("Unable to respond to '"@), message);
    valid_utf8_concat(encode_utf8("Unable to respond to '"@) + message, encode_utf8("'"@));
}

/// The computation answers a text-valued message with a text-valued
/// response, success or error.
pub proof fn lemma_compute_response_text_valid(message: Seq<u8>)
    requires
        valid_utf8(message),
    ensures
        spec_response_text_valid(spec_compute_response(message)),
{
    lemma_service_texts_valid();
    lemma_unsupported_text_valid(message);
}

/// Byte-for-byte equality of two buffers.
pub fn bytes_eq(a: &Vec<u8>, b: &Vec<u8>) -> (r: bool)
    ensures
        r == (a@ == b@),
{
    if a.len() != b.len() {
        return false;
    }
    let mut i: usize = 0;
    while i < a.len()
        invariant
            i <= a@.len(),
            a@.len() == b@.len(),
            forall|k: int| 0 <= k < i ==> a@[k] == b@[k],
        decreases a@.len() - i,
    {
        if *vstd::std_specs::vec::vec_index(a, i) != *vstd::std_specs::vec::vec_index(b, i) {
            return false;
        }
        i = i + 1;
    }
    assert(a@ =~= b@);
    true
}

/// The supported message, as bytes.
pub fn expected_message_bytes() -> (r: Vec<u8>)
    ensures
        r@ == expected_message(),
{
    "Hello, Rust!".as_bytes_vec()
}

/// The fixed reply, as bytes.
pub fn reply_message_bytes() -> (r: Vec<u8>)
    ensures
        r@ == reply_message(),
{
    "Hello, Java!".as_bytes_vec()
}

/// The immediate reply of the delayed-callback path, as bytes.
pub fn later_message_bytes() -> (r: Vec<u8>)
    ensures
        r@ == later_message(),
{
    "Will reply later!".as_bytes_vec()
}

/// The error text naming an unsupported input, as bytes.
pub fn unsupported_reply(message: &Vec<u8>) -> (r: Vec<u8>)
    ensures
        r@ == unsupported_text(message@),
{
    let mut out = "Unable to respond to '".as_bytes_vec();
    out.extend_from_slice(message.as_slice());
    let mut quote = "'".as_bytes_vec();
    out.append(&mut quote);
    assert(out@ =~= unsupported_text(message@));
    out
}

/// The error text for an undecodable buffer, as bytes.
pub fn decode_failure_reply() -> (r: Vec<u8>)
    ensures
        r@ == decode_failure_text(),
{
    "Unable to decode request".as_bytes_vec()
}

/// Runs the computation on a decoded request. Total: every request gets
/// exactly the response `spec_compute_response` owes it.
pub fn compute_response(request: &Request) -> (r: Response)
    ensures
        r@ == spec_compute_response(request@.message),
{
    let expected = expected_message_bytes();
    if bytes_eq(&request.message, &expected) {
        Response::Success { message: reply_message_bytes() }
    } else {
        Response::Error { error_message: unsupported_reply(&request.message) }
    }
}

} // verus!
