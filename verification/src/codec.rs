//! Binary codec for the envelope.
//!
//! The wire format is the protocol-buffer one. A `Request` is field 1
//! (length-delimited message text) followed by field 2 (varint delay);
//! a `Response` is exactly one of field 1 (success) or field 2 (error),
//! a length-delimited submessage whose own field 1 is the payload text.
//! Writing is canonical: fields in ascending order, defaults omitted,
//! minimal varints. Reading accepts exactly the canonical forms, so that
//! decoding is a two-sided inverse of encoding.

use vstd::prelude::*;

use vstd::slice::slice_subrange;
use vstd::slice::slice_to_vec;

use crate::errors::DecodeError;
use vstd::utf8::valid_utf8;

use crate::messages::spec_request_text_valid;
use crate::messages::spec_response_text_valid;
use crate::messages::Request;
use crate::messages::RequestModel;
use crate::messages::Response;
use crate::messages::ResponseModel;
use crate::text::check_utf8;
use crate::varint::dec_varint;
use crate::varint::dec_varint_u64;
use crate::varint::lemma_varint_round_trip;
use crate::varint::read_varint;
use crate::varint::varint;
use crate::varint::write_varint;

verus! {

/// Field 1 of a request, wire type 2: the message text.
pub const TAG_REQUEST_MESSAGE: u8 = 0x0A;

/// Field 2 of a request, wire type 0: the delay in milliseconds.
pub const TAG_REQUEST_DELAY: u8 = 0x10;

/// Field 1 of a response, wire type 2: the success submessage.
pub const TAG_RESPONSE_SUCCESS: u8 = 0x0A;

/// Field 2 of a response, wire type 2: the error submessage.
pub const TAG_RESPONSE_ERROR: u8 = 0x12;

/// Field 1 of a success or error submessage, wire type 2: its text.
pub const TAG_PAYLOAD_MESSAGE: u8 = 0x0A;

/// Reads one length-delimited chunk from the front of `b`: the chunk and
/// the remainder of the input.
pub open spec fn dec_len_prefixed(b: Seq<u8>) -> Option<(Seq<u8>, Seq<u8>)> {
    match dec_varint(b) {
        Some((len, rest)) => if len <= rest.len() {
            Some((rest.take(len as int), rest.skip(len as int)))
        } else {
            None
        },
        None => None,
    }
}

/// A length prefix that cannot be read as a bounded varint heads no
/// well-formed chunk: an overlong value always exceeds what is left.
pub proof fn lemma_len_prefixed_err(b: Seq<u8>)
    requires
        dec_varint_u64(b) is None,
        b.len() <= u64::MAX,
    ensures
        dec_len_prefixed(b) is None,
{
    crate::varint::lemma_dec_varint_rest(b);
}

/// Canonical encoding of a request: each field present exactly when it is
/// not the default.
pub open spec fn spec_encode_request(m: RequestModel) -> Seq<u8> {
    (if m.message.len() == 0 {
        Seq::<u8>::empty()
    } else {
        seq![TAG_REQUEST_MESSAGE] + varint(m.message.len()) + m.message
    }) + (if m.response_delay == 0 {
        Seq::<u8>::empty()
    } else {
        seq![TAG_REQUEST_DELAY] + varint(m.response_delay as nat)
    })
}

/// Reads a request, accepting exactly the canonical encodings whose
/// message field is text: a payload that is not valid UTF-8 violates the
/// schema and is rejected.
pub open spec fn spec_decode_request(b: Seq<u8>) -> Option<RequestModel> {
    let step1 = if b.len() > 0 && b[0] == TAG_REQUEST_MESSAGE {
        match dec_len_prefixed(b.skip(1)) {
            Some((payload, rest)) => if payload.len() > 0 && valid_utf8(payload) {
                Some((payload, rest))
            } else {
                None
            },
            None => None,
        }
    } else {
        Some((Seq::<u8>::empty(), b))
    };
    match step1 {
        Some((message, rest1)) => {
            let step2 = if rest1.len() > 0 && rest1[0] == TAG_REQUEST_DELAY {
                match dec_varint_u64(rest1.skip(1)) {
                    Some((d, rest2)) => if d > 0 {
                        Some((d, rest2))
                    } else {
                        None
                    },
                    None => None,
                }
            } else {
                Some((0u64, rest1))
            };
            match step2 {
                Some((delay, rest2)) => if rest2.len() == 0 {
                    Some(RequestModel { message, response_delay: delay })
                } else {
                    None
                },
                None => None,
            }
        },
        None => None,
    }
}

/// Canonical encoding of a success or error submessage.
pub open spec fn spec_encode_payload(m: Seq<u8>) -> Seq<u8> {
    if m.len() == 0 {
        Seq::<u8>::empty()
    } else {
        seq![TAG_PAYLOAD_MESSAGE] + varint(m.len()) + m
    }
}

/// Reads a submessage, accepting exactly the canonical encodings whose
/// text field is valid UTF-8.
pub open spec fn spec_decode_payload(b: Seq<u8>) -> Option<Seq<u8>> {
    if b.len() == 0 {
        Some(Seq::<u8>::empty())
    } else if b[0] == TAG_PAYLOAD_MESSAGE {
        match dec_len_prefixed(b.skip(1)) {
            Some((payload, rest)) => if payload.len() > 0 && rest.len() == 0 && valid_utf8(
                payload,
            ) {
                Some(payload)
            } else {
                None
            },
            None => None,
        }
    } else {
        None
    }
}

/// Canonical encoding of a response: exactly one submessage field.
pub open spec fn spec_encode_response(r: ResponseModel) -> Seq<u8> {
    match r {
        ResponseModel::Success { message } => seq![TAG_RESPONSE_SUCCESS] + varint(
            spec_encode_payload(message).len(),
        ) + spec_encode_payload(message),
        ResponseModel::Error { error_message } => seq![TAG_RESPONSE_ERROR] + varint(
            spec_encode_payload(error_message).len(),
        ) + spec_encode_payload(error_message),
    }
}

/// Reads a response, accepting exactly the canonical encodings.
pub open spec fn spec_decode_response(b: Seq<u8>) -> Option<ResponseModel> {
    if b.len() > 0 && (b[0] == TAG_RESPONSE_SUCCESS || b[0] == TAG_RESPONSE_ERROR) {
        match dec_len_prefixed(b.skip(1)) {
            Some((payload, rest)) => if rest.len() == 0 {
                match spec_decode_payload(payload) {
                    Some(m) => if b[0] == TAG_RESPONSE_SUCCESS {
                        Some(ResponseModel::Success { message: m })
                    } else {
                        Some(ResponseModel::Error { error_message: m })
                    },
                    None => None,
                }
            } else {
                None
            },
            None => None,
        }
    } else {
        None
    }
}

/// Round trip: reading back a written request yields the same value, for
/// every request whose message is text.
pub proof fn lemma_request_round_trip(m: RequestModel)
    requires
        spec_request_text_valid(m),
    ensures
        spec_decode_request(spec_encode_request(m)) == Some(m),
{
    let b = spec_encode_request(m);
    let tail = if m.response_delay == 0 {
        Seq::<u8>::empty()
    } else {
        seq![TAG_REQUEST_DELAY] + varint(m.response_delay as nat)
    };
    if m.message.len() == 0 {
        assert(m.message =~= Seq::<u8>::empty());
        assert(b =~= tail);
        if m.response_delay == 0 {
            assert(b.len() == 0);
        } else {
            assert(b[0] == TAG_REQUEST_DELAY);
            assert(b.skip(1) =~= varint(m.response_delay as nat) + Seq::<u8>::empty());
            lemma_varint_round_trip(m.response_delay as nat, Seq::<u8>::empty());
        }
    } else {
        assert(b[0] == TAG_REQUEST_MESSAGE);
        assert(b.skip(1) =~= varint(m.message.len()) + (m.message + tail));
        lemma_varint_round_trip(m.message.len(), m.message + tail);
        assert((m.message + tail).take(m.message.len() as int) =~= m.message);
        assert((m.message + tail).skip(m.message.len() as int) =~= tail);
        if m.response_delay == 0 {
            assert(tail.len() == 0);
        } else {
            assert(tail[0] == TAG_REQUEST_DELAY);
            assert(tail.skip(1) =~= varint(m.response_delay as nat) + Seq::<u8>::empty());
            lemma_varint_round_trip(m.response_delay as nat, Seq::<u8>::empty());
        }
    }
}

/// Round trip for a success or error submessage holding text.
pub proof fn lemma_payload_round_trip(m: Seq<u8>)
    requires
        valid_utf8(m),
    ensures
        spec_decode_payload(spec_encode_payload(m)) == Some(m),
{
    let b = spec_encode_payload(m);
    if m.len() > 0 {
        assert(b[0] == TAG_PAYLOAD_MESSAGE);
        assert(b.skip(1) =~= varint(m.len()) + m);
        lemma_varint_round_trip(m.len(), m);
        assert(m.take(m.len() as int) =~= m);
        assert(m.skip(m.len() as int) =~= Seq::<u8>::empty());
    }
}

/// Round trip: reading back a written response yields the same value, for
/// every response whose payload is text.
pub proof fn lemma_response_round_trip(r: ResponseModel)
    requires
        spec_response_text_valid(r),
    ensures
        spec_decode_response(spec_encode_response(r)) == Some(r),
{
    let b = spec_encode_response(r);
    let payload = match r {
        ResponseModel::Success { message } => spec_encode_payload(message),
        ResponseModel::Error { error_message } => spec_encode_payload(error_message),
    };
    assert(b.skip(1) =~= varint(payload.len()) + payload);
    lemma_varint_round_trip(payload.len(), payload);
    assert(payload.take(payload.len() as int) =~= payload);
    assert(payload.skip(payload.len() as int) =~= Seq::<u8>::empty());
    match r {
        ResponseModel::Success { message } => {
            assert(b[0] == TAG_RESPONSE_SUCCESS);
            lemma_payload_round_trip(message);
        },
        ResponseModel::Error { error_message } => {
            assert(b[0] == TAG_RESPONSE_ERROR);
            lemma_payload_round_trip(error_message);
        },
    }
}

/// What decoding accepts is text-valued: the message of any decoded
/// request is valid UTF-8.
pub proof fn lemma_decoded_request_text_valid(b: Seq<u8>)
    ensures
        spec_decode_request(b) matches Some(m) ==> spec_request_text_valid(m),
{
    if !(b.len() > 0 && b[0] == TAG_REQUEST_MESSAGE) {
        assert(valid_utf8(Seq::<u8>::empty()));
    }
}

/// Reading a chunk accepts only what writing one produces: the input is
/// the chunk's length, the chunk, and the rest.
pub proof fn lemma_dec_len_prefixed_canonical(b: Seq<u8>)
    ensures
        dec_len_prefixed(b) matches Some(p_rest) ==> b == varint(p_rest.0.len()) + p_rest.0
            + p_rest.1,
{
    crate::varint::lemma_dec_varint_canonical(b);
    match dec_varint(b) {
        Some((len, rest0)) => {
            if len <= rest0.len() {
                assert(rest0.take(len as int).len() == len);
                assert(rest0 =~= rest0.take(len as int) + rest0.skip(len as int));
                assert(b =~= varint(len) + rest0.take(len as int) + rest0.skip(len as int));
            }
        },
        None => {},
    }
}

/// Reading a request accepts only canonical buffers: whatever decodes,
/// encodes back to the same bytes.
pub proof fn lemma_request_canonical(b: Seq<u8>)
    ensures
        spec_decode_request(b) matches Some(m) ==> spec_encode_request(m) == b,
{
    if b.len() > 0 && b[0] == TAG_REQUEST_MESSAGE {
        lemma_dec_len_prefixed_canonical(b.skip(1));
        match dec_len_prefixed(b.skip(1)) {
            Some((payload, rest1)) => {
                if payload.len() > 0 {
                    assert(b =~= seq![TAG_REQUEST_MESSAGE] + b.skip(1));
                    lemma_request_delay_canonical(rest1);
                    if rest1.len() > 0 && rest1[0] == TAG_REQUEST_DELAY {
                        match dec_varint_u64(rest1.skip(1)) {
                            Some((d, rest2)) => {
                                if d > 0 && rest2.len() == 0 {
                                    let m = RequestModel {
                                        message: payload,
                                        response_delay: d,
                                    };
                                    assert(spec_encode_request(m) =~= b);
                                }
                            },
                            None => {},
                        }
                    } else if rest1.len() == 0 {
                        let m = RequestModel { message: payload, response_delay: 0u64 };
                        assert(spec_encode_request(m) =~= b);
                    }
                }
            },
            None => {},
        }
    } else {
        lemma_request_delay_canonical(b);
        if b.len() > 0 && b[0] == TAG_REQUEST_DELAY {
            match dec_varint_u64(b.skip(1)) {
                Some((d, rest2)) => {
                    if d > 0 && rest2.len() == 0 {
                        let m = RequestModel { message: Seq::<u8>::empty(), response_delay: d };
                        assert(spec_encode_request(m) =~= b);
                    }
                },
                None => {},
            }
        } else if b.len() == 0 {
            let m = RequestModel { message: Seq::<u8>::empty(), response_delay: 0u64 };
            assert(spec_encode_request(m) =~= b);
        }
    }
}

/// The delay stage of a request accepts only its own canonical output.
proof fn lemma_request_delay_canonical(rest1: Seq<u8>)
    ensures
        (rest1.len() > 0 && rest1[0] == TAG_REQUEST_DELAY) ==> match dec_varint_u64(
            rest1.skip(1),
        ) {
            Some(d_rest) => (d_rest.0 > 0 && d_rest.1.len() == 0) ==> rest1 == seq![
                TAG_REQUEST_DELAY,
            ] + varint(d_rest.0 as nat),
            None => true,
        },
{
    if rest1.len() > 0 && rest1[0] == TAG_REQUEST_DELAY {
        crate::varint::lemma_dec_varint_canonical(rest1.skip(1));
        match dec_varint(rest1.skip(1)) {
            Some((v, rest2)) => {
                if v <= u64::MAX && rest2.len() == 0 {
                    assert(rest2 =~= Seq::<u8>::empty());
                    assert(varint(v) + rest2 =~= varint(v));
                    assert(rest1 =~= seq![TAG_REQUEST_DELAY] + rest1.skip(1));
                }
            },
            None => {},
        }
    }
}

/// Reading a submessage accepts only canonical buffers.
pub proof fn lemma_payload_canonical(p: Seq<u8>)
    ensures
        spec_decode_payload(p) matches Some(m) ==> spec_encode_payload(m) == p,
{
    if p.len() == 0 {
        assert(spec_encode_payload(Seq::<u8>::empty()) =~= p);
    } else if p[0] == TAG_PAYLOAD_MESSAGE {
        lemma_dec_len_prefixed_canonical(p.skip(1));
        match dec_len_prefixed(p.skip(1)) {
            Some((payload, rest)) => {
                if payload.len() > 0 && rest.len() == 0 {
                    assert(p =~= seq![TAG_PAYLOAD_MESSAGE] + p.skip(1));
                    assert(spec_encode_payload(payload) =~= p);
                }
            },
            None => {},
        }
    }
}

/// Reading a response accepts only canonical buffers: whatever decodes,
/// encodes back to the same bytes.
pub proof fn lemma_response_canonical(b: Seq<u8>)
    ensures
        spec_decode_response(b) matches Some(r) ==> spec_encode_response(r) == b,
{
    if b.len() > 0 && (b[0] == TAG_RESPONSE_SUCCESS || b[0] == TAG_RESPONSE_ERROR) {
        lemma_dec_len_prefixed_canonical(b.skip(1));
        match dec_len_prefixed(b.skip(1)) {
            Some((payload, rest)) => {
                if rest.len() == 0 {
                    lemma_payload_canonical(payload);
                    match spec_decode_payload(payload) {
                        Some(m) => {
                            assert(b =~= seq![b[0]] + b.skip(1));
                            if b[0] == TAG_RESPONSE_SUCCESS {
                                assert(spec_encode_response(
                                    ResponseModel::Success { message: m },
                                ) =~= b);
                            } else {
                                assert(spec_encode_response(
                                    ResponseModel::Error { error_message: m },
                                ) =~= b);
                            }
                        },
                        None => {},
                    }
                }
            },
            None => {},
        }
    }
}

/// Writes the canonical encoding of `request`.
pub fn encode_request(request: &Request) -> (r: Vec<u8>)
    ensures
        r@ == spec_encode_request(request@),
{
    let mut out: Vec<u8> = Vec::new();
    if request.message.len() > 0 {
        out.push(TAG_REQUEST_MESSAGE);
        write_varint(&mut out, request.message.len() as u64);
        out.extend_from_slice(request.message.as_slice());
    }
    if request.response_delay > 0 {
        out.push(TAG_REQUEST_DELAY);
        write_varint(&mut out, request.response_delay);
    }
    assert(out@ =~= spec_encode_request(request@));
    out
}

/// Writes the canonical encoding of a success or error submessage.
pub fn encode_payload(message: &Vec<u8>) -> (r: Vec<u8>)
    ensures
        r@ == spec_encode_payload(message@),
{
    let mut out: Vec<u8> = Vec::new();
    if message.len() > 0 {
        out.push(TAG_PAYLOAD_MESSAGE);
        write_varint(&mut out, message.len() as u64);
        out.extend_from_slice(message.as_slice());
    }
    assert(out@ =~= spec_encode_payload(message@));
    out
}

/// Writes the canonical encoding of `response`.
pub fn encode_response(response: &Response) -> (r: Vec<u8>)
    ensures
        r@ == spec_encode_response(response@),
{
    let (tag, payload) = match response {
        Response::Success { message } => (TAG_RESPONSE_SUCCESS, encode_payload(message)),
        Response::Error { error_message } => (TAG_RESPONSE_ERROR, encode_payload(error_message)),
    };
    let mut out: Vec<u8> = Vec::new();
    out.push(tag);
    write_varint(&mut out, payload.len() as u64);
    out.extend_from_slice(payload.as_slice());
    assert(out@ =~= spec_encode_response(response@));
    out
}

/// Reads a request; fails exactly on the buffers no request encodes to.
pub fn decode_request(b: &Vec<u8>) -> (r: Result<Request, DecodeError>)
    ensures
        match r {
            Ok(req) => spec_decode_request(b@) == Some(req@),
            Err(_) => spec_decode_request(b@) is None,
        },
{
    let n = b.len();
    let mut message: Vec<u8> = Vec::new();
    let mut i: usize = 0;
    if n > 0 && *vstd::std_specs::vec::vec_index(b, 0) == TAG_REQUEST_MESSAGE {
        match read_varint(b, 1) {
            Err(e) => {
                proof {
                    lemma_len_prefixed_err(b@.skip(1));
                }
                return Err(e);
            },
            Ok((len, j)) => {
                assert(b@.skip(1).skip(j - 1) =~= b@.skip(j as int));
                if len > (n - j) as u64 {
                    return Err(DecodeError);
                }
                let len_us = len as usize;
                message = slice_to_vec(slice_subrange(b.as_slice(), j, j + len_us));
                proof {
                    assert(b@.skip(j as int).take(len as int) =~= b@.subrange(
                        j as int,
                        j + len_us,
                    ));
                    assert(b@.skip(j as int).skip(len as int) =~= b@.skip(j + len_us));
                }
                if message.len() == 0 {
                    return Err(DecodeError);
                }
                if !check_utf8(&message) {
                    return Err(DecodeError);
                }
                i = j + len_us;
            },
        }
    }
    assert(b@.skip(0) =~= b@);
    let mut delay: u64 = 0;
    if i < n && *vstd::std_specs::vec::vec_index(b, i) == TAG_REQUEST_DELAY {
        assert(b@.skip(i as int)[0] == TAG_REQUEST_DELAY);
        assert(b@.skip(i as int).skip(1) =~= b@.skip(i + 1));
        match read_varint(b, i + 1) {
            Err(e) => {
                return Err(e);
            },
            Ok((d, j2)) => {
                if d == 0 {
                    return Err(DecodeError);
                }
                delay = d;
                i = j2;
            },
        }
    } else {
        assert(i < n ==> b@.skip(i as int)[0] == b@[i as int]);
    }
    if i != n {
        return Err(DecodeError);
    }
    assert(b@.skip(i as int).len() == 0);
    Ok(Request { message, response_delay: delay })
}

/// Reads a submessage starting at index `i`; fails exactly when no payload
/// encodes to that suffix.
fn decode_payload_at(b: &Vec<u8>, i: usize) -> (r: Result<Vec<u8>, DecodeError>)
    requires
        i <= b@.len(),
    ensures
        match r {
            Ok(m) => spec_decode_payload(b@.skip(i as int)) == Some(m@),
            Err(_) => spec_decode_payload(b@.skip(i as int)) is None,
        },
{
    let n = b.len();
    if i == n {
        assert(b@.skip(i as int).len() == 0);
        return Ok(Vec::new());
    }
    assert(b@.skip(i as int)[0] == b@[i as int]);
    if *vstd::std_specs::vec::vec_index(b, i) != TAG_PAYLOAD_MESSAGE {
        return Err(DecodeError);
    }
    assert(b@.skip(i as int).skip(1) =~= b@.skip(i + 1));
    match read_varint(b, i + 1) {
        Err(e) => {
            proof {
                lemma_len_prefixed_err(b@.skip(i + 1));
            }
            Err(e)
        },
        Ok((len, j)) => {
            if len > (n - j) as u64 {
                return Err(DecodeError);
            }
            let len_us = len as usize;
            proof {
                assert(b@.skip(j as int).take(len as int) =~= b@.subrange(j as int, j + len_us));
                assert(b@.skip(j as int).skip(len as int) =~= b@.skip(j + len_us));
            }
            let m = slice_to_vec(slice_subrange(b.as_slice(), j, j + len_us));
            if m.len() == 0 {
                return Err(DecodeError);
            }
            if j + len_us != n {
                return Err(DecodeError);
            }
            if !check_utf8(&m) {
                return Err(DecodeError);
            }
            Ok(m)
        },
    }
}

/// Reads a response; fails exactly on the buffers no response encodes to.
pub fn decode_response(b: &Vec<u8>) -> (r: Result<Response, DecodeError>)
    ensures
        match r {
            Ok(resp) => spec_decode_response(b@) == Some(resp@),
            Err(_) => spec_decode_response(b@) is None,
        },
{
    let n = b.len();
    if n == 0 {
        return Err(DecodeError);
    }
    let tag = *vstd::std_specs::vec::vec_index(b, 0);
    if tag != TAG_RESPONSE_SUCCESS && tag != TAG_RESPONSE_ERROR {
        return Err(DecodeError);
    }
    assert(b@.skip(1).skip(0) =~= b@.skip(1));
    match read_varint(b, 1) {
        Err(e) => {
            proof {
                lemma_len_prefixed_err(b@.skip(1));
            }
            Err(e)
        },
        Ok((len, j)) => {
            assert(b@.skip(1).skip(j - 1) =~= b@.skip(j as int));
            if len > (n - j) as u64 {
                return Err(DecodeError);
            }
            let len_us = len as usize;
            proof {
                assert(b@.skip(j as int).take(len as int) =~= b@.subrange(j as int, j + len_us));
                assert(b@.skip(j as int).skip(len as int) =~= b@.skip(j + len_us));
            }
            if j + len_us != n {
                return Err(DecodeError);
            }
            assert(b@.skip(j as int).take(len as int) =~= b@.skip(j as int));
            match decode_payload_at(b, j) {
                Err(e) => Err(e),
                Ok(m) => {
                    if tag == TAG_RESPONSE_SUCCESS {
                        Ok(Response::Success { message: m })
                    } else {
                        Ok(Response::Error { error_message: m })
                    }
                },
            }
        },
    }
}

} // verus!
