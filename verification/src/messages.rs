//! The `Request`/`Response` envelope exchanged across the boundary.
//!
//! Text fields are held as their UTF-8 bytes: that is the form in which they
//! cross the boundary, and the constructors below convert from `String`.

use vstd::prelude::*;

use vstd::string::StrSliceExecFns;
use vstd::utf8::encode_utf8;
use vstd::utf8::encode_utf8_valid_utf8;
use vstd::utf8::valid_utf8;

verus! {

/// An inbound call: a message and an artificial delay in milliseconds.
#[derive(Debug)]
pub struct Request {
    /// UTF-8 bytes of the message text.
    pub message: Vec<u8>,
    /// Requested artificial delay, in milliseconds.
    pub response_delay: u64,
}

/// Mathematical model of a `Request`.
pub struct RequestModel {
    pub message: Seq<u8>,
    pub response_delay: u64,
}

impl View for Request {
    type V = RequestModel;

    open spec fn view(&self) -> RequestModel {
        RequestModel { message: self.message@, response_delay: self.response_delay }
    }
}

/// An outbound reply: exactly one of a success or an error payload.
#[derive(Debug)]
pub enum Response {
    Success { message: Vec<u8> },
    Error { error_message: Vec<u8> },
}

/// Mathematical model of a `Response`.
pub enum ResponseModel {
    Success { message: Seq<u8> },
    Error { error_message: Seq<u8> },
}

impl View for Response {
    type V = ResponseModel;

    open spec fn view(&self) -> ResponseModel {
        match self {
            Response::Success { message } => ResponseModel::Success { message: message@ },
            Response::Error { error_message } => ResponseModel::Error {
                error_message: error_message@,
            },
        }
    }
}

/// Whether a request model's text field holds valid UTF-8, as the wire
/// schema demands of every request that crosses the boundary.
pub open spec fn spec_request_text_valid(m: RequestModel) -> bool {
    valid_utf8(m.message)
}

/// Whether a response model's text field holds valid UTF-8.
pub open spec fn spec_response_text_valid(r: ResponseModel) -> bool {
    match r {
        ResponseModel::Success { message } => valid_utf8(message),
        ResponseModel::Error { error_message } => valid_utf8(error_message),
    }
}

impl Request {
    /// A request carrying `message` and no delay.
    pub fn message(message: String) -> (r: Self)
        ensures
            r@.message == encode_utf8(message@),
            r@.response_delay == 0,
            spec_request_text_valid(r@),
    {
        proof {
            encode_utf8_valid_utf8(message@);
        }
        Request { message: message.as_str().as_bytes_vec(), response_delay: 0 }
    }
}

impl Response {
    /// A success response carrying `message`.
    pub fn success(message: String) -> (r: Self)
        ensures
            r@ == (ResponseModel::Success { message: encode_utf8(message@) }),
            spec_response_text_valid(r@),
    {
        proof {
            encode_utf8_valid_utf8(message@);
        }
        Response::Success { message: message.as_str().as_bytes_vec() }
    }

    /// An error response carrying `error_message`.
    pub fn error(error_message: String) -> (r: Self)
        ensures
            r@ == (ResponseModel::Error { error_message: encode_utf8(error_message@) }),
            spec_response_text_valid(r@),
    {
        proof {
            encode_utf8_valid_utf8(error_message@);
        }
        Response::Error { error_message: error_message.as_str().as_bytes_vec() }
    }
}

} // verus!
