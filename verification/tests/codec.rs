use toy_jni::codec::decode_request;
use toy_jni::codec::decode_response;
use toy_jni::codec::encode_request;
use toy_jni::codec::encode_response;
use toy_jni::messages::Request;
use toy_jni::messages::Response;

#[test]
fn request_exact_bytes() {
    let request = Request { message: vec![0x41], response_delay: 5 };
    let bytes = encode_request(&request);
    assert_eq!(bytes, vec![0x0A, 0x01, 0x41, 0x10, 0x05]);
}

#[test]
fn request_round_trip() {
    let request = Request::message("Hello, Rust!".to_string());
    let bytes = encode_request(&request);
    let decoded = decode_request(&bytes).unwrap();
    assert_eq!(decoded.message, b"Hello, Rust!".to_vec());
    assert_eq!(decoded.response_delay, 0);
}

#[test]
fn request_round_trip_with_delay() {
    let request = Request { message: b"hi".to_vec(), response_delay: 300 };
    let bytes = encode_request(&request);
    let decoded = decode_request(&bytes).unwrap();
    assert_eq!(decoded.message, b"hi".to_vec());
    assert_eq!(decoded.response_delay, 300);
}

#[test]
fn request_round_trip_empty() {
    let request = Request::message(String::new());
    let bytes = encode_request(&request);
    assert_eq!(bytes, Vec::<u8>::new());
    let decoded = decode_request(&bytes).unwrap();
    assert_eq!(decoded.message, Vec::<u8>::new());
    assert_eq!(decoded.response_delay, 0);
}

#[test]
fn request_round_trip_long_message() {
    let request = Request { message: vec![b'a'; 200], response_delay: u64::MAX };
    let bytes = encode_request(&request);
    // a 200-byte field needs a two-byte length varint
    assert_eq!(&bytes[0..3], &[0x0A, 0xC8, 0x01]);
    let decoded = decode_request(&bytes).unwrap();
    assert_eq!(decoded.message, vec![b'a'; 200]);
    assert_eq!(decoded.response_delay, u64::MAX);
}

#[test]
fn response_success_round_trip() {
    let response = Response::success("Hello, Java!".to_string());
    let bytes = encode_response(&response);
    match decode_response(&bytes).unwrap() {
        Response::Success { message } => assert_eq!(message, b"Hello, Java!".to_vec()),
        Response::Error { .. } => panic!("decoded as error"),
    }
}

#[test]
fn response_error_round_trip() {
    let response = Response::error("broken".to_string());
    let bytes = encode_response(&response);
    match decode_response(&bytes).unwrap() {
        Response::Error { error_message } => assert_eq!(error_message, b"broken".to_vec()),
        Response::Success { .. } => panic!("decoded as success"),
    }
}

#[test]
fn response_empty_success_round_trip() {
    let response = Response::success(String::new());
    let bytes = encode_response(&response);
    assert_eq!(bytes, vec![0x0A, 0x00]);
    match decode_response(&bytes).unwrap() {
        Response::Success { message } => assert_eq!(message, Vec::<u8>::new()),
        Response::Error { .. } => panic!("decoded as error"),
    }
}

#[test]
fn request_non_ascii_round_trip() {
    let request = Request::message("héllo ☃".to_string());
    let bytes = encode_request(&request);
    let decoded = decode_request(&bytes).unwrap();
    assert_eq!(decoded.message, "héllo ☃".as_bytes().to_vec());
}

#[test]
fn decoded_request_reencodes_to_the_same_bytes() {
    let bytes = vec![0x0A, 0x01, 0x41, 0x10, 0x05];
    let decoded = decode_request(&bytes).unwrap();
    assert_eq!(encode_request(&decoded), bytes);
}

#[test]
fn decoded_response_reencodes_to_the_same_bytes() {
    let bytes = vec![0x12, 0x05, 0x0A, 0x03, b'b', b'a', b'd'];
    let decoded = decode_response(&bytes).unwrap();
    assert_eq!(encode_response(&decoded), bytes);
}

#[test]
fn request_decode_truncated_fails() {
    let request = Request { message: b"Hello, Rust!".to_vec(), response_delay: 7 };
    let bytes = encode_request(&request);
    for cut in 1..bytes.len() {
        let shorter = bytes[0..cut].to_vec();
        if decode_request(&shorter).is_ok() {
            // cutting exactly at the field border leaves a shorter valid request
            assert_eq!(cut, bytes.len() - 2);
        }
    }
}

#[test]
fn request_decode_unknown_field_fails() {
    assert!(decode_request(&vec![0x08, 0x01]).is_err());
}

#[test]
fn request_decode_trailing_bytes_fail() {
    let mut bytes = encode_request(&Request { message: b"x".to_vec(), response_delay: 1 });
    bytes.push(0x00);
    assert!(decode_request(&bytes).is_err());
}

#[test]
fn request_decode_overlong_varint_fails() {
    // 0x80 0x00 spells zero with a trailing zero group
    assert!(decode_request(&vec![0x0A, 0x80, 0x00]).is_err());
}

#[test]
fn request_decode_oversized_varint_fails() {
    // eleven continuation groups exceed 64 bits
    let mut bytes = vec![0x10];
    for _ in 0..10 {
        bytes.push(0xFF);
    }
    bytes.push(0x01);
    assert!(decode_request(&bytes).is_err());
}

#[test]
fn request_decode_explicit_defaults_fail() {
    // canonical form omits defaulted fields
    assert!(decode_request(&vec![0x0A, 0x00]).is_err());
    assert!(decode_request(&vec![0x10, 0x00]).is_err());
}

#[test]
fn request_decode_non_text_message_fails() {
    // the schema's message field is a string: 0xFF is not valid UTF-8
    assert!(decode_request(&vec![0x0A, 0x01, 0xFF]).is_err());
    // a bare continuation byte, an overlong encoding, a surrogate, a
    // truncated scalar, and a codepoint past the Unicode range
    assert!(decode_request(&vec![0x0A, 0x01, 0x80]).is_err());
    assert!(decode_request(&vec![0x0A, 0x02, 0xC0, 0x80]).is_err());
    assert!(decode_request(&vec![0x0A, 0x03, 0xED, 0xA0, 0x80]).is_err());
    assert!(decode_request(&vec![0x0A, 0x01, 0xC3]).is_err());
    assert!(decode_request(&vec![0x0A, 0x04, 0xF4, 0x90, 0x80, 0x80]).is_err());
}

#[test]
fn response_decode_non_text_payload_fails() {
    assert!(decode_response(&vec![0x0A, 0x03, 0x0A, 0x01, 0xFF]).is_err());
    assert!(decode_response(&vec![0x12, 0x03, 0x0A, 0x01, 0xFF]).is_err());
}

#[test]
fn request_four_byte_scalar_round_trip() {
    let request = Request::message("crab: 🦀".to_string());
    let bytes = encode_request(&request);
    let decoded = decode_request(&bytes).unwrap();
    assert_eq!(decoded.message, "crab: 🦀".as_bytes().to_vec());
}

#[test]
fn request_decode_length_past_end_fails() {
    assert!(decode_request(&vec![0x0A, 0x05, 0x61]).is_err());
}

#[test]
fn response_decode_empty_fails() {
    assert!(decode_response(&Vec::new()).is_err());
}

#[test]
fn response_decode_corrupt_fails() {
    assert!(decode_response(&vec![0x1A, 0x00]).is_err());
    assert!(decode_response(&vec![0x0A]).is_err());
    assert!(decode_response(&vec![0x0A, 0x03, 0x0A, 0x01]).is_err());
}
