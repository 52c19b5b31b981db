use toy_jni::bridge::blocking_call;
use toy_jni::bridge::completion_action;
use toy_jni::bridge::plan_async_call;
use toy_jni::bridge::plan_sync_call;
use toy_jni::bridge::CompletionAction;
use toy_jni::bridge::SyncPlan;
use toy_jni::codec::decode_request;
use toy_jni::codec::decode_response;
use toy_jni::codec::encode_request;
use toy_jni::messages::Request;
use toy_jni::messages::Response;

fn encoded(message: &str, delay: u64) -> Vec<u8> {
    let mut request = Request::message(message.to_string());
    request.response_delay = delay;
    encode_request(&request)
}

#[test]
fn blocking_call_expected_message_succeeds() {
    let (delay, bytes) = blocking_call(&encoded("Hello, Rust!", 0));
    assert_eq!(delay, 0);
    match decode_response(&bytes).unwrap() {
        Response::Success { message } => assert_eq!(message, b"Hello, Java!".to_vec()),
        Response::Error { .. } => panic!("expected success"),
    }
}

#[test]
fn blocking_call_reports_requested_delay() {
    let (delay, bytes) = blocking_call(&encoded("Hello, Rust!", 40));
    assert_eq!(delay, 40);
    assert!(matches!(decode_response(&bytes).unwrap(), Response::Success { .. }));
}

#[test]
fn blocking_call_unexpected_message_is_error_response() {
    let (delay, bytes) = blocking_call(&encoded("Hello, C++!", 0));
    assert_eq!(delay, 0);
    match decode_response(&bytes).unwrap() {
        Response::Error { error_message } => {
            assert_eq!(error_message, b"Unable to respond to 'Hello, C++!'".to_vec());
        },
        Response::Success { .. } => panic!("expected error"),
    }
}

#[test]
fn blocking_call_undecodable_buffer_is_error_response() {
    let (delay, bytes) = blocking_call(&vec![0xFF, 0xFF]);
    assert_eq!(delay, 0);
    match decode_response(&bytes).unwrap() {
        Response::Error { error_message } => {
            assert_eq!(error_message, b"Unable to decode request".to_vec());
        },
        Response::Success { .. } => panic!("expected error"),
    }
}

#[test]
fn blocking_call_non_text_message_is_decode_error() {
    // a message field of one 0xFF byte is not text, so decoding fails
    let (delay, bytes) = blocking_call(&vec![0x0A, 0x01, 0xFF]);
    assert_eq!(delay, 0);
    match decode_response(&bytes).unwrap() {
        Response::Error { error_message } => {
            assert_eq!(error_message, b"Unable to decode request".to_vec());
        },
        Response::Success { .. } => panic!("expected error"),
    }
}

#[test]
fn async_plan_carries_delay_and_response() {
    let plan = plan_async_call(&encoded("Hello, Rust!", 50)).unwrap();
    assert_eq!(plan.delay_ms, 50);
    match plan.response {
        Response::Success { message } => assert_eq!(message, b"Hello, Java!".to_vec()),
        Response::Error { .. } => panic!("expected success"),
    }
}

#[test]
fn async_plan_rejects_undecodable_buffer() {
    assert!(plan_async_call(&vec![0x99]).is_err());
}

#[test]
fn async_plan_unexpected_message_resolves_with_error() {
    let plan = plan_async_call(&encoded("nope", 0)).unwrap();
    match plan.response {
        Response::Error { error_message } => {
            assert_eq!(error_message, b"Unable to respond to 'nope'".to_vec());
        },
        Response::Success { .. } => panic!("expected error"),
    }
}

#[test]
fn completion_of_success_is_encoded_payload() {
    let plan = plan_async_call(&encoded("Hello, Rust!", 0)).unwrap();
    match completion_action(plan.response) {
        CompletionAction::Complete { payload } => {
            let mut expected = vec![0x0A, 12];
            expected.extend_from_slice(b"Hello, Java!");
            assert_eq!(payload, expected);
        },
        CompletionAction::CompleteExceptionally { .. } => panic!("expected completion"),
    }
}

#[test]
fn completion_of_error_fails_the_future() {
    match completion_action(Response::error("down".to_string())) {
        CompletionAction::CompleteExceptionally { error_message } => {
            assert_eq!(error_message, b"down".to_vec());
        },
        CompletionAction::Complete { .. } => panic!("expected exceptional completion"),
    }
}

#[test]
fn sync_call_immediate_success() {
    match plan_sync_call(&encoded("Hello, Rust!", 0)) {
        SyncPlan::Reply { response_bytes } => {
            match decode_response(&response_bytes).unwrap() {
                Response::Success { message } => assert_eq!(message, b"Hello, Java!".to_vec()),
                Response::Error { .. } => panic!("expected success"),
            }
        },
        SyncPlan::ReplyLater { .. } => panic!("expected an immediate reply"),
    }
}

#[test]
fn sync_call_delayed_promises_a_callback() {
    match plan_sync_call(&encoded("Hello, Rust!", 30)) {
        SyncPlan::ReplyLater { response_bytes, delay_ms, callback_request_bytes } => {
            assert_eq!(delay_ms, 30);
            match decode_response(&response_bytes).unwrap() {
                Response::Success { message } => {
                    assert_eq!(message, b"Will reply later!".to_vec());
                },
                Response::Error { .. } => panic!("expected success"),
            }
            let callback = decode_request(&callback_request_bytes).unwrap();
            assert_eq!(callback.message, b"Hello, Java!".to_vec());
            assert_eq!(callback.response_delay, 0);
        },
        SyncPlan::Reply { .. } => panic!("expected a delayed reply"),
    }
}

#[test]
fn sync_call_unexpected_message_is_immediate_error() {
    match plan_sync_call(&encoded("Hello, Go!", 30)) {
        SyncPlan::Reply { response_bytes } => {
            match decode_response(&response_bytes).unwrap() {
                Response::Error { error_message } => {
                    assert_eq!(error_message, b"Unable to respond to 'Hello, Go!'".to_vec());
                },
                Response::Success { .. } => panic!("expected error"),
            }
        },
        SyncPlan::ReplyLater { .. } => panic!("expected an immediate reply"),
    }
}

#[test]
fn sync_call_undecodable_buffer_is_immediate_error() {
    match plan_sync_call(&vec![0x0A]) {
        SyncPlan::Reply { response_bytes } => {
            match decode_response(&response_bytes).unwrap() {
                Response::Error { error_message } => {
                    assert_eq!(error_message, b"Unable to decode request".to_vec());
                },
                Response::Success { .. } => panic!("expected error"),
            }
        },
        SyncPlan::ReplyLater { .. } => panic!("expected an immediate reply"),
    }
}
