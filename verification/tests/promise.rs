use toy_jni::promise::BoundaryPromise;
use toy_jni::promise::Resolution;

#[test]
fn fresh_promise_is_pending() {
    let promise = BoundaryPromise::create();
    assert!(!promise.is_resolved());
    assert!(promise.resolution().is_none());
}

#[test]
fn first_resolution_is_accepted() {
    let mut promise = BoundaryPromise::create();
    assert!(promise.resolve_success(vec![1, 2, 3]));
    assert!(promise.is_resolved());
    match promise.resolution() {
        Some(Resolution::Fulfilled { payload }) => assert_eq!(payload, &vec![1, 2, 3]),
        _ => panic!("expected a fulfilled promise"),
    }
}

#[test]
fn second_resolution_is_refused_and_ignored() {
    let mut promise = BoundaryPromise::create();
    assert!(promise.resolve_success(vec![7]));
    assert!(!promise.resolve_failure(b"late failure".to_vec()));
    assert!(!promise.resolve_success(vec![9]));
    match promise.resolution() {
        Some(Resolution::Fulfilled { payload }) => assert_eq!(payload, &vec![7]),
        _ => panic!("the first resolution must stand"),
    }
}

#[test]
fn failure_resolution_carries_description() {
    let mut promise = BoundaryPromise::create();
    assert!(promise.resolve_failure(b"worker gone".to_vec()));
    match promise.resolution() {
        Some(Resolution::Failed { error_message }) => {
            assert_eq!(error_message, &b"worker gone".to_vec());
        },
        _ => panic!("expected a failed promise"),
    }
}

#[test]
fn many_promises_resolve_independently() {
    let mut promises: Vec<BoundaryPromise> = (0..100).map(|_| BoundaryPromise::create()).collect();
    for (i, promise) in promises.iter_mut().enumerate() {
        assert!(promise.resolve_success(vec![i as u8]));
    }
    for (i, promise) in promises.iter().enumerate() {
        match promise.resolution() {
            Some(Resolution::Fulfilled { payload }) => assert_eq!(payload, &vec![i as u8]),
            _ => panic!("every promise keeps its own result"),
        }
    }
}
