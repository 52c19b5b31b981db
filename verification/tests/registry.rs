use toy_jni::errors::ResourceError;
use toy_jni::registry::ContextRegistry;

#[test]
fn create_then_close_releases_the_worker() {
    let mut registry = ContextRegistry::new();
    let handle = registry.create();
    assert_eq!(registry.share_count(handle), Some(1));
    assert_eq!(registry.release(handle), Ok(true));
    assert_eq!(registry.share_count(handle), Some(0));
}

#[test]
fn double_release_is_a_distinguishable_error() {
    let mut registry = ContextRegistry::new();
    let handle = registry.create();
    assert_eq!(registry.release(handle), Ok(true));
    assert_eq!(registry.release(handle), Err(ResourceError::AlreadyReleased));
    assert_eq!(registry.share_count(handle), Some(0));
}

#[test]
fn unknown_handle_is_rejected() {
    let mut registry = ContextRegistry::new();
    assert_eq!(registry.release(3), Err(ResourceError::UnknownHandle));
    assert_eq!(registry.borrow(3), Err(ResourceError::UnknownHandle));
    assert_eq!(registry.share_count(3), None);
}

#[test]
fn borrowed_handle_survives_until_last_release() {
    let mut registry = ContextRegistry::new();
    let handle = registry.create();
    assert_eq!(registry.borrow(handle), Ok(()));
    assert_eq!(registry.share_count(handle), Some(2));
    assert_eq!(registry.release(handle), Ok(false));
    assert_eq!(registry.release(handle), Ok(true));
    assert_eq!(registry.borrow(handle), Err(ResourceError::AlreadyReleased));
}

#[test]
fn handles_are_independent() {
    let mut registry = ContextRegistry::new();
    let first = registry.create();
    let second = registry.create();
    assert_ne!(first, second);
    assert_eq!(registry.release(first), Ok(true));
    assert_eq!(registry.share_count(second), Some(1));
    assert_eq!(registry.release(second), Ok(true));
}
