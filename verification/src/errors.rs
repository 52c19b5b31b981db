//! Error taxonomy of the bridge core.

use vstd::prelude::*;

verus! {

/// Failure of the message codec: the buffer is truncated, malformed, or
/// violates a field constraint of the envelope schema.
#[derive(Clone, Copy, Debug, PartialEq, Eq, Structural)]
pub struct DecodeError;

/// Failure of an execution-context registry operation. A double release is
/// distinguishable from a handle that never existed.
#[derive(Clone, Copy, Debug, PartialEq, Eq, Structural)]
pub enum ResourceError {
    /// The handle was never issued by the registry.
    UnknownHandle,
    /// The handle exists but all of its shares were already released.
    AlreadyReleased,
}

} // verus!
