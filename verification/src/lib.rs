//! Core of a call bridge between a managed host runtime and native code.
//!
//! The library holds everything about the bridge that is pure logic: the
//! binary message codec for the `Request`/`Response` envelope, the toy
//! greeting computation, the per-call decision logic of each boundary entry
//! point, the single-assignment boundary promise, and the reference-counted
//! registry of execution-context handles. The host-runtime plumbing (FFI
//! entry points, worker threads, timers) lives outside and consumes the
//! plans and values produced here.

pub mod bridge;
pub mod codec;
pub mod errors;
pub mod messages;
pub mod promise;
pub mod registry;
pub mod service;
pub mod text;
pub mod varint;
