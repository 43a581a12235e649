//! The decoder shell: a codec-agnostic wrapper around a backend, and a
//! backend that decodes nothing, for driving the shell in isolation.

use vstd::prelude::*;
use crate::error::NegotiationError;

verus! {

/// Whether `sync` blocks until the device finishes a picture, or the
/// consumer polls readiness without blocking.
#[derive(Clone, Copy, Debug, PartialEq, Eq, Structural)]
pub enum BlockingMode {
    /// `sync` suspends until the device reports completion.
    Blocking,
    /// The consumer polls `is_ready` and must not call `sync` eagerly.
    NonBlocking,
}

/// A decoded-frame handle of the dummy backend; it carries nothing.
#[derive(Clone, Copy, Debug, PartialEq, Eq, Structural, Default)]
pub struct DummyHandle {}

/// A backend that accepts everything and decodes nothing.
pub struct DummyBackend {}

impl DummyBackend {
    /// Creates the dummy backend.
    pub fn new() -> DummyBackend {
        DummyBackend {  }
    }

    /// Accepts any new sequence.
    pub fn new_sequence(&mut self) -> (r: Result<(), NegotiationError>)
        ensures
            r is Ok,
    {
        Ok(())
    }

    /// Accepts any picture, handing back an empty handle.
    pub fn submit_picture(&mut self) -> (r: Result<DummyHandle, NegotiationError>)
        ensures
            r == Result::<DummyHandle, NegotiationError>::Ok(DummyHandle {  }),
    {
        Ok(DummyHandle {  })
    }
}

/// The decoder shell: the backend it drives and the blocking mode the
/// consumer chose.
pub struct StatelessDecoder<B> {
    pub backend: B,
    pub blocking_mode: BlockingMode,
}

impl<B> StatelessDecoder<B> {
    /// Creates a decoder over the given backend.
    pub fn new(backend: B, blocking_mode: BlockingMode) -> (r: StatelessDecoder<B>)
        ensures
            r.backend == backend,
            r.blocking_mode == blocking_mode,
    {
        StatelessDecoder { backend, blocking_mode }
    }
}

impl StatelessDecoder<DummyBackend> {
    /// Creates a decoder over the dummy backend, so the decoding logic can
    /// be exercised with no device present.
    pub fn new_dummy(blocking_mode: BlockingMode) -> (r: StatelessDecoder<DummyBackend>)
        ensures
            r.blocking_mode == blocking_mode,
    {
        StatelessDecoder::new(DummyBackend::new(), blocking_mode)
    }
}

} // verus!
