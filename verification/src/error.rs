//! The error taxonomy of the backend.
//!
//! Every fallible operation returns a distinguishable result; pool
//! exhaustion is represented as an empty lease, not as an error.

use vstd::prelude::*;
use crate::format::DecodedFormat;

verus! {

/// A negotiation attempt failed. The previous stream state is left
/// untouched; retrying with different parameters is valid.
#[derive(Clone, Copy, Debug, PartialEq, Eq, Structural)]
pub enum NegotiationError {
    /// The stream's pixel-format class is not supported by the hardware for
    /// this profile, or not known to the backend at all.
    UnsupportedRtFormat { rt_format: u32 },
    /// The hardware driver cannot map surfaces of this stream's class into
    /// the resolved output layout.
    UnsupportedFourcc { fourcc: u32 },
    /// The requested decoded format is not among the formats supported for
    /// the current stream.
    UnsupportedDecodedFormat { format: DecodedFormat },
    /// An operation that needs parsed stream metadata ran before any
    /// successful negotiation.
    NotNegotiated,
}

/// The hardware reported a completion failure for a submitted picture; the
/// picture's data is undefined and it stays pending.
#[derive(Clone, Copy, Debug, PartialEq, Eq, Structural)]
pub enum SyncError {
    /// The device could not finish decoding this picture.
    Hardware,
}

/// Reading a mapped picture out into a caller buffer failed. Nothing was
/// written.
#[derive(Clone, Copy, Debug, PartialEq, Eq, Structural)]
pub enum ReadError {
    /// The destination buffer does not hold exactly the expected canonical
    /// byte size for the display resolution and layout.
    SizeMismatch { expected: usize, actual: usize },
}

} // verus!
