//! Core logic of a hardware-accelerated video decoding backend.
//!
//! The crate owns the surface pool for hardware decode targets, the
//! stream-negotiation state machine that decides when hardware contexts are
//! rebuilt versus reused, the per-picture completion state machine, and the
//! pixel-layout conversion routines that normalize hardware-native sample
//! layouts into canonical planar buffers.
//!
//! Everything the hardware device itself decides (surface allocation,
//! context creation, decode completion) enters this crate as plain values;
//! the contracts state what holds of every such outcome.

pub mod backend;
pub mod bytes;
pub mod convert;
pub mod decoder;
pub mod error;
pub mod format;
pub mod image;
pub mod layout;
pub mod negotiate;
pub mod picture;
pub mod pool;
pub mod resolution;
pub mod seqs;

pub use resolution::Resolution;
