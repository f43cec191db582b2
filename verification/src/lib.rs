//! A verified core of a real-time audio graph engine.
//!
//! The engine is split in two: a control surface that schedules work, and a
//! render side that produces one fixed-size block ("render quantum") of
//! samples per invocation.  All sample and coefficient arithmetic is carried
//! out on `i64` fixed-point values so that every computation has an exact
//! mathematical meaning; the conversion from and to machine floating point
//! happens outside the verified core.

pub mod events;
pub mod math;
pub mod buffer;
pub mod node;
pub mod timeline;
pub mod graph;

use vstd::prelude::*;

verus! {

/// Number of frames processed per render quantum.
pub const RENDER_QUANTUM_SIZE: usize = 128;

} // verus!
