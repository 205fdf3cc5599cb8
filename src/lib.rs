//! An elementwise vector engine over IEEE-754 values held as bit patterns:
//! sign manipulation, ordered comparisons and masked selection lane by lane,
//! and a driver that walks a buffer of any length in full lanes and hands the
//! remainder to a single-element fallback.
use vstd::prelude::*;

pub mod aligned_lanes;
pub mod avx;
pub mod ieee;
pub mod laws;
pub mod scalar;
