//! A whitted-style recursive ray tracer, verified with Verus.
//!
//! Every scalar quantity is a fixed-point number: an `i128` counting
//! millionths (`fixed::SCALE` units make one), saturated to the range
//! `[-fixed::LIM, fixed::LIM]`.  All arithmetic is total and proved free of
//! overflow; each operation's contract states its exact mathematical value.

pub mod fixed;
pub mod helpers;
pub mod laws;
pub mod geometry;
pub mod display;
pub mod tracing;
