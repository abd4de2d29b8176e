//! Real-time audio engine core: a fixed-capacity sample arena, bit-exact
//! buffer primitives, the block scheduling of three stateful effects
//! (partitioned convolution, granular synthesis, spectral freeze and shift),
//! and the rings and parameters of the delay and filter building blocks.
//!
//! Samples are carried as the 32 bits of their IEEE-754 single-precision
//! encoding. Everything here is decided on those bits and on integers: where
//! a sample goes, when a transform is due, which grain slot is taken, which
//! values are clamped and to what. Arithmetic on sample values is left to
//! the caller, who is told by the scheduling functions what to compute next.

pub mod sample;
pub mod simd_utils;
pub mod memory;
pub mod granular;
pub mod convolution;
pub mod spectral;
pub mod delay;
pub mod utils;
pub mod filters;
