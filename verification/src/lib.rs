//! Core of a small procedural-audio signal-graph library.
//!
//! The library models a sample-accurate clock ([`sample_timing::SampleTiming`]),
//! a multi-channel frame algebra ([`poly_sample::PolySample`]), waveform and
//! envelope generators, history-backed effects, a synthesizer voice and a
//! summing patch graph.  All amplitudes, seconds and frequencies are exact
//! fixed-point integers (counts of millionths, see [`fixed::SCALE`]), so the
//! whole signal path is integer arithmetic with explicit rounding and
//! saturation, and its behaviour is pinned down by contracts.

use vstd::prelude::*;

pub mod effect;
pub mod fixed;
pub mod generator;
pub mod patch;
pub mod poly_sample;
pub mod sample_timing;
pub mod synthesizer;

pub use poly_sample::PolySample;
pub use sample_timing::SampleTiming;

verus! {

/// Invalid construction or reconfiguration parameters.  Constructors reject
/// them with an error instead of silently defaulting.
#[derive(Clone, Copy, Debug, PartialEq, Eq, Structural)]
pub enum ConfigurationError {
    /// A frequency (or cutoff) of zero was supplied where a positive one is
    /// required.
    ZeroFrequency,
    /// A window or block length of zero was supplied.
    ZeroLength,
}

} // verus!
