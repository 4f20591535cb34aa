//! Granular synthesis core in fixed-point arithmetic.
//!
//! Audio values (samples, gains, seconds, fractions) are carried as `i64`
//! counts of millionths, so one is `fixed::UNIT`. The crate generates
//! waveform lookup tables and amplitude envelopes, draws per-grain
//! parameters from configured ranges through a random source, and renders
//! single grains — resampled, windowed, panned, optionally reversed —
//! as interleaved stereo sample buffers.

use vstd::prelude::*;

pub mod envelope;
pub mod fixed;
pub mod grain;
pub mod params;
pub mod table;
pub mod trig;

verus! {

/// A configuration or input the synthesis core rejects before any
/// arithmetic: every failure is deterministic, none is transient.
#[derive(Clone, Copy, Debug, PartialEq, Eq, Structural)]
pub enum GrainError {
    /// A draw range is reversed (min above max) or outside the
    /// fixed-point window the arithmetic admits.
    InvalidRange,
    /// The sample rate is not positive or not representable.
    InvalidSampleRate,
    /// A table, envelope or grain length below two: the generators
    /// divide by one less than the length.
    LengthTooSmall,
    /// A length beyond what the fixed-point arithmetic admits.
    LengthTooLarge,
    /// A percussive envelope shorter than its attack allows.
    EnvelopeTooShort,
    /// A source buffer with fewer than two samples: resampling reads
    /// two neighbouring samples.
    SourceTooShort,
}

} // verus!
