//! Configuration and buffer-shape errors.
use vstd::prelude::*;

verus! {

/// Configuration and processing errors.
#[derive(Debug, Clone, PartialEq, Eq, Structural)]
pub enum Bs2bError {
    /// The sample rate lies outside `MIN_SAMPLE_RATE..=MAX_SAMPLE_RATE`.
    InvalidSampleRate(u32),
    /// The cut frequency lies outside `MIN_CUT_FREQUENCY..=MAX_CUT_FREQUENCY`.
    InvalidCutFrequency(u32),
    /// The feed level lies outside `MIN_FEED_DB_TENTHS..=MAX_FEED_DB_TENTHS`.
    InvalidFeedLevel(u32),
    /// An interleaved stereo buffer holds an odd number of samples.
    OddInterleavedSamples(usize),
    /// Planar left and right buffers differ in length.
    MismatchedPlanarLengths { left: usize, right: usize },
}

} // verus!
