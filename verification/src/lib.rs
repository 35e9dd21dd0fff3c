//! Bauer stereophonic-to-binaural (bs2b) crossfeed: the verified integer core.
//!
//! Crossfeed levels, their packed C representation, configuration
//! validation, the decisions a processor takes when its settings change,
//! and the sample-index plans that the stateful processor walks.
use vstd::prelude::*;

pub mod error;
pub mod level;
pub mod pcm;
pub mod processor;
pub mod streaming;

pub use error::Bs2bError;
pub use level::Level;

verus! {

/// Minimum supported sample rate in Hz.
pub const MIN_SAMPLE_RATE: u32 = 2_000;

/// Maximum supported sample rate in Hz.
pub const MAX_SAMPLE_RATE: u32 = 384_000;

/// Default sample rate in Hz, as in libbs2b.
pub const DEFAULT_SAMPLE_RATE: u32 = 44_100;

/// Minimum crossfeed cut frequency in Hz.
pub const MIN_CUT_FREQUENCY: u32 = 300;

/// Maximum crossfeed cut frequency in Hz.
pub const MAX_CUT_FREQUENCY: u32 = 2_000;

/// Minimum feed level in dB * 10.
pub const MIN_FEED_DB_TENTHS: u32 = 10;

/// Maximum feed level in dB * 10.
pub const MAX_FEED_DB_TENTHS: u32 = 150;

} // verus!
