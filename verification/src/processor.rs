//! The decisions of the stateful crossfeed processor: which settings it
//! accepts, what a settings change asks of its filter, and how a buffer is
//! split into stereo frames. The filter arithmetic itself works on floating
//! point and runs outside this crate's verified part.
use vstd::prelude::*;

use crate::error::Bs2bError;
use crate::level::{spec_pack, Level};
use crate::{MAX_SAMPLE_RATE, MIN_SAMPLE_RATE};

verus! {

/// True when `sample_rate` is an accepted sample rate.
pub open spec fn valid_sample_rate(sample_rate: u32) -> bool {
    MIN_SAMPLE_RATE <= sample_rate <= MAX_SAMPLE_RATE
}

/// Checks that `sample_rate` lies in `MIN_SAMPLE_RATE..=MAX_SAMPLE_RATE`.
pub fn validate_sample_rate(sample_rate: u32) -> (result: Result<(), Bs2bError>)
    ensures
        result == (if valid_sample_rate(sample_rate) {
            Ok::<(), Bs2bError>(())
        } else {
            Err(Bs2bError::InvalidSampleRate(sample_rate))
        }),
{
    if MIN_SAMPLE_RATE <= sample_rate && sample_rate <= MAX_SAMPLE_RATE {
        Ok(())
    } else {
        Err(Bs2bError::InvalidSampleRate(sample_rate))
    }
}

/// What a processor has to do to its filter after a settings change.
#[derive(Debug, Clone, Copy, PartialEq, Eq, Structural)]
pub enum FilterUpdate {
    /// Nothing changed: keep the coefficients and the filter history.
    Keep,
    /// Recompute the coefficients and keep the filter history.
    Recompute,
    /// Recompute the coefficients and clear the filter history.
    RecomputeAndClear,
}

/// What a request for `requested` does to a processor running at `current`.
pub open spec fn sample_rate_update(current: u32, requested: u32) -> Result<FilterUpdate, Bs2bError> {
    if !valid_sample_rate(requested) {
        Err(Bs2bError::InvalidSampleRate(requested))
    } else if requested == current {
        Ok(FilterUpdate::Keep)
    } else {
        Ok(FilterUpdate::RecomputeAndClear)
    }
}

/// What a request for the level `requested` does to a processor at `current`.
pub open spec fn level_update(current: Level, requested: Level) -> FilterUpdate {
    if requested == current {
        FilterUpdate::Keep
    } else {
        FilterUpdate::Recompute
    }
}

/// The validated settings of a crossfeed processor: its sample rate and
/// its crossfeed level.
#[derive(Debug, Clone, Copy)]
pub struct Settings {
    sample_rate: u32,
    level: Level,
}

impl Settings {
    /// The sample rate is always accepted.
    #[verifier::type_invariant]
    pub closed spec fn well_formed(self) -> bool {
        valid_sample_rate(self.sample_rate)
    }

    /// The sample rate of these settings, in Hz.
    pub closed spec fn rate(self) -> u32 {
        self.sample_rate
    }

    /// The crossfeed level of these settings.
    pub closed spec fn crossfeed(self) -> Level {
        self.level
    }

    /// Creates settings, rejecting a sample rate out of range.
    pub fn new(sample_rate: u32, level: Level) -> (result: Result<Self, Bs2bError>)
        ensures
            result is Ok <==> valid_sample_rate(sample_rate),
            result matches Ok(settings) ==> settings.rate() == sample_rate && settings.crossfeed() == level,
            result matches Err(e) ==> e == Bs2bError::InvalidSampleRate(sample_rate),
    {
        validate_sample_rate(sample_rate)?;
        Ok(Settings { sample_rate, level })
    }

    /// Creates settings from the packed C level representation: the level is
    /// checked first, then the sample rate.
    pub fn from_packed_level(sample_rate: u32, level: u32) -> (result: Result<Self, Bs2bError>)
        ensures
            match Level::spec_new(crate::level::unpack_cut(level), crate::level::unpack_feed(level)) {
                Err(e) => result == Err::<Settings, Bs2bError>(e),
                Ok(l) => {
                    &&& result is Ok <==> valid_sample_rate(sample_rate)
                    &&& result matches Ok(settings) ==> settings.rate() == sample_rate
                        && settings.crossfeed() == l
                    &&& result matches Err(e) ==> e == Bs2bError::InvalidSampleRate(sample_rate)
                },
            },
    {
        let level = Level::from_packed(level)?;
        Self::new(sample_rate, level)
    }

    /// Returns the current sample rate in Hz.
    pub fn sample_rate(&self) -> (sample_rate: u32)
        ensures
            sample_rate == self.rate(),
            valid_sample_rate(sample_rate),
    {
        proof { use_type_invariant(self); }
        self.sample_rate
    }

    /// Returns the current level.
    pub fn level(&self) -> (level: Level)
        ensures
            level == self.crossfeed(),
    {
        self.level
    }

    /// Returns the current packed level representation.
    pub fn packed_level(&self) -> (packed: u32)
        ensures
            packed == spec_pack(self.crossfeed().cut(), self.crossfeed().feed()),
            packed == self.crossfeed().cut() + self.crossfeed().feed() * 0x10000,
    {
        self.level.packed()
    }

    /// Returns the low-frequency delay for the current level in microseconds.
    pub fn level_delay_microseconds(&self) -> (delay: u32)
        ensures
            delay == (18_700u32 / self.crossfeed().cut()) * 10,
    {
        self.level.delay_microseconds()
    }

    /// Asks for a new sample rate. A rejected rate leaves the settings as
    /// they were; an accepted one that differs asks for new coefficients and
    /// a cleared filter history.
    pub fn set_sample_rate(&mut self, sample_rate: u32) -> (result: Result<FilterUpdate, Bs2bError>)
        ensures
            result == sample_rate_update(old(self).rate(), sample_rate),
            final(self).rate() == (if result is Ok { sample_rate } else { old(self).rate() }),
            final(self).crossfeed() == old(self).crossfeed(),
    {
        proof { use_type_invariant(&*self); }
        validate_sample_rate(sample_rate)?;
        if self.sample_rate == sample_rate {
            return Ok(FilterUpdate::Keep);
        }
        self.sample_rate = sample_rate;
        Ok(FilterUpdate::RecomputeAndClear)
    }

    /// Asks for a new crossfeed level. A different level asks for new
    /// coefficients and keeps the filter history.
    pub fn set_level(&mut self, level: Level) -> (update: FilterUpdate)
        ensures
            update == level_update(old(self).crossfeed(), level),
            update == (if level == old(self).crossfeed() { FilterUpdate::Keep } else { FilterUpdate::Recompute }),
            final(self).crossfeed() == level,
            final(self).rate() == old(self).rate(),
    {
        proof { use_type_invariant(&*self); }
        if self.level == level {
            return FilterUpdate::Keep;
        }
        self.level = level;
        FilterUpdate::Recompute
    }
}

/// Number of stereo frames in an interleaved buffer of `sample_count`
/// samples, which must be even.
pub fn interleaved_frame_count(sample_count: usize) -> (result: Result<usize, Bs2bError>)
    ensures
        result is Ok <==> sample_count % 2 == 0,
        result matches Ok(frames) ==> frames * 2 == sample_count,
        result matches Err(e) ==> e == Bs2bError::OddInterleavedSamples(sample_count),
{
    if sample_count % 2 != 0 {
        return Err(Bs2bError::OddInterleavedSamples(sample_count));
    }
    Ok(sample_count / 2)
}

/// Number of stereo frames in planar buffers of `left_len` and `right_len`
/// samples, which must be equal.
pub fn planar_frame_count(left_len: usize, right_len: usize) -> (result: Result<usize, Bs2bError>)
    ensures
        result is Ok <==> left_len == right_len,
        result matches Ok(frames) ==> frames == left_len,
        result matches Err(e) ==> e == (Bs2bError::MismatchedPlanarLengths { left: left_len, right: right_len }),
{
    if left_len != right_len {
        return Err(Bs2bError::MismatchedPlanarLengths { left: left_len, right: right_len });
    }
    Ok(left_len)
}

/// Law: asking again for a sample rate that was just accepted changes nothing.
pub proof fn lemma_sample_rate_update_idempotent(current: u32, requested: u32)
    requires
        sample_rate_update(current, requested) is Ok,
    ensures
        sample_rate_update(requested, requested) == Ok::<FilterUpdate, Bs2bError>(FilterUpdate::Keep),
{
}

/// Law: a sample-rate change clears the filter history exactly when the rate
/// actually changes, and never on a rejected request.
pub proof fn lemma_sample_rate_update_clears(current: u32, requested: u32)
    ensures
        sample_rate_update(current, requested) == Ok::<FilterUpdate, Bs2bError>(FilterUpdate::RecomputeAndClear)
            <==> (valid_sample_rate(requested) && requested != current),
        sample_rate_update(current, requested) != Ok::<FilterUpdate, Bs2bError>(FilterUpdate::Recompute),
{
}

/// Law: a level change never clears the filter history, and asking again for
/// the level just set changes nothing.
pub proof fn lemma_level_update_keeps_history(current: Level, requested: Level)
    ensures
        level_update(current, requested) != FilterUpdate::RecomputeAndClear,
        level_update(requested, requested) == FilterUpdate::Keep,
{
}

/// Law: a sample-rate request is answered by its own rate alone: a rate out
/// of range is refused with that rate, the current rate keeps everything, and
/// any other accepted rate asks for new coefficients and a cleared history.
pub proof fn lemma_sample_rate_update_answers(current: u32, requested: u32)
    ensures
        !(MIN_SAMPLE_RATE <= requested && requested <= MAX_SAMPLE_RATE) ==> sample_rate_update(current, requested)
            == Err::<FilterUpdate, Bs2bError>(Bs2bError::InvalidSampleRate(requested)),
        MIN_SAMPLE_RATE <= requested <= MAX_SAMPLE_RATE && requested == current ==> sample_rate_update(current, requested)
            == Ok::<FilterUpdate, Bs2bError>(FilterUpdate::Keep),
        MIN_SAMPLE_RATE <= requested <= MAX_SAMPLE_RATE && requested != current ==> sample_rate_update(current, requested)
            == Ok::<FilterUpdate, Bs2bError>(FilterUpdate::RecomputeAndClear),
{
}

/// Law: a level that differs from the current one, in any way, always asks
/// for new coefficients (keeping the history); only the same level keeps
/// everything.
pub proof fn lemma_level_update_answers(current: Level, requested: Level)
    ensures
        requested != current ==> level_update(current, requested) == FilterUpdate::Recompute,
        requested == current ==> level_update(current, requested) == FilterUpdate::Keep,
{
}

} // verus!
