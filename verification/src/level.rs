//! Crossfeed levels and their packed C representation.
use vstd::prelude::*;

use crate::error::Bs2bError;
use crate::{MAX_CUT_FREQUENCY, MAX_FEED_DB_TENTHS, MIN_CUT_FREQUENCY, MIN_FEED_DB_TENTHS};

verus! {

/// True when `cut_frequency_hz` is an accepted crossover frequency.
pub open spec fn valid_cut_frequency(cut_frequency_hz: u32) -> bool {
    MIN_CUT_FREQUENCY <= cut_frequency_hz <= MAX_CUT_FREQUENCY
}

/// True when `feed_db_tenths` is an accepted feed level.
pub open spec fn valid_feed_level(feed_db_tenths: u32) -> bool {
    MIN_FEED_DB_TENTHS <= feed_db_tenths <= MAX_FEED_DB_TENTHS
}

/// The packed C representation of a cut frequency and a feed level.
pub open spec fn spec_pack(cut_frequency_hz: u32, feed_db_tenths: u32) -> u32 {
    cut_frequency_hz | (feed_db_tenths << 16)
}

/// The cut frequency that a packed value holds: its low 16 bits.
pub open spec fn unpack_cut(value: u32) -> u32 {
    value & 0xffff
}

/// The feed level that a packed value holds: its high 16 bits.
pub open spec fn unpack_feed(value: u32) -> u32 {
    value >> 16
}

/// For in-range parts, packing is plain arithmetic and unpacking recovers them.
pub proof fn lemma_pack_value(cut_frequency_hz: u32, feed_db_tenths: u32)
    requires
        cut_frequency_hz < 0x10000,
        feed_db_tenths < 0x10000,
    ensures
        spec_pack(cut_frequency_hz, feed_db_tenths) == cut_frequency_hz + feed_db_tenths * 0x10000,
        unpack_cut(spec_pack(cut_frequency_hz, feed_db_tenths)) == cut_frequency_hz,
        unpack_feed(spec_pack(cut_frequency_hz, feed_db_tenths)) == feed_db_tenths,
{
    assert(cut_frequency_hz < 0x10000 && feed_db_tenths < 0x10000 ==> (cut_frequency_hz | (feed_db_tenths << 16))
        == cut_frequency_hz + feed_db_tenths * 0x10000) by (bit_vector);
    assert(cut_frequency_hz < 0x10000 && feed_db_tenths < 0x10000 ==> (cut_frequency_hz | (feed_db_tenths << 16))
        & 0xffff == cut_frequency_hz) by (bit_vector);
    assert(cut_frequency_hz < 0x10000 && feed_db_tenths < 0x10000 ==> (cut_frequency_hz | (feed_db_tenths << 16))
        >> 16 == feed_db_tenths) by (bit_vector);
}

/// Every 32-bit value is the packing of its own two halves.
pub proof fn lemma_unpack_pack(value: u32)
    ensures
        spec_pack(unpack_cut(value), unpack_feed(value)) == value,
{
    assert((value & 0xffff) | ((value >> 16) << 16) == value) by (bit_vector);
}

/// Crossfeed level definition.
#[derive(Debug, Clone, Copy, PartialEq, Eq, Structural)]
pub struct Level {
    /// Low-pass crossover in Hz.
    cut_frequency_hz: u32,
    /// Crossfeed level at low frequencies in dB * 10.
    feed_db_tenths: u32,
}

impl Level {
    /// Every level holds an accepted cut frequency and feed level.
    #[verifier::type_invariant]
    pub closed spec fn well_formed(self) -> bool {
        valid_cut_frequency(self.cut_frequency_hz) && valid_feed_level(self.feed_db_tenths)
    }

    /// A well-formed level is one whose parts are in range.
    pub proof fn lemma_well_formed(level: Level)
        ensures
            level.well_formed() <==> (valid_cut_frequency(level.cut()) && valid_feed_level(level.feed())),
    {
    }

    /// Crossover frequency of this level, in Hz.
    pub closed spec fn cut(self) -> u32 {
        self.cut_frequency_hz
    }

    /// Feed level of this level, in dB * 10.
    pub closed spec fn feed(self) -> u32 {
        self.feed_db_tenths
    }

    /// What `Level::new` returns for the given parameters.
    pub open spec fn spec_new(cut_frequency_hz: u32, feed_db_tenths: u32) -> Result<Level, Bs2bError> {
        if !valid_cut_frequency(cut_frequency_hz) {
            Err(Bs2bError::InvalidCutFrequency(cut_frequency_hz))
        } else if !valid_feed_level(feed_db_tenths) {
            Err(Bs2bError::InvalidFeedLevel(feed_db_tenths))
        } else {
            Ok(Level::from_parts(cut_frequency_hz, feed_db_tenths))
        }
    }

    /// The level with the given parts.
    pub closed spec fn from_parts(cut_frequency_hz: u32, feed_db_tenths: u32) -> Level {
        Level { cut_frequency_hz, feed_db_tenths }
    }

    /// A level is determined by its parts.
    pub proof fn lemma_from_parts(cut_frequency_hz: u32, feed_db_tenths: u32)
        ensures
            Level::from_parts(cut_frequency_hz, feed_db_tenths).cut() == cut_frequency_hz,
            Level::from_parts(cut_frequency_hz, feed_db_tenths).feed() == feed_db_tenths,
            forall|l: Level| l.cut() == cut_frequency_hz && l.feed() == feed_db_tenths
                ==> l == #[trigger] Level::from_parts(cut_frequency_hz, feed_db_tenths),
    {
    }

    /// Creates a validated level.
    pub fn new(cut_frequency_hz: u32, feed_db_tenths: u32) -> (result: Result<Self, Bs2bError>)
        ensures
            result == Level::spec_new(cut_frequency_hz, feed_db_tenths),
            result matches Ok(level) ==> level.cut() == cut_frequency_hz && level.feed() == feed_db_tenths,
    {
        if !(MIN_CUT_FREQUENCY <= cut_frequency_hz && cut_frequency_hz <= MAX_CUT_FREQUENCY) {
            return Err(Bs2bError::InvalidCutFrequency(cut_frequency_hz));
        }
        if !(MIN_FEED_DB_TENTHS <= feed_db_tenths && feed_db_tenths <= MAX_FEED_DB_TENTHS) {
            return Err(Bs2bError::InvalidFeedLevel(feed_db_tenths));
        }
        Ok(Level { cut_frequency_hz, feed_db_tenths })
    }

    /// Original bs2b default profile: 700 Hz, 4.5 dB.
    pub fn default_level() -> (level: Level)
        ensures
            level.cut() == 700 && level.feed() == 45,
    {
        Level { cut_frequency_hz: 700, feed_db_tenths: 45 }
    }

    /// Chu Moy profile: 700 Hz, 6.0 dB.
    pub fn cmoy() -> (level: Level)
        ensures
            level.cut() == 700 && level.feed() == 60,
    {
        Level { cut_frequency_hz: 700, feed_db_tenths: 60 }
    }

    /// Jan Meier profile: 650 Hz, 9.5 dB.
    pub fn jmeier() -> (level: Level)
        ensures
            level.cut() == 650 && level.feed() == 95,
    {
        Level { cut_frequency_hz: 650, feed_db_tenths: 95 }
    }

    /// Packs the level into the original C format: the cut frequency in the
    /// low 16 bits, the feed level above them.
    pub fn packed(self) -> (packed: u32)
        ensures
            packed == spec_pack(self.cut(), self.feed()),
            packed == self.cut() + self.feed() * 0x10000,
    {
        proof {
            use_type_invariant(&self);
            lemma_pack_value(self.cut_frequency_hz, self.feed_db_tenths);
        }
        self.cut_frequency_hz | (self.feed_db_tenths << 16)
    }

    /// Returns low-pass crossover in Hz.
    pub fn cut_frequency_hz(self) -> (cut: u32)
        ensures
            cut == self.cut(),
            valid_cut_frequency(cut),
    {
        proof { use_type_invariant(&self); }
        self.cut_frequency_hz
    }

    /// Returns crossfeed level at low frequencies in dB * 10.
    pub fn feed_db_tenths(self) -> (feed: u32)
        ensures
            feed == self.feed(),
            valid_feed_level(feed),
    {
        proof { use_type_invariant(&self); }
        self.feed_db_tenths
    }

    /// Unpacks the original C level representation and validates it.
    pub fn from_packed(value: u32) -> (result: Result<Self, Bs2bError>)
        ensures
            result == Level::spec_new(unpack_cut(value), unpack_feed(value)),
            result matches Ok(level) ==> level.cut() == unpack_cut(value) && level.feed() == unpack_feed(value),
    {
        let cut_frequency_hz = value & 0xffff;
        let feed_db_tenths = value >> 16;
        Self::new(cut_frequency_hz, feed_db_tenths)
    }

    /// Delay at low frequencies, in microseconds.
    pub fn delay_microseconds(self) -> (delay: u32)
        ensures
            delay == (18_700u32 / self.cut()) * 10,
    {
        proof { use_type_invariant(&self); }
        (18_700 / self.cut_frequency_hz) * 10
    }
}

/// Law: unpacking the packed form of a level gives the same level back.
pub proof fn lemma_from_packed_of_packed(level: Level)
    requires
        level.well_formed(),
    ensures
        Level::spec_new(
            unpack_cut(spec_pack(level.cut(), level.feed())),
            unpack_feed(spec_pack(level.cut(), level.feed())),
        ) == Ok::<Level, Bs2bError>(level),
{
    Level::lemma_well_formed(level);
    lemma_pack_value(level.cut(), level.feed());
    Level::lemma_from_parts(level.cut(), level.feed());
}

/// Law: a packed value that unpacks to a valid level is that level's packed form,
/// so no two accepted packed values give the same level.
pub proof fn lemma_packed_of_from_packed(value: u32, level: Level)
    requires
        Level::spec_new(unpack_cut(value), unpack_feed(value)) == Ok::<Level, Bs2bError>(level),
    ensures
        spec_pack(level.cut(), level.feed()) == value,
{
    Level::lemma_from_parts(unpack_cut(value), unpack_feed(value));
    lemma_unpack_pack(value);
}

/// Law: a level is accepted exactly when both parts are in range, and then
/// holds those parts; a cut frequency out of range is reported first, with
/// its value, and otherwise the feed level, with its value.
pub proof fn lemma_new_answers(cut_frequency_hz: u32, feed_db_tenths: u32)
    ensures
        Level::spec_new(cut_frequency_hz, feed_db_tenths) is Ok <==> (MIN_CUT_FREQUENCY <= cut_frequency_hz
            <= MAX_CUT_FREQUENCY && MIN_FEED_DB_TENTHS <= feed_db_tenths <= MAX_FEED_DB_TENTHS),
        Level::spec_new(cut_frequency_hz, feed_db_tenths) matches Ok(level) ==> level.cut() == cut_frequency_hz
            && level.feed() == feed_db_tenths,
        !(MIN_CUT_FREQUENCY <= cut_frequency_hz <= MAX_CUT_FREQUENCY) ==> Level::spec_new(cut_frequency_hz, feed_db_tenths)
            == Err::<Level, Bs2bError>(Bs2bError::InvalidCutFrequency(cut_frequency_hz)),
        MIN_CUT_FREQUENCY <= cut_frequency_hz <= MAX_CUT_FREQUENCY && !(MIN_FEED_DB_TENTHS <= feed_db_tenths
            <= MAX_FEED_DB_TENTHS) ==> Level::spec_new(cut_frequency_hz, feed_db_tenths)
            == Err::<Level, Bs2bError>(Bs2bError::InvalidFeedLevel(feed_db_tenths)),
{
    Level::lemma_from_parts(cut_frequency_hz, feed_db_tenths);
}

/// Law: the packed form holds the cut frequency in its low 16 bits and the
/// feed level in the bits above, for every 32-bit value.
pub proof fn lemma_unpack_answers(value: u32)
    ensures
        unpack_cut(value) == value % 0x10000,
        unpack_feed(value) == value / 0x10000,
{
    assert(value & 0xffff == value % 0x10000) by (bit_vector);
    assert(value >> 16 == value / 0x10000) by (bit_vector);
}

} // verus!
