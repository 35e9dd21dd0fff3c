use bs2b::level::Level;
use bs2b::{Bs2bError, MAX_CUT_FREQUENCY, MAX_FEED_DB_TENTHS, MIN_CUT_FREQUENCY, MIN_FEED_DB_TENTHS};

#[test]
fn level_validation_checks_bounds() {
    assert!(Level::new(700, 45).is_ok());
    assert!(matches!(
        Level::new(299, 45),
        Err(Bs2bError::InvalidCutFrequency(299))
    ));
    assert!(matches!(
        Level::new(700, 151),
        Err(Bs2bError::InvalidFeedLevel(151))
    ));
}

#[test]
fn delay_microseconds_matches_reference_formula() {
    let level = Level::default_level();
    assert_eq!(level.delay_microseconds(), (18_700 / 700) * 10);
}

#[test]
fn level_bounds_are_inclusive() {
    assert!(Level::new(MIN_CUT_FREQUENCY, MIN_FEED_DB_TENTHS).is_ok());
    assert!(Level::new(MAX_CUT_FREQUENCY, MAX_FEED_DB_TENTHS).is_ok());
    assert_eq!(Level::new(2_001, 45), Err(Bs2bError::InvalidCutFrequency(2_001)));
    assert_eq!(Level::new(700, 9), Err(Bs2bError::InvalidFeedLevel(9)));
}

#[test]
fn cut_frequency_is_checked_before_feed_level() {
    assert_eq!(Level::new(100, 500), Err(Bs2bError::InvalidCutFrequency(100)));
}

#[test]
fn presets_hold_their_parameters() {
    let default = Level::default_level();
    assert_eq!(default.cut_frequency_hz(), 700);
    assert_eq!(default.feed_db_tenths(), 45);
    let cmoy = Level::cmoy();
    assert_eq!(cmoy.cut_frequency_hz(), 700);
    assert_eq!(cmoy.feed_db_tenths(), 60);
    let jmeier = Level::jmeier();
    assert_eq!(jmeier.cut_frequency_hz(), 650);
    assert_eq!(jmeier.feed_db_tenths(), 95);
}

#[test]
fn packed_matches_c_layout() {
    assert_eq!(Level::default_level().packed(), 700 | (45 << 16));
    assert_eq!(Level::default_level().packed(), 2_949_820);
    assert_eq!(Level::jmeier().packed(), 650 + 95 * 65_536);
}

#[test]
fn packed_roundtrip_for_presets_and_custom_levels() {
    for level in [
        Level::default_level(),
        Level::cmoy(),
        Level::jmeier(),
        Level::new(300, 10).unwrap(),
        Level::new(2_000, 150).unwrap(),
    ] {
        assert_eq!(Level::from_packed(level.packed()), Ok(level));
    }
}

#[test]
fn from_packed_validates_both_halves() {
    assert_eq!(Level::from_packed(0), Err(Bs2bError::InvalidCutFrequency(0)));
    assert_eq!(
        Level::from_packed(700 | (200 << 16)),
        Err(Bs2bError::InvalidFeedLevel(200))
    );
    assert_eq!(Level::from_packed(700 | (45 << 16)), Ok(Level::default_level()));
    assert_eq!(
        Level::from_packed(0xffff_ffff),
        Err(Bs2bError::InvalidCutFrequency(0xffff))
    );
}

#[test]
fn delay_for_each_preset() {
    assert_eq!(Level::default_level().delay_microseconds(), 260);
    assert_eq!(Level::cmoy().delay_microseconds(), 260);
    assert_eq!(Level::jmeier().delay_microseconds(), 280);
    assert_eq!(Level::new(300, 45).unwrap().delay_microseconds(), 620);
    assert_eq!(Level::new(2_000, 45).unwrap().delay_microseconds(), 90);
}
