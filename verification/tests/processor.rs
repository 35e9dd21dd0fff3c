use bs2b::level::Level;
use bs2b::processor::{interleaved_frame_count, planar_frame_count, validate_sample_rate, FilterUpdate, Settings};
use bs2b::{Bs2bError, DEFAULT_SAMPLE_RATE, MAX_SAMPLE_RATE, MIN_SAMPLE_RATE};

#[test]
fn sample_rate_validation_checks_bounds() {
    assert!(Settings::new(MIN_SAMPLE_RATE, Level::default_level()).is_ok());
    assert!(matches!(
        Settings::new(MIN_SAMPLE_RATE - 1, Level::default_level()),
        Err(Bs2bError::InvalidSampleRate(1_999))
    ));
}

#[test]
fn validate_sample_rate_bounds() {
    assert_eq!(validate_sample_rate(MIN_SAMPLE_RATE), Ok(()));
    assert_eq!(validate_sample_rate(MAX_SAMPLE_RATE), Ok(()));
    assert_eq!(validate_sample_rate(384_001), Err(Bs2bError::InvalidSampleRate(384_001)));
    assert_eq!(validate_sample_rate(0), Err(Bs2bError::InvalidSampleRate(0)));
}

#[test]
fn settings_report_their_parameters() {
    let settings = Settings::new(DEFAULT_SAMPLE_RATE, Level::jmeier()).unwrap();
    assert_eq!(settings.sample_rate(), 44_100);
    assert_eq!(settings.level(), Level::jmeier());
    assert_eq!(settings.packed_level(), 650 | (95 << 16));
    assert_eq!(settings.level_delay_microseconds(), 280);
}

#[test]
fn from_packed_level_checks_level_first() {
    assert_eq!(
        Settings::from_packed_level(1, 0).map(|s| s.sample_rate()),
        Err(Bs2bError::InvalidCutFrequency(0))
    );
    assert_eq!(
        Settings::from_packed_level(1, 700 | (45 << 16)).map(|s| s.sample_rate()),
        Err(Bs2bError::InvalidSampleRate(1))
    );
    let settings = Settings::from_packed_level(48_000, 650 | (95 << 16)).unwrap();
    assert_eq!(settings.sample_rate(), 48_000);
    assert_eq!(settings.level(), Level::jmeier());
}

#[test]
fn set_sample_rate_asks_to_clear_history_on_change() {
    let mut settings = Settings::new(DEFAULT_SAMPLE_RATE, Level::default_level()).unwrap();
    assert_eq!(settings.set_sample_rate(48_000), Ok(FilterUpdate::RecomputeAndClear));
    assert_eq!(settings.sample_rate(), 48_000);
    assert_eq!(settings.set_sample_rate(48_000), Ok(FilterUpdate::Keep));
    assert_eq!(settings.sample_rate(), 48_000);
    assert_eq!(settings.level(), Level::default_level());
}

#[test]
fn rejected_sample_rate_changes_nothing() {
    let mut settings = Settings::new(DEFAULT_SAMPLE_RATE, Level::default_level()).unwrap();
    assert_eq!(settings.set_sample_rate(1_000_000), Err(Bs2bError::InvalidSampleRate(1_000_000)));
    assert_eq!(settings.sample_rate(), DEFAULT_SAMPLE_RATE);
}

#[test]
fn set_level_keeps_history() {
    let mut settings = Settings::new(DEFAULT_SAMPLE_RATE, Level::default_level()).unwrap();
    assert_eq!(settings.set_level(Level::cmoy()), FilterUpdate::Recompute);
    assert_eq!(settings.level(), Level::cmoy());
    assert_eq!(settings.set_level(Level::cmoy()), FilterUpdate::Keep);
    assert_eq!(settings.sample_rate(), DEFAULT_SAMPLE_RATE);
}

#[test]
fn interleaved_rejects_odd_length() {
    assert!(matches!(
        interleaved_frame_count(3),
        Err(Bs2bError::OddInterleavedSamples(3))
    ));
}

#[test]
fn interleaved_frame_counts() {
    assert_eq!(interleaved_frame_count(0), Ok(0));
    assert_eq!(interleaved_frame_count(8), Ok(4));
    assert_eq!(interleaved_frame_count(32), Ok(16));
}

#[test]
fn planar_rejects_mismatched_lengths() {
    assert!(matches!(
        planar_frame_count(2, 1),
        Err(Bs2bError::MismatchedPlanarLengths { left: 2, right: 1 })
    ));
}

#[test]
fn planar_frame_counts() {
    assert_eq!(planar_frame_count(4, 4), Ok(4));
    assert_eq!(planar_frame_count(0, 0), Ok(0));
}
