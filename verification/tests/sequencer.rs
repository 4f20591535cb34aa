//! The parameter sequencer: draws stay in their ranges, degenerate
//! ranges are exact, and the reverse policy is obeyed.

use gct::envelope::EnvelopeMode;
use gct::params::{GrainParams, GrainSettings, ParamRange, ReverseMode};
use gct::GrainError;
use std::sync::Arc;

const UNIT: i64 = 1_000_000;

fn fixed(v: i64) -> ParamRange {
    ParamRange { min: v, max: v }
}

fn settings_with(reverse: ReverseMode) -> GrainSettings {
    GrainSettings::new(
        ParamRange { min: 10_000, max: 700_000 },
        ParamRange { min: 100_000, max: 2_500_000 },
        reverse,
        ParamRange { min: 100_000, max: 1_000_000 },
        ParamRange { min: 100_000, max: 700_000 },
        ParamRange { min: 0, max: 1_000_000 },
        ParamRange { min: 10_000, max: 100_000 },
        44_100,
        Some(EnvelopeMode::Hanning),
    )
    .unwrap()
}

#[test]
fn degenerate_ranges_always_yield_their_value() {
    let settings = GrainSettings::new(
        fixed(500_000),
        fixed(1_000_000),
        ReverseMode::NotReverse,
        fixed(500_000),
        fixed(707_000),
        fixed(250_000),
        fixed(100_000),
        44_100,
        None,
    )
    .unwrap();
    let mut params = GrainParams::new(Arc::new(settings));
    for _ in 0..1000 {
        assert_eq!(params.dur, 22_050);
        assert_eq!(params.freq, 1_000_000);
        assert_eq!(params.pan_pos, 500_000);
        assert_eq!(params.amp, 707_000);
        assert_eq!(params.time_pos, 250_000);
        assert_eq!(params.delay, 100_000);
        params.update_params();
    }
}

#[test]
fn draws_stay_in_their_ranges() {
    let settings = settings_with(ReverseMode::RandomReverse);
    let mut params = GrainParams::new(Arc::new(settings));
    for _ in 0..1000 {
        assert!((10_000 * 44_100 / UNIT..700_000 * 44_100 / UNIT + 1).contains(&params.dur));
        assert!((100_000..2_500_000).contains(&params.freq));
        assert!((100_000..1_000_000).contains(&params.pan_pos));
        assert!((100_000..700_000).contains(&params.amp));
        assert!((0..1_000_000).contains(&params.time_pos));
        assert!((10_000..100_000).contains(&params.delay));
        assert_eq!(params.env_mode, Some(EnvelopeMode::Hanning));
        params.update_params();
    }
}

#[test]
fn draws_vary_over_an_open_range() {
    let settings = settings_with(ReverseMode::NotReverse);
    let mut params = GrainParams::new(Arc::new(settings));
    let first: i64 = params.freq;
    let mut saw_other = false;
    for _ in 0..200 {
        params.update_params();
        if params.freq != first {
            saw_other = true;
        }
    }
    assert!(saw_other, "two hundred draws from a wide range never moved");
}

#[test]
fn reverse_policy_always_and_never_are_pinned() {
    let mut always = GrainParams::new(Arc::new(settings_with(ReverseMode::Reverse)));
    let mut never = GrainParams::new(Arc::new(settings_with(ReverseMode::NotReverse)));
    for _ in 0..100 {
        assert!(always.rev);
        assert!(!never.rev);
        always.update_params();
        never.update_params();
    }
}

#[test]
fn random_reverse_is_roughly_balanced() {
    let mut params = GrainParams::new(Arc::new(settings_with(ReverseMode::RandomReverse)));
    let mut trues: i64 = 0;
    for _ in 0..10_000 {
        params.update_params();
        if params.rev {
            trues += 1;
        }
    }
    assert!((4500..=5500).contains(&trues), "true-count {trues} out of balance");
}

#[test]
fn settings_reject_bad_configurations() {
    let good = fixed(100_000);
    let reversed = ParamRange { min: 2, max: 1 };
    assert_eq!(
        GrainSettings::new(
            reversed,
            good,
            ReverseMode::NotReverse,
            good,
            good,
            good,
            good,
            44_100,
            None
        )
        .map(|_| ()),
        Err(GrainError::InvalidRange)
    );
    assert_eq!(
        GrainSettings::new(
            good,
            good,
            ReverseMode::NotReverse,
            good,
            good,
            good,
            good,
            0,
            None
        )
        .map(|_| ()),
        Err(GrainError::InvalidSampleRate)
    );
    // Pan beyond one whole unit.
    assert_eq!(
        GrainSettings::new(
            good,
            good,
            ReverseMode::NotReverse,
            ParamRange { min: 0, max: 2_000_000 },
            good,
            good,
            good,
            44_100,
            None
        )
        .map(|_| ()),
        Err(GrainError::InvalidRange)
    );
}

#[test]
fn default_settings_match_the_documented_values() {
    let s = GrainSettings::default();
    assert_eq!(s.dur_range, ParamRange { min: 100_000, max: 1_000_000 });
    assert_eq!(s.freq_range, fixed(1_000_000));
    assert_eq!(s.pan_range, fixed(500_000));
    assert_eq!(s.amp_range, fixed(707_000));
    assert_eq!(s.time_pos_range, fixed(0));
    assert_eq!(s.delay_range, fixed(100_000));
    assert_eq!(s.sr, 44_100);
    assert!(s.env_mode.is_none());
    assert!(matches!(s.reverse, ReverseMode::NotReverse));
}
