//! The grain renderer: output lengths, the equal-power pan law, exact
//! interpolation values and whole-grain reversal.

use gct::envelope::EnvelopeMode;
use gct::grain::Grain;
use gct::table::{Table, TableMode};
use gct::GrainError;

const UNIT: i64 = 1_000_000;

fn ramp(len: usize) -> Vec<i64> {
    (0..len).map(|i| (i as i64 * UNIT) / (len as i64 - 1)).collect()
}

#[test]
fn sound_grain_is_twice_the_grain_length() {
    let sig = ramp(256);
    for gs in [2i64, 7, 64, 333] {
        let grain = Grain::new(gs, UNIT, 500_000, Some(EnvelopeMode::Hanning)).unwrap();
        let out = grain.generate_sound_grain(&sig, 0, UNIT, false).unwrap();
        assert_eq!(out.len(), 2 * gs as usize);
    }
}

#[test]
fn center_pan_gains_are_equal() {
    let grain = Grain::new(64, UNIT, 500_000, None).unwrap();
    assert_eq!(grain.left_pan_value, grain.right_pan_value);
    assert_eq!(grain.left_pan_value, 707_106);
}

#[test]
fn hard_pan_gains_are_zero_and_one() {
    let grain = Grain::new(64, UNIT, 0, None).unwrap();
    assert_eq!(grain.left_pan_value, 0);
    assert_eq!(grain.right_pan_value, UNIT);
    let grain = Grain::new(64, UNIT, UNIT, None).unwrap();
    assert_eq!(grain.left_pan_value, UNIT);
    assert_eq!(grain.right_pan_value, 0);
}

#[test]
fn sound_grain_exact_values_on_a_tiny_source() {
    // Grain of two samples, rectangular window, full amplitude, panned
    // hard right: the resampler reads the first source sample twice.
    let grain = Grain::new(2, UNIT, 0, None).unwrap();
    let sig = vec![UNIT, 0];
    let out = grain.generate_sound_grain(&sig, 0, UNIT, false).unwrap();
    assert_eq!(out, vec![0, UNIT, 0, UNIT]);
}

#[test]
fn reversed_grain_is_the_element_reverse() {
    let sig = ramp(128);
    let grain = Grain::new(33, 700_000, 250_000, Some(EnvelopeMode::Hanning)).unwrap();
    let fwd = grain.generate_sound_grain(&sig, 300_000, 1_500_000, false).unwrap();
    let rev = grain.generate_sound_grain(&sig, 300_000, 1_500_000, true).unwrap();
    let mut expected = fwd.clone();
    expected.reverse();
    assert_eq!(rev, expected);
}

#[test]
fn frame_grain_equals_sound_grain_at_zero_offset() {
    let frame = ramp(64);
    let grain = Grain::new(16, UNIT, 500_000, None).unwrap();
    let a = grain.build_grain_from_frame(&frame, 2_000_000, false).unwrap();
    let b = grain.generate_sound_grain(&frame, 0, 2_000_000, false).unwrap();
    assert_eq!(a, b);
}

#[test]
fn synthetic_grain_is_mono_of_the_grain_length() {
    let table = Table::table(TableMode::Sine, 4096).unwrap();
    for gs in [2i64, 64, 500] {
        let grain = Grain::new(gs, UNIT, 500_000, Some(EnvelopeMode::Rect)).unwrap();
        let out = grain.generate_synthetic_grain(&table, 440_000_000, 44_100).unwrap();
        assert_eq!(out.len(), gs as usize);
    }
}

#[test]
fn synthetic_grain_interpolates_the_table() {
    // A two-sample table rising from zero to one, stepped by half a
    // sample per output index: the second output is the midpoint.
    let grain = Grain::new(2, UNIT, 500_000, None).unwrap();
    let table = vec![0, UNIT];
    let out = grain.generate_synthetic_grain(&table, 250_000, 1).unwrap();
    assert_eq!(out, vec![0, UNIT / 2]);
}

#[test]
fn renderer_rejects_degenerate_inputs() {
    assert_eq!(
        Grain::new(1, UNIT, 0, None).map(|_| ()),
        Err(GrainError::LengthTooSmall)
    );
    assert_eq!(
        Grain::new(10, UNIT, 2 * UNIT, None).map(|_| ()),
        Err(GrainError::InvalidRange)
    );
    let grain = Grain::new(4, UNIT, 500_000, None).unwrap();
    assert_eq!(
        grain.generate_sound_grain(&vec![0], 0, UNIT, false),
        Err(GrainError::SourceTooShort)
    );
    assert_eq!(
        grain.generate_synthetic_grain(&vec![UNIT], UNIT, 44_100),
        Err(GrainError::SourceTooShort)
    );
}
