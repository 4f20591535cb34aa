//! Tables and envelopes: exact fixed-point values at the cardinal points.

use gct::envelope::{Envelope, EnvelopeMode};
use gct::table::{Table, TableMode};
use gct::GrainError;

const UNIT: i64 = 1_000_000;

#[test]
fn sine_table_has_requested_length_and_zero_ends() {
    for len in [2usize, 5, 64, 4096] {
        let t = Table::table(TableMode::Sine, len).unwrap();
        assert_eq!(t.len(), len);
        assert_eq!(t[0], 0);
        assert_eq!(t[len - 1], 0);
    }
}

#[test]
fn sine_table_hits_cardinal_points() {
    let t = Table::table(TableMode::Sine, 5).unwrap();
    assert_eq!(t, vec![0, UNIT, 0, -UNIT, 0]);
}

#[test]
fn sine_table_rejects_short_lengths() {
    assert_eq!(Table::table(TableMode::Sine, 0), Err(GrainError::LengthTooSmall));
    assert_eq!(Table::table(TableMode::Sine, 1), Err(GrainError::LengthTooSmall));
}

#[test]
fn rect_envelope_is_all_ones() {
    for len in [2usize, 17, 256] {
        let e = Envelope::generate_envelope(EnvelopeMode::Rect, len).unwrap();
        assert_eq!(e.len(), len);
        assert!(e.iter().all(|&v| v == UNIT));
    }
}

#[test]
fn hanning_envelope_zero_ends_unit_middle() {
    let e = Envelope::generate_envelope(EnvelopeMode::Hanning, 5).unwrap();
    assert_eq!(e, vec![0, UNIT / 2, UNIT, UNIT / 2, 0]);
    let e = Envelope::generate_envelope(EnvelopeMode::Hanning, 101).unwrap();
    assert_eq!(e[0], 0);
    assert_eq!(e[100], 0);
    assert_eq!(e[50], UNIT);
}

#[test]
fn percussive_envelope_ramps_up_then_down() {
    let len = 100usize;
    let n: usize = len / 50 + 1;
    let e = Envelope::generate_envelope(EnvelopeMode::Percussive, len).unwrap();
    assert_eq!(e.len(), len);
    assert_eq!(e[0], 0);
    assert_eq!(e[len - 1], 0);
    for i in 0..n - 1 {
        assert!(e[i] < e[i + 1], "attack not strictly increasing at {i}");
    }
    for i in n..len - 1 {
        assert!(e[i] > e[i + 1], "decay not strictly decreasing at {i}");
    }
}

#[test]
fn envelope_rejects_bad_lengths() {
    assert_eq!(
        Envelope::generate_envelope(EnvelopeMode::Hanning, 1),
        Err(GrainError::LengthTooSmall)
    );
    assert_eq!(
        Envelope::generate_envelope(EnvelopeMode::Percussive, 3),
        Err(GrainError::EnvelopeTooShort)
    );
}
