//! Amplitude envelopes: the windows that shape a grain so it starts and
//! ends without clicks.

use vstd::prelude::*;
use crate::fixed::{MAX_LEN, UNIT};
use crate::trig::{cos_turn, cos_turn_spec, lemma_cos_turn_cardinal};
use crate::GrainError;
use vstd::arithmetic::div_mod::{
    lemma_div_by_multiple,
    lemma_div_is_ordered,
    lemma_div_of0,
    lemma_fundamental_div_mod,
};

verus! {

/// Window shapes the envelope generator knows.
#[derive(Clone, Copy, Debug, PartialEq, Eq, Structural)]
pub enum EnvelopeMode {
    Rect,
    Percussive,
    Hanning,
}

/// Length of the percussive attack: a fiftieth of the envelope plus one,
/// never below two.
pub open spec fn percussive_attack(length: int) -> int {
    if length / 50 + 1 <= 1 {
        2
    } else {
        length / 50 + 1
    }
}

/// Value of the envelope at index `i`, in fixed point.
///
/// The rectangular window is one everywhere. The Hanning window is the
/// raised cosine `(1 - cos(i / (length - 1) turns)) / 2`. The percussive
/// window ramps linearly up over the attack and linearly down over the
/// rest.
pub open spec fn env_val(mode: EnvelopeMode, length: int, i: int) -> int {
    match mode {
        EnvelopeMode::Rect => UNIT as int,
        EnvelopeMode::Hanning => ((UNIT as int) - cos_turn_spec(
            i * (UNIT as int) / (length - 1),
        )) / 2,
        EnvelopeMode::Percussive => {
            let n = percussive_attack(length);
            if i < n {
                i * (UNIT as int) / (n - 1)
            } else {
                (UNIT as int) - (i - n) * (UNIT as int) / (length - n - 1)
            }
        },
    }
}

/// The lengths a shape accepts: at least two samples, within the
/// fixed-point window, and past the attack for the percussive shape,
/// whose decay divides by `length - attack - 1`.
pub open spec fn env_len_ok(mode: EnvelopeMode, length: int) -> bool {
    &&& 2 <= length <= MAX_LEN
    &&& (mode is Percussive ==> length > percussive_attack(length) + 1)
}

/// Generator of amplitude windows.
pub struct Envelope {}

impl Envelope {
    /// The chosen window over `length` samples, each value in
    /// `[0, UNIT]`.
    pub fn generate_envelope(env_mode: EnvelopeMode, length: usize) -> (r: Result<
        Vec<i64>,
        GrainError,
    >)
        ensures
            length < 2 ==> r == Err::<Vec<i64>, GrainError>(GrainError::LengthTooSmall),
            length > MAX_LEN ==> r == Err::<Vec<i64>, GrainError>(GrainError::LengthTooLarge),
            2 <= length <= MAX_LEN && !env_len_ok(env_mode, length as int) ==> r == Err::<
                Vec<i64>,
                GrainError,
            >(GrainError::EnvelopeTooShort),
            env_len_ok(env_mode, length as int) ==> (r matches Ok(t) && t@.len() == length && (
            forall|i: int|
                0 <= i < length ==> #[trigger] t@[i] == env_val(env_mode, length as int, i)) && (
            forall|i: int| 0 <= i < length ==> 0 <= #[trigger] t@[i] <= UNIT)),
    {
        if length < 2 {
            return Err(GrainError::LengthTooSmall);
        }
        if length > MAX_LEN {
            return Err(GrainError::LengthTooLarge);
        }
        match env_mode {
            EnvelopeMode::Rect => {
                let mut t: Vec<i64> = Vec::new();
                let mut i: usize = 0;
                while i < length
                    invariant
                        i <= length,
                        t@.len() == i,
                        forall|k: int| 0 <= k < i ==> #[trigger] t@[k] == UNIT,
                    decreases length - i,
                {
                    t.push(UNIT);
                    i += 1;
                }
                Ok(t)
            },
            EnvelopeMode::Hanning => {
                let step_den: u64 = (length - 1) as u64;
                let mut t: Vec<i64> = Vec::new();
                let mut i: usize = 0;
                while i < length
                    invariant
                        2 <= length <= MAX_LEN,
                        step_den == length - 1,
                        i <= length,
                        t@.len() == i,
                        forall|k: int| 0 <= k < i ==> #[trigger] t@[k] == env_val(
                            EnvelopeMode::Hanning,
                            length as int,
                            k,
                        ),
                        forall|k: int| 0 <= k < i ==> 0 <= #[trigger] t@[k] <= UNIT,
                    decreases length - i,
                {
                    let turn: u64 = (i as u64) * 1_000_000 / step_den;
                    proof {
                        lemma_div_is_ordered(
                            (i as int) * 1_000_000,
                            (length - 1) as int * 1_000_000,
                            (length - 1) as int,
                        );
                        lemma_div_by_multiple(1_000_000int, (length - 1) as int);
                        assert((i as int) * 1_000_000 <= (length - 1) as int * 1_000_000)
                            by (nonlinear_arith)
                            requires 0 <= i <= length - 1;
                    }
                    let c: i64 = cos_turn(turn as i64);
                    let v: i64 = (((UNIT - c) as u64) / 2) as i64;
                    t.push(v);
                    i += 1;
                }
                Ok(t)
            },
            EnvelopeMode::Percussive => {
                let mut n: usize = length / 50 + 1;
                if n <= 1 {
                    n = 2;
                }
                if length <= n + 1 {
                    return Err(GrainError::EnvelopeTooShort);
                }
                let up_den: u64 = (n - 1) as u64;
                let down_den: u64 = (length - n - 1) as u64;
                let mut t: Vec<i64> = Vec::new();
                let mut i: usize = 0;
                while i < length
                    invariant
                        2 <= length <= MAX_LEN,
                        n == percussive_attack(length as int),
                        2 <= n,
                        n + 1 < length,
                        up_den == n - 1,
                        down_den == length - n - 1,
                        i <= length,
                        t@.len() == i,
                        forall|k: int| 0 <= k < i ==> #[trigger] t@[k] == env_val(
                            EnvelopeMode::Percussive,
                            length as int,
                            k,
                        ),
                        forall|k: int| 0 <= k < i ==> 0 <= #[trigger] t@[k] <= UNIT,
                    decreases length - i,
                {
                    let v: i64 = if i < n {
                        proof {
                            lemma_div_is_ordered(
                                (i as int) * 1_000_000,
                                (n - 1) as int * 1_000_000,
                                (n - 1) as int,
                            );
                            lemma_div_by_multiple(1_000_000int, (n - 1) as int);
                            assert((i as int) * 1_000_000 <= (n - 1) as int * 1_000_000)
                                by (nonlinear_arith)
                                requires 0 <= i <= n - 1;
                        }
                        ((i as u64) * 1_000_000 / up_den) as i64
                    } else {
                        proof {
                            lemma_div_is_ordered(
                                (i - n) as int * 1_000_000,
                                (length - n - 1) as int * 1_000_000,
                                (length - n - 1) as int,
                            );
                            lemma_div_by_multiple(1_000_000int, (length - n - 1) as int);
                            assert((i - n) as int * 1_000_000 <= (length - n - 1) as int
                                * 1_000_000) by (nonlinear_arith)
                                requires n <= i <= length - 1;
                        }
                        UNIT - (((i - n) as u64) * 1_000_000 / down_den) as i64
                    };
                    t.push(v);
                    i += 1;
                }
                Ok(t)
            },
        }
    }
}

/// One scaled-division step: when the divisor is no more than `UNIT`,
/// scaling consecutive integers by `UNIT / m` keeps them strictly apart.
proof fn lemma_scaled_div_strict(k: int, m: int)
    requires
        0 <= k,
        0 < m <= UNIT,
    ensures
        k * (UNIT as int) / m < (k + 1) * (UNIT as int) / m,
{
    let u: int = UNIT as int;
    lemma_fundamental_div_mod(k * u, m);
    let q: int = k * u / m;
    let r: int = k * u % m;
    assert(k * u >= 0) by (nonlinear_arith)
        requires k >= 0, u > 0;
    vstd::arithmetic::div_mod::lemma_div_pos_is_pos(k * u, m);
    assert((k + 1) * u == q * m + r + u) by (nonlinear_arith)
        requires k * u == m * q + r;
    assert((k + 1) * u >= (q + 1) * m) by (nonlinear_arith)
        requires (k + 1) * u == q * m + r + u, r >= 0, u >= m;
    lemma_div_by_multiple(q + 1, m);
    lemma_div_is_ordered((q + 1) * m, (k + 1) * u, m);
}

/// The Hanning window is exactly zero at both ends, and exactly one at
/// the midpoint of an odd length.
pub proof fn lemma_hanning_ends(length: int)
    requires
        2 <= length,
    ensures
        env_val(EnvelopeMode::Hanning, length, 0) == 0,
        env_val(EnvelopeMode::Hanning, length, length - 1) == 0,
        length % 2 == 1 ==> env_val(EnvelopeMode::Hanning, length, (length - 1) / 2)
            == UNIT as int,
{
    let u: int = UNIT as int;
    lemma_cos_turn_cardinal();
    lemma_div_of0(length - 1);
    assert(0 * u == 0);
    lemma_div_by_multiple(u, length - 1);
    assert((length - 1) * u == u * (length - 1)) by (nonlinear_arith);
    if length % 2 == 1 {
        let m: int = (length - 1) / 2;
        lemma_fundamental_div_mod(length - 1, 2);
        assert(length - 1 == 2 * m);
        assert(m * u == 500_000 * (2 * m)) by (nonlinear_arith)
            requires u == 1_000_000int;
        lemma_div_by_multiple(500_000int, 2 * m);
        assert(env_val(EnvelopeMode::Hanning, length, m) == (u - cos_turn_spec(500_000)) / 2);
    }
}

/// The percussive window starts at zero, climbs strictly over the attack
/// and falls strictly from the attack to its final zero.
pub proof fn lemma_percussive_shape(length: int)
    requires
        env_len_ok(EnvelopeMode::Percussive, length),
    ensures
        env_val(EnvelopeMode::Percussive, length, 0) == 0,
        env_val(EnvelopeMode::Percussive, length, length - 1) == 0,
        forall|i: int|
            0 <= i < percussive_attack(length) - 1 ==> #[trigger] env_val(
                EnvelopeMode::Percussive,
                length,
                i,
            ) < env_val(EnvelopeMode::Percussive, length, i + 1),
        forall|i: int|
            percussive_attack(length) <= i < length - 1 ==> #[trigger] env_val(
                EnvelopeMode::Percussive,
                length,
                i,
            ) > env_val(EnvelopeMode::Percussive, length, i + 1),
{
    let u: int = UNIT as int;
    let n: int = percussive_attack(length);
    lemma_div_of0(n - 1);
    assert(0 * u == 0);
    lemma_div_by_multiple(u, length - n - 1);
    assert((length - 1 - n) * u == u * (length - n - 1)) by (nonlinear_arith);
    vstd::arithmetic::div_mod::lemma_div_nonincreasing(length, 50);
    assert(n - 1 <= UNIT && length - n - 1 <= UNIT);
    assert forall|i: int|
        0 <= i < percussive_attack(length) - 1 implies #[trigger] env_val(EnvelopeMode::Percussive, length, i)
        < env_val(EnvelopeMode::Percussive, length, i + 1) by {
        lemma_scaled_div_strict(i, n - 1);
    }
    assert forall|i: int|
        percussive_attack(length) <= i < length - 1 implies #[trigger] env_val(
        EnvelopeMode::Percussive,
        length,
        i,
    ) > env_val(EnvelopeMode::Percussive, length, i + 1) by {
        lemma_scaled_div_strict(i - n, length - n - 1);
    }
}

} // verus!
