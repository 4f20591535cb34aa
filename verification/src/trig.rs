//! Fixed-point sine and cosine over turn fractions.
//!
//! Angles are fractions of a full turn in fixed point: `UNIT` is one whole
//! turn. The curve is Bhaskara I's rational approximation of the sine,
//! which is exact at zero, at a quarter turn and at a half turn — the
//! points the table and envelope endpoints land on.

use vstd::prelude::*;
use crate::fixed::UNIT;
use vstd::arithmetic::div_mod::{lemma_div_pos_is_pos, lemma_multiply_divide_le};

verus! {

/// Sine of `u` half-turns, `u` in `[0, UNIT]`, by Bhaskara I's
/// approximation: `16 u (U - u) U / (5 U^2 - 4 u (U - u))`.
pub open spec fn sin_half_spec(u: int) -> int {
    (16 * u * (UNIT - u) * UNIT) / (5 * (UNIT as int) * (UNIT as int) - 4 * u * (UNIT - u))
}

/// Sine of `t` turns, `t` in `[0, UNIT]`: the first half-turn raised,
/// the second mirrored below zero.
pub open spec fn sin_turn_spec(t: int) -> int {
    if t <= 500_000 {
        sin_half_spec(2 * t)
    } else {
        -sin_half_spec(2 * t - UNIT)
    }
}

/// Cosine of `t` turns: the sine a quarter turn ahead.
pub open spec fn cos_turn_spec(t: int) -> int {
    sin_turn_spec((t + 250_000) % (UNIT as int))
}

/// Sine of `u` half-turns.
pub fn sin_half(u: i64) -> (r: i64)
    requires
        0 <= u <= UNIT,
    ensures
        r == sin_half_spec(u as int),
        0 <= r <= UNIT,
{
    proof {
        assert(0 <= u * (UNIT - u) <= 250_000_000_000int) by (nonlinear_arith)
            requires 0 <= u <= 1_000_000int;
    }
    let p: i64 = u * (UNIT - u);
    let num: i64 = 16 * p * UNIT;
    let den: i64 = 5 * UNIT * UNIT - 4 * p;
    proof {
        assert(num == 16 * (u as int) * (UNIT - u as int) * (UNIT as int)) by (nonlinear_arith)
            requires num == 16 * (p as int) * (UNIT as int), p == (u as int) * (UNIT - u as int);
        assert(den == 5 * (UNIT as int) * (UNIT as int) - 4 * (u as int) * (UNIT - u as int))
            by (nonlinear_arith)
            requires
                den == 5 * (UNIT as int) * (UNIT as int) - 4 * (p as int),
                p == (u as int) * (UNIT - u as int);
        assert(num <= (UNIT as int) * (den as int)) by (nonlinear_arith)
            requires
                num == 16 * (p as int) * (UNIT as int),
                den == 5 * (UNIT as int) * (UNIT as int) - 4 * (p as int),
                p == (u as int) * (UNIT - u as int),
                0 <= u <= 1_000_000int;
        lemma_div_pos_is_pos(num as int, den as int);
        lemma_multiply_divide_le(num as int, den as int, UNIT as int);
    }
    let r: i64 = ((num as u64) / (den as u64)) as i64;
    r
}

/// Sine of `t` turns.
pub fn sin_turn(t: i64) -> (r: i64)
    requires
        0 <= t <= UNIT,
    ensures
        r == sin_turn_spec(t as int),
        -UNIT <= r <= UNIT,
{
    if t <= 500_000 {
        sin_half(2 * t)
    } else {
        -sin_half(2 * t - UNIT)
    }
}

/// Cosine of `t` turns.
pub fn cos_turn(t: i64) -> (r: i64)
    requires
        0 <= t <= UNIT,
    ensures
        r == cos_turn_spec(t as int),
        -UNIT <= r <= UNIT,
{
    let s: i64 = (((t + 250_000) as u64) % (UNIT as u64)) as i64;
    sin_turn(s)
}

/// The sine is exactly zero at zero turns, at a half turn and at a whole
/// turn, and exactly one at a quarter turn.
pub proof fn lemma_sin_turn_cardinal()
    ensures
        sin_turn_spec(0) == 0,
        sin_turn_spec(500_000) == 0,
        sin_turn_spec(1_000_000) == 0,
        sin_turn_spec(250_000) == UNIT as int,
{
    assert(sin_half_spec(0) == 0);
    assert(sin_half_spec(1_000_000) == 0);
    assert(16 * 500_000int * (UNIT - 500_000int) * (UNIT as int)
        == 4_000_000_000_000_000_000int) by (nonlinear_arith);
    assert(5 * (UNIT as int) * (UNIT as int) - 4 * 500_000int * (UNIT - 500_000int)
        == 4_000_000_000_000int) by (nonlinear_arith);
    assert(4_000_000_000_000_000_000int / 4_000_000_000_000int == 1_000_000int);
    assert(sin_half_spec(500_000) == UNIT as int);
}

/// The cosine is exactly one at zero turns and at a whole turn, and
/// exactly minus one at a half turn.
pub proof fn lemma_cos_turn_cardinal()
    ensures
        cos_turn_spec(0) == UNIT as int,
        cos_turn_spec(500_000) == -(UNIT as int),
        cos_turn_spec(1_000_000) == UNIT as int,
{
    lemma_sin_turn_cardinal();
    assert(250_000int % 1_000_000int == 250_000int);
    assert(750_000int % 1_000_000int == 750_000int);
    assert(1_250_000int % 1_000_000int == 250_000int);
    assert(cos_turn_spec(500_000) == sin_turn_spec(750_000));
    assert(sin_turn_spec(750_000) == -sin_half_spec(500_000));
}

} // verus!
