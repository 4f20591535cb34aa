//! The fixed-point scale and the rounding helpers the generators and the
//! renderer share.

use vstd::prelude::*;
use vstd::arithmetic::div_mod::{
    lemma_div_by_multiple,
    lemma_div_is_ordered,
    lemma_div_pos_is_pos,
    lemma_fundamental_div_mod,
    lemma_fundamental_div_mod_converse,
};

verus! {

/// One, in the fixed-point scale used throughout the crate: a value
/// carries six decimal places.
pub const UNIT: i64 = 1_000_000;

/// Largest magnitude admitted for a drawn parameter: ten thousand, in
/// fixed point. Keeps every product taken by the renderer inside `i64`.
pub const VAL_MAX: i64 = 10_000_000_000;

/// Longest table, envelope or grain the fixed-point index arithmetic
/// admits.
pub const MAX_LEN: usize = 1_000_000;

/// Longest source buffer the renderer accepts.
pub const SRC_MAX: usize = 1_000_000_000;

/// Quotient by `UNIT` rounded toward zero: how the scaling step of a
/// fixed-point product rounds.
pub open spec fn trunc_div_unit_spec(x: int) -> int {
    if x >= 0 {
        x / (UNIT as int)
    } else {
        -((-x) / (UNIT as int))
    }
}

/// Quotient by `UNIT` rounded toward negative infinity: the integer part
/// of a fixed-point phase.
pub open spec fn floor_div_unit_spec(x: int) -> int {
    x / (UNIT as int)
}

/// Quotient by `UNIT`, rounded toward zero.
pub fn trunc_div_unit(x: i64) -> (r: i64)
    requires
        -0x7fff_ffff_ffff_ffff <= x,
    ensures
        r == trunc_div_unit_spec(x as int),
{
    if x >= 0 {
        ((x as u64) / (UNIT as u64)) as i64
    } else {
        let y: u64 = (-x) as u64;
        let q: u64 = y / (UNIT as u64);
        -(q as i64)
    }
}

/// Quotient by `UNIT`, rounded toward negative infinity.
pub fn floor_div_unit(x: i64) -> (r: i64)
    requires
        -0x7fff_0000_0000_0000 <= x,
    ensures
        r == floor_div_unit_spec(x as int),
{
    if x >= 0 {
        ((x as u64) / (UNIT as u64)) as i64
    } else {
        let y: u64 = (-x) as u64;
        let q: u64 = (y + (UNIT as u64) - 1) / (UNIT as u64);
        proof {
            let yi: int = -(x as int);
            let u: int = UNIT as int;
            let qi: int = (yi + u - 1) / u;
            lemma_fundamental_div_mod(yi + u - 1, u);
            let ri: int = (yi + u - 1) % u;
            lemma_fundamental_div_mod_converse(x as int, u, -qi, u - 1 - ri);
        }
        -(q as i64)
    }
}

/// The remainder that belongs to `floor_div_unit`: subtracting the scaled
/// floor quotient leaves a value in `[0, UNIT)`.
pub proof fn lemma_floor_rem_unit(x: int)
    ensures
        0 <= x - floor_div_unit_spec(x) * (UNIT as int) < UNIT as int,
{
    lemma_fundamental_div_mod(x, UNIT as int);
}

/// A value no farther from zero than `b` whole units keeps a quotient by
/// `UNIT` no farther from zero than `b`.
pub proof fn lemma_trunc_div_unit_bound(x: int, b: int)
    requires
        0 <= b,
        -(b * (UNIT as int)) <= x <= b * (UNIT as int),
    ensures
        -b <= trunc_div_unit_spec(x) <= b,
{
    let u: int = UNIT as int;
    lemma_div_by_multiple(b, u);
    if x >= 0 {
        lemma_div_is_ordered(x, b * u, u);
        lemma_div_pos_is_pos(x, u);
    } else {
        lemma_div_is_ordered(-x, b * u, u);
        lemma_div_pos_is_pos(-x, u);
    }
}

/// Product of one factor within a unit and one within the parameter
/// window, scaled back down: the result keeps the second factor's window.
pub fn mul_fixed(x: i64, y: i64) -> (r: i64)
    requires
        -UNIT <= x <= UNIT,
        -VAL_MAX <= y <= VAL_MAX,
    ensures
        r == trunc_div_unit_spec(x * y),
        -VAL_MAX <= r <= VAL_MAX,
        -UNIT <= y <= UNIT ==> -UNIT <= r <= UNIT,
{
    proof {
        assert(-(10_000_000_000int * 1_000_000) <= x * y <= 10_000_000_000int * 1_000_000)
            by (nonlinear_arith)
            requires
                -1_000_000 <= x <= 1_000_000,
                -10_000_000_000int <= y <= 10_000_000_000int;
        lemma_trunc_div_unit_bound(x * y, VAL_MAX as int);
        if -UNIT <= y <= UNIT {
            assert(-(1_000_000int * 1_000_000) <= x * y <= 1_000_000int * 1_000_000)
                by (nonlinear_arith)
                requires
                    -1_000_000 <= x <= 1_000_000,
                    -1_000_000 <= y <= 1_000_000;
            lemma_trunc_div_unit_bound(x * y, UNIT as int);
        }
    }
    trunc_div_unit(x * y)
}

/// Linear interpolation between `a` and `b` by the fraction `fr` of a
/// unit, rounding as the renderer's fixed-point products round. The
/// result stays within the unit window that holds both ends.
pub fn lerp_fixed(a: i64, b: i64, fr: i64) -> (r: i64)
    requires
        -UNIT <= a <= UNIT,
        -UNIT <= b <= UNIT,
        0 <= fr < UNIT,
    ensures
        r == trunc_div_unit_spec(((UNIT as int) - fr) * a + fr * b),
        -UNIT <= r <= UNIT,
{
    proof {
        assert(-(1_000_000int * 1_000_000) <= ((1_000_000int) - fr) * a
            <= 1_000_000int * 1_000_000) by (nonlinear_arith)
            requires
                -1_000_000 <= a <= 1_000_000,
                0 <= fr < 1_000_000;
        assert(-(1_000_000int * 1_000_000) <= (fr as int) * b <= 1_000_000int * 1_000_000)
            by (nonlinear_arith)
            requires
                -1_000_000 <= b <= 1_000_000,
                0 <= fr < 1_000_000;
        assert(-(1_000_000int * 1_000_000) <= ((1_000_000int) - fr) * a + (fr as int) * b
            <= 1_000_000int * 1_000_000) by (nonlinear_arith)
            requires
                -1_000_000 <= a <= 1_000_000,
                -1_000_000 <= b <= 1_000_000,
                0 <= fr < 1_000_000;
    }
    let num: i64 = (UNIT - fr) * a + fr * b;
    let r: i64 = trunc_div_unit(num);
    proof {
        lemma_trunc_div_unit_bound(num as int, UNIT as int);
    }
    r
}

/// A square root of at most a unit squared is at most a unit.
pub proof fn lemma_isqrt_at_most_unit(r: int, x: int)
    requires
        is_sqrt(r, x),
        x <= 1_000_000_000_000,
    ensures
        r <= 1_000_000,
{
    if r > 1_000_000 {
        assert(r * r > 1_000_000_000_000int) by (nonlinear_arith)
            requires r >= 1_000_001;
    }
}

/// Integer square root: the unique `r` with `r * r <= x < (r + 1) * (r + 1)`.
pub open spec fn is_sqrt(r: int, x: int) -> bool {
    &&& 0 <= r
    &&& r * r <= x
    &&& x < (r + 1) * (r + 1)
}

/// Integer square root by bisection.
pub fn isqrt(x: u64) -> (r: u64)
    requires
        x <= 0x1000_0000_0000_0000,
    ensures
        is_sqrt(r as int, x as int),
{
    let mut lo: u64 = 0;
    let mut hi: u64 = 0x4000_0001;
    proof {
        assert((0x4000_0001u64 as int) * (0x4000_0001u64 as int) > 0x1000_0000_0000_0000int)
            by (nonlinear_arith);
    }
    while lo + 1 < hi
        invariant
            lo < hi <= 0x4000_0001,
            lo * lo <= x,
            x < hi * hi,
        decreases hi - lo,
    {
        let mid: u64 = lo + (hi - lo) / 2;
        proof {
            assert(lo < mid < hi);
            assert(mid * mid <= 0x2000_0000_0000_0000) by (nonlinear_arith)
                requires 0 <= mid <= 0x4000_0001u64;
        }
        if mid * mid <= x {
            lo = mid;
        } else {
            hi = mid;
        }
    }
    lo
}

} // verus!
