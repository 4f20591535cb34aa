//! Waveform lookup tables for synthetic grains.

use vstd::prelude::*;
use crate::fixed::{MAX_LEN, UNIT};
use crate::trig::{lemma_sin_turn_cardinal, sin_turn, sin_turn_spec};
use crate::GrainError;
use vstd::arithmetic::div_mod::{lemma_div_is_ordered, lemma_div_by_multiple};

verus! {

/// Waveform shapes the table generator knows.
#[derive(Clone, Copy, Debug, PartialEq, Eq, Structural)]
pub enum TableMode {
    Sine,
}

/// Value of the lookup table at index `i`: one whole cycle spread over
/// the table, so index `length - 1` lands on a full turn.
pub open spec fn table_val(mode: TableMode, length: int, i: int) -> int {
    match mode {
        TableMode::Sine => sin_turn_spec(i * (UNIT as int) / (length - 1)),
    }
}

/// Generator of waveform lookup buffers.
pub struct Table {}

impl Table {
    /// One cycle of the chosen waveform over `length` samples. A length
    /// below two is rejected: the phase step divides by `length - 1`.
    pub fn table(mode: TableMode, length: usize) -> (r: Result<Vec<i64>, GrainError>)
        ensures
            length < 2 ==> r == Err::<Vec<i64>, GrainError>(GrainError::LengthTooSmall),
            2 <= length && length > MAX_LEN ==> r == Err::<Vec<i64>, GrainError>(
                GrainError::LengthTooLarge,
            ),
            2 <= length <= MAX_LEN ==> (r matches Ok(t) && t@.len() == length && (forall|i: int|
                0 <= i < length ==> #[trigger] t@[i] == table_val(mode, length as int, i)) && (
            forall|i: int| 0 <= i < length ==> -UNIT <= #[trigger] t@[i] <= UNIT)),
    {
        if length < 2 {
            return Err(GrainError::LengthTooSmall);
        }
        if length > MAX_LEN {
            return Err(GrainError::LengthTooLarge);
        }
        let step_den: u64 = (length - 1) as u64;
        let mut t: Vec<i64> = Vec::new();
        let mut i: usize = 0;
        while i < length
            invariant
                2 <= length <= MAX_LEN,
                step_den == length - 1,
                i <= length,
                t@.len() == i,
                forall|k: int| 0 <= k < i ==> #[trigger] t@[k] == table_val(
                    mode,
                    length as int,
                    k,
                ),
                forall|k: int| 0 <= k < i ==> -UNIT <= #[trigger] t@[k] <= UNIT,
            decreases length - i,
        {
            let turn: u64 = (i as u64) * 1_000_000 / step_den;
            proof {
                lemma_div_is_ordered(
                    (i as int) * 1_000_000,
                    (length - 1) as int * 1_000_000,
                    (length - 1) as int,
                );
                lemma_div_by_multiple(1_000_000int, (length - 1) as int);
                assert((i as int) * 1_000_000 <= (length - 1) as int * 1_000_000)
                    by (nonlinear_arith)
                    requires 0 <= i <= length - 1;
            }
            let v: i64 = match mode {
                TableMode::Sine => sin_turn(turn as i64),
            };
            t.push(v);
            i += 1;
        }
        Ok(t)
    }
}

/// The sine table starts and ends exactly at zero: its first index is
/// zero turns and its last a whole turn.
pub proof fn lemma_sine_table_ends(length: int)
    requires
        2 <= length,
    ensures
        table_val(TableMode::Sine, length, 0) == 0,
        table_val(TableMode::Sine, length, length - 1) == 0,
{
    lemma_sin_turn_cardinal();
    assert(0 * (UNIT as int) / (length - 1) == 0) by {
        vstd::arithmetic::div_mod::lemma_div_of0(length - 1);
    }
    lemma_div_by_multiple(UNIT as int, length - 1);
    assert((length - 1) * (UNIT as int) == (UNIT as int) * (length - 1)) by (nonlinear_arith);
}

} // verus!
