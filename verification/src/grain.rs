//! The per-grain renderer: resampling, windowing, equal-power panning
//! and optional reversal of one grain.

use vstd::prelude::*;
use crate::envelope::{env_len_ok, env_val, Envelope, EnvelopeMode};
use crate::fixed::{
    floor_div_unit,
    floor_div_unit_spec,
    is_sqrt,
    isqrt,
    lemma_floor_rem_unit,
    lemma_isqrt_at_most_unit,
    lerp_fixed,
    mul_fixed,
    trunc_div_unit,
    trunc_div_unit_spec,
    MAX_LEN,
    SRC_MAX,
    UNIT,
    VAL_MAX,
};
use crate::GrainError;
use vstd::arithmetic::div_mod::{
    lemma_div_is_ordered,
    lemma_div_pos_is_pos,
    lemma_fundamental_div_mod,
    lemma_fundamental_div_mod_converse,
};

verus! {

/// The window a grain uses when none is chosen: rectangular.
pub open spec fn effective_mode(env_mode: Option<EnvelopeMode>) -> EnvelopeMode {
    match env_mode {
        Option::Some(m) => m,
        Option::None => EnvelopeMode::Rect,
    }
}

/// The resampling phase a grain starts from: the start fraction scaled
/// by the source length when it is not negative, wrapped into one pass
/// of the source.
pub open spec fn sound_phase_spec(time_pos: int, src_len: int) -> int {
    let p0 = if time_pos >= 0 {
        time_pos * src_len
    } else {
        0
    };
    p0 % (src_len * (UNIT as int))
}

/// The resampled source value a grain reads for output index `i`: the
/// step `i * speed` wraps once at one less than the grain length (the
/// wrap is tied to the grain, not to the source); the integer part picks
/// two neighbouring source samples — truncated against one less than the
/// source length, clamped at zero when negative — and the fraction
/// interpolates between them.
pub open spec fn resampled_at(sig: Seq<i64>, phase: int, gs: int, speed: int, i: int) -> int {
    let u = UNIT as int;
    let inc0 = i * speed;
    let inc = if inc0 >= (gs - 1) * u {
        inc0 - gs * u
    } else {
        inc0
    };
    let ifl = floor_div_unit_spec(inc);
    let frac = inc - ifl * u;
    let p = trunc_div_unit_spec(phase + ifl * u);
    let prev = if p >= 0 {
        p % (sig.len() as int - 1)
    } else {
        0
    };
    trunc_div_unit_spec((u - frac) * sig[prev] + frac * sig[prev + 1])
}

/// One mono sample of a rendered grain: the resampled source value,
/// shaped by the envelope and scaled by the amplitude.
pub open spec fn mono_at(
    env: Seq<i64>,
    amp: i64,
    sig: Seq<i64>,
    phase: int,
    speed: int,
    i: int,
) -> int {
    trunc_div_unit_spec(
        trunc_div_unit_spec(resampled_at(sig, phase, env.len() as int, speed, i) * env[i]) * amp,
    )
}

/// One sample of the interleaved stereo grain: even indices carry the
/// left gain, odd ones the right.
pub open spec fn stereo_at(
    env: Seq<i64>,
    amp: i64,
    left: i64,
    right: i64,
    sig: Seq<i64>,
    phase: int,
    speed: int,
    j: int,
) -> int {
    let m = mono_at(env, amp, sig, phase, speed, j / 2);
    if j % 2 == 0 {
        trunc_div_unit_spec(left * m)
    } else {
        trunc_div_unit_spec(right * m)
    }
}

/// The wrapped oscillator phase: one table length is subtracted when the
/// phase would pass the last table index.
pub open spec fn synth_wrap(x: int, tl: int) -> int {
    let u = UNIT as int;
    if x >= (tl - 1) * u {
        x - tl * u
    } else {
        x
    }
}

/// The oscillator phase before wrapping at output index `i`: each step
/// adds the frequency-derived increment to the previous wrapped phase.
pub open spec fn synth_raw(step: int, tl: int, i: int) -> int
    decreases i,
{
    if i <= 0 {
        0
    } else {
        synth_wrap(synth_raw(step, tl, i - 1), tl) + step
    }
}

/// The wrapped oscillator phase read at output index `i`.
pub open spec fn synth_used(step: int, tl: int, i: int) -> int {
    synth_wrap(synth_raw(step, tl, i), tl)
}

/// With a step of at most one table length, the wrapped phase keeps to
/// `[-UNIT, (tl - 1) * UNIT)`: the table reads stay in bounds.
pub proof fn lemma_synth_phase_bounds(step: int, tl: int, i: int)
    requires
        0 <= i,
        2 <= tl,
        0 <= step <= tl * (UNIT as int),
    ensures
        -(UNIT as int) <= synth_raw(step, tl, i),
        synth_raw(step, tl, i) < (tl - 1) * (UNIT as int) + step,
        -(UNIT as int) <= synth_used(step, tl, i) < (tl - 1) * (UNIT as int),
    decreases i,
{
    if i > 0 {
        lemma_synth_phase_bounds(step, tl, i - 1);
    }
}

/// One mono sample of a synthetic grain: the table, read at the wrapped
/// phase with the index clamped at zero, interpolated, shaped and scaled.
pub open spec fn synth_at(
    env: Seq<i64>,
    amp: i64,
    table: Seq<i64>,
    step: int,
    i: int,
) -> int {
    let u = UNIT as int;
    let w = synth_used(step, table.len() as int, i);
    let ifl = floor_div_unit_spec(w);
    let frac = w - ifl * u;
    let idx = if ifl < 0 {
        0
    } else {
        ifl
    };
    trunc_div_unit_spec(
        trunc_div_unit_spec(
            trunc_div_unit_spec((u - frac) * table[idx] + frac * table[idx + 1]) * env[i],
        ) * amp,
    )
}

/// The oscillator step: the frequency scaled by the grain length over
/// the sample rate.
pub open spec fn synth_step_spec(freq: int, gs: int, sr: int) -> int {
    freq * gs / sr
}

/// One grain, ready to render: its length, amplitude, precomputed window
/// and equal-power pan gains.
pub struct Grain {
    pub grain_size: usize,
    pub amp: i64,
    pub env: Vec<i64>,
    pub left_pan_value: i64,
    pub right_pan_value: i64,
}

impl Grain {
    /// The shape every constructed grain has: a length of at least two
    /// within the fixed-point window, a window of that length with values
    /// in `[0, UNIT]`, an amplitude and pan gains within their windows.
    pub open spec fn well_formed(self) -> bool {
        &&& 2 <= self.grain_size <= MAX_LEN
        &&& self.env@.len() == self.grain_size
        &&& (forall|i: int| 0 <= i < self.env@.len() ==> 0 <= #[trigger] self.env@[i] <= UNIT)
        &&& 0 <= self.amp <= VAL_MAX
        &&& 0 <= self.left_pan_value <= UNIT
        &&& 0 <= self.right_pan_value <= UNIT
    }

    /// The full interleaved stereo grain read from a source buffer,
    /// reversed element for element when asked.
    pub open spec fn sound_output(
        self,
        sig: Seq<i64>,
        time_pos: int,
        speed: int,
        reverse: bool,
    ) -> Seq<i64> {
        let phase = sound_phase_spec(time_pos, sig.len() as int);
        let fwd = Seq::new(
            (2 * self.grain_size) as nat,
            |j: int|
                stereo_at(
                    self.env@,
                    self.amp,
                    self.left_pan_value,
                    self.right_pan_value,
                    sig,
                    phase,
                    speed,
                    j,
                ) as i64,
        );
        if reverse {
            fwd.reverse()
        } else {
            fwd
        }
    }

    /// The mono synthetic grain read from an oscillator table.
    pub open spec fn synth_output(self, table: Seq<i64>, freq: int, sr: int) -> Seq<i64> {
        let step = synth_step_spec(freq, self.grain_size as int, sr);
        Seq::new(
            self.grain_size as nat,
            |i: int| synth_at(self.env@, self.amp, table, step, i) as i64,
        )
    }

    /// A grain of `grain_size` samples at amplitude `amp`, panned to
    /// `pan` by the equal-power law — the gains are the fixed-point
    /// square roots of `pan` and of its complement — windowed by the
    /// chosen envelope, rectangular when none is chosen.
    pub fn new(grain_size: i64, amp: i64, pan: i64, env_mode: Option<EnvelopeMode>) -> (r:
        Result<Grain, GrainError>)
        ensures
            grain_size < 2 ==> r == Err::<Grain, GrainError>(GrainError::LengthTooSmall),
            grain_size > MAX_LEN ==> r == Err::<Grain, GrainError>(GrainError::LengthTooLarge),
            2 <= grain_size <= MAX_LEN && !env_len_ok(effective_mode(env_mode), grain_size as int)
                ==> r == Err::<Grain, GrainError>(GrainError::EnvelopeTooShort),
            env_len_ok(effective_mode(env_mode), grain_size as int) && !(0 <= pan <= UNIT && 0
                <= amp <= VAL_MAX) ==> r == Err::<Grain, GrainError>(GrainError::InvalidRange),
            env_len_ok(effective_mode(env_mode), grain_size as int) && 0 <= pan <= UNIT && 0 <= amp
                <= VAL_MAX ==> (r matches Ok(g) && g.well_formed() && g.grain_size == grain_size
                && g.amp == amp && (forall|i: int|
                0 <= i < grain_size ==> #[trigger] g.env@[i] == env_val(
                    effective_mode(env_mode),
                    grain_size as int,
                    i,
                )) && is_sqrt(g.left_pan_value as int, pan * (UNIT as int)) && is_sqrt(
                g.right_pan_value as int,
                (UNIT - pan) * (UNIT as int),
            )),
    {
        if grain_size < 2 {
            return Err(GrainError::LengthTooSmall);
        }
        if grain_size > MAX_LEN as i64 {
            return Err(GrainError::LengthTooLarge);
        }
        let size: usize = grain_size as usize;
        let mode: EnvelopeMode = match env_mode {
            Option::Some(m) => m,
            Option::None => EnvelopeMode::Rect,
        };
        let env: Vec<i64> = match Envelope::generate_envelope(mode, size) {
            Ok(env) => env,
            Err(e) => {
                return Err(e);
            },
        };
        if pan < 0 || pan > UNIT || amp < 0 || amp > VAL_MAX {
            return Err(GrainError::InvalidRange);
        }
        let left: u64 = isqrt((pan as u64) * (UNIT as u64));
        let right: u64 = isqrt(((UNIT - pan) as u64) * (UNIT as u64));
        proof {
            lemma_isqrt_at_most_unit(left as int, (pan as int) * (UNIT as int));
            lemma_isqrt_at_most_unit(right as int, (UNIT - pan as int) * (UNIT as int));
        }
        Ok(
            Grain {
                grain_size: size,
                amp,
                env,
                left_pan_value: left as i64,
                right_pan_value: right as i64,
            },
        )
    }

    /// The interleaved stereo grain resampled from `sig`, starting at
    /// the fraction `time_pos` of the source, advancing by `speed` per
    /// output sample, optionally reversed whole. Twice the grain length
    /// of samples, left before right.
    pub fn generate_sound_grain(
        &self,
        sig: &Vec<i64>,
        time_pos: i64,
        speed: i64,
        reverse: bool,
    ) -> (r: Result<Vec<i64>, GrainError>)
        requires
            self.well_formed(),
            -VAL_MAX <= time_pos <= UNIT,
            0 <= speed <= VAL_MAX,
            forall|k: int| 0 <= k < sig@.len() ==> -UNIT <= #[trigger] sig@[k] <= UNIT,
        ensures
            sig@.len() < 2 ==> r == Err::<Vec<i64>, GrainError>(GrainError::SourceTooShort),
            sig@.len() > SRC_MAX ==> r == Err::<Vec<i64>, GrainError>(GrainError::LengthTooLarge),
            2 <= sig@.len() <= SRC_MAX ==> (r matches Ok(out) && out@.len() == 2
                * self.grain_size && out@ == self.sound_output(
                sig@,
                time_pos as int,
                speed as int,
                reverse,
            )),
    {
        let ss: usize = sig.len();
        if ss < 2 {
            return Err(GrainError::SourceTooShort);
        }
        if ss > SRC_MAX {
            return Err(GrainError::LengthTooLarge);
        }
        let ssu: i64 = (ss as i64) * UNIT;
        proof {
            assert(time_pos * (ss as int) <= 1_000_000_000_000_000int) by (nonlinear_arith)
                requires time_pos <= 1_000_000, 0 <= ss <= 1_000_000_000int;
            assert(time_pos >= 0 ==> time_pos * (ss as int) >= 0) by (nonlinear_arith);
        }
        let p0: i64 = if time_pos >= 0 {
            time_pos * (ss as i64)
        } else {
            0
        };
        let phase: i64 = (((p0 as u64) % (ssu as u64)) as u64) as i64;
        let ghost phase_spec: int = sound_phase_spec(time_pos as int, ss as int);
        proof {
            assert(phase == phase_spec);
            vstd::arithmetic::div_mod::lemma_mod_bound(p0 as int, ssu as int);
        }
        let gs: usize = self.grain_size;
        let gsm1u: i64 = ((gs - 1) as i64) * UNIT;
        let gsu: i64 = (gs as i64) * UNIT;
        let mut mono: Vec<i64> = Vec::new();
        let mut i: usize = 0;
        while i < gs
            invariant
                self.well_formed(),
                gs == self.grain_size,
                2 <= ss <= SRC_MAX,
                ss == sig@.len(),
                forall|k: int| 0 <= k < sig@.len() ==> -UNIT <= #[trigger] sig@[k] <= UNIT,
                0 <= speed <= VAL_MAX,
                gsm1u == (gs - 1) * (UNIT as int),
                gsu == gs * (UNIT as int),
                0 <= phase < ss * (UNIT as int),
                phase == phase_spec,
                i <= gs,
                mono@.len() == i,
                forall|k: int| 0 <= k < i ==> #[trigger] mono@[k] == mono_at(
                    self.env@,
                    self.amp,
                    sig@,
                    phase_spec,
                    speed as int,
                    k,
                ),
                forall|k: int| 0 <= k < i ==> -VAL_MAX <= #[trigger] mono@[k] <= VAL_MAX,
            decreases gs - i,
        {
            proof {
                assert((i as int) * speed <= 10_000_000_000_000_000int && 0 <= (i as int) * speed)
                    by (nonlinear_arith)
                    requires 0 <= i <= 1_000_000, 0 <= speed <= 10_000_000_000int;
            }
            let inc0: i64 = (i as i64) * speed;
            let inc: i64 = if inc0 >= gsm1u {
                inc0 - gsu
            } else {
                inc0
            };
            let ifl: i64 = floor_div_unit(inc);
            proof {
                lemma_floor_rem_unit(inc as int);
            }
            let fr: i64 = inc - ifl * UNIT;
            let t: i64 = phase + ifl * UNIT;
            let p: i64 = trunc_div_unit(t);
            let prev: usize = if p >= 0 {
                proof {
                    vstd::arithmetic::div_mod::lemma_mod_bound(p as int, (ss - 1) as int);
                }
                (((p as u64) % ((ss - 1) as u64)) as u64) as usize
            } else {
                0
            };
            let a: i64 = sig[prev];
            let b: i64 = sig[prev + 1];
            let sample: i64 = lerp_fixed(a, b, fr);
            let s1: i64 = mul_fixed(sample, self.env[i]);
            let s2: i64 = mul_fixed(s1, self.amp);
            proof {
                assert(s2 == mono_at(self.env@, self.amp, sig@, phase_spec, speed as int, i as int));
            }
            mono.push(s2);
            i += 1;
        }
        let mut out: Vec<i64> = Vec::new();
        let mut j: usize = 0;
        while j < gs
            invariant
                self.well_formed(),
                gs == self.grain_size,
                j <= gs,
                mono@.len() == gs,
                forall|k: int| 0 <= k < gs ==> #[trigger] mono@[k] == mono_at(
                    self.env@,
                    self.amp,
                    sig@,
                    phase_spec,
                    speed as int,
                    k,
                ),
                forall|k: int| 0 <= k < gs ==> -VAL_MAX <= #[trigger] mono@[k] <= VAL_MAX,
                out@.len() == 2 * j,
                forall|k: int| 0 <= k < 2 * j ==> #[trigger] out@[k] == stereo_at(
                    self.env@,
                    self.amp,
                    self.left_pan_value,
                    self.right_pan_value,
                    sig@,
                    phase_spec,
                    speed as int,
                    k,
                ) as i64,
            decreases gs - j,
        {
            let m: i64 = mono[j];
            let l: i64 = mul_fixed(self.left_pan_value, m);
            let rch: i64 = mul_fixed(self.right_pan_value, m);
            proof {
                assert((2 * j as int) / 2 == j as int);
                assert((2 * j as int) % 2 == 0);
                assert((2 * j as int + 1) / 2 == j as int);
                assert((2 * j as int + 1) % 2 == 1);
            }
            out.push(l);
            out.push(rch);
            j += 1;
        }
        let ghost fwd: Seq<i64> = Seq::new(
            (2 * self.grain_size) as nat,
            |k: int|
                stereo_at(
                    self.env@,
                    self.amp,
                    self.left_pan_value,
                    self.right_pan_value,
                    sig@,
                    phase_spec,
                    speed as int,
                    k,
                ) as i64,
        );
        proof {
            assert(out@ =~= fwd);
        }
        if reverse {
            let total: usize = 2 * gs;
            let mut rev: Vec<i64> = Vec::new();
            let mut k: usize = 0;
            while k < total
                invariant
                    total == out@.len(),
                    k <= total,
                    rev@.len() == k,
                    forall|q: int| 0 <= q < k ==> #[trigger] rev@[q] == out@[total - 1 - q],
                decreases total - k,
            {
                let v: i64 = out[total - 1 - k];
                rev.push(v);
                k += 1;
            }
            proof {
                assert(rev@ =~= fwd.reverse());
            }
            Ok(rev)
        } else {
            Ok(out)
        }
    }

    /// The mono synthetic grain read from `osc_table` at `freq` hertz
    /// under the sample rate `sr`: exactly the grain length of samples —
    /// the pan gains are not applied to the oscillator path.
    pub fn generate_synthetic_grain(&self, osc_table: &Vec<i64>, freq: i64, sr: i64) -> (r:
        Result<Vec<i64>, GrainError>)
        requires
            self.well_formed(),
            0 <= freq <= VAL_MAX,
            1 <= sr <= UNIT,
            forall|k: int| 0 <= k < osc_table@.len() ==> -UNIT <= #[trigger] osc_table@[k] <= UNIT,
            synth_step_spec(freq as int, self.grain_size as int, sr as int) <= osc_table@.len() * (
            UNIT as int),
        ensures
            osc_table@.len() < 2 ==> r == Err::<Vec<i64>, GrainError>(GrainError::SourceTooShort),
            osc_table@.len() > SRC_MAX ==> r == Err::<Vec<i64>, GrainError>(
                GrainError::LengthTooLarge,
            ),
            2 <= osc_table@.len() <= SRC_MAX ==> (r matches Ok(out) && out@.len()
                == self.grain_size && out@ == self.synth_output(
                osc_table@,
                freq as int,
                sr as int,
            )),
    {
        let tl: usize = osc_table.len();
        if tl < 2 {
            return Err(GrainError::SourceTooShort);
        }
        if tl > SRC_MAX {
            return Err(GrainError::LengthTooLarge);
        }
        let gs: usize = self.grain_size;
        proof {
            assert(0 <= (freq as int) * (gs as int) <= 10_000_000_000_000_000int)
                by (nonlinear_arith)
                requires 0 <= freq <= 10_000_000_000int, 0 <= gs <= 1_000_000;
            lemma_div_pos_is_pos((freq as int) * (gs as int), sr as int);
            lemma_div_is_ordered(0, (freq as int) * (gs as int), sr as int);
            vstd::arithmetic::div_mod::lemma_div_nonincreasing(
                (freq as int) * (gs as int),
                sr as int,
            );
        }
        let step: i64 = (((freq as u64) * (gs as u64)) / (sr as u64)) as i64;
        let tlm1u: i64 = ((tl - 1) as i64) * UNIT;
        let tlu: i64 = (tl as i64) * UNIT;
        let ghost step_g: int = synth_step_spec(freq as int, gs as int, sr as int);
        let mut g: Vec<i64> = Vec::new();
        let mut inc: i64 = 0;
        let mut i: usize = 0;
        while i < gs
            invariant
                self.well_formed(),
                gs == self.grain_size,
                2 <= tl <= SRC_MAX,
                tl == osc_table@.len(),
                forall|k: int| 0 <= k < osc_table@.len() ==> -UNIT <= #[trigger] osc_table@[k]
                    <= UNIT,
                0 <= step <= tl * (UNIT as int),
                step == step_g,
                tlm1u == (tl - 1) * (UNIT as int),
                tlu == tl * (UNIT as int),
                i <= gs,
                g@.len() == i,
                inc == synth_raw(step_g, tl as int, i as int),
                forall|k: int| 0 <= k < i ==> #[trigger] g@[k] == synth_at(
                    self.env@,
                    self.amp,
                    osc_table@,
                    step_g,
                    k,
                ) as i64,
            decreases gs - i,
        {
            proof {
                lemma_synth_phase_bounds(step_g, tl as int, i as int);
            }
            let w: i64 = if inc >= tlm1u {
                inc - tlu
            } else {
                inc
            };
            let ifl: i64 = floor_div_unit(w);
            proof {
                lemma_floor_rem_unit(w as int);
                if ifl >= 0 {
                    lemma_fundamental_div_mod(w as int, UNIT as int);
                    lemma_fundamental_div_mod_converse(
                        (w - (tl - 2) as int * (UNIT as int)) as int,
                        UNIT as int,
                        ifl - (tl - 2) as int,
                        w as int - ifl * (UNIT as int),
                    );
                    assert(ifl - (tl - 2) <= 0) by {
                        assert(w < (tl - 1) as int * (UNIT as int));
                        if ifl - (tl - 2) >= 1 {
                            assert(w as int - ifl * (UNIT as int) >= 0);
                            assert(ifl * (UNIT as int) >= ((tl - 1) as int) * (UNIT as int));
                        }
                    }
                }
            }
            let fr: i64 = w - ifl * UNIT;
            let idx: usize = if ifl < 0 {
                0
            } else {
                ifl as usize
            };
            let a: i64 = osc_table[idx];
            let b: i64 = osc_table[idx + 1];
            let sample: i64 = lerp_fixed(a, b, fr);
            let s1: i64 = mul_fixed(sample, self.env[i]);
            let s2: i64 = mul_fixed(s1, self.amp);
            proof {
                assert(s2 == synth_at(self.env@, self.amp, osc_table@, step_g, i as int) as i64);
            }
            g.push(s2);
            inc = w + step;
            i += 1;
        }
        proof {
            assert(g@ =~= self.synth_output(osc_table@, freq as int, sr as int));
        }
        Ok(g)
    }

    /// The grain regranulated from one live input frame: the same
    /// rendering as `generate_sound_grain` with a start fraction of zero.
    pub fn build_grain_from_frame(&self, frame: &Vec<i64>, speed: i64, reverse: bool) -> (r:
        Result<Vec<i64>, GrainError>)
        requires
            self.well_formed(),
            0 <= speed <= VAL_MAX,
            forall|k: int| 0 <= k < frame@.len() ==> -UNIT <= #[trigger] frame@[k] <= UNIT,
        ensures
            frame@.len() < 2 ==> r == Err::<Vec<i64>, GrainError>(GrainError::SourceTooShort),
            frame@.len() > SRC_MAX ==> r == Err::<Vec<i64>, GrainError>(GrainError::LengthTooLarge),
            2 <= frame@.len() <= SRC_MAX ==> (r matches Ok(out) && out@.len() == 2
                * self.grain_size && out@ == self.sound_output(frame@, 0, speed as int, reverse)),
    {
        self.generate_sound_grain(frame, 0, speed, reverse)
    }
}

/// Reversal is element reversal: the grain rendered with the reverse
/// flag raised is, sample for sample, the reverse of the grain rendered
/// without it under the same parameters.
pub proof fn lemma_reverse_is_element_reverse(
    g: Grain,
    sig: Seq<i64>,
    time_pos: int,
    speed: int,
)
    ensures
        g.sound_output(sig, time_pos, speed, true) == g.sound_output(
            sig,
            time_pos,
            speed,
            false,
        ).reverse(),
{
}

/// The equal-power law in fixed point: for any pan position, the squared
/// gains of a constructed grain sum to one squared unit, up to the
/// rounding of the two integer square roots.
pub proof fn lemma_equal_power_law(pan: int, l: int, r: int)
    requires
        0 <= pan <= UNIT as int,
        is_sqrt(l, pan * (UNIT as int)),
        is_sqrt(r, ((UNIT as int) - pan) * (UNIT as int)),
    ensures
        l * l + r * r <= (UNIT as int) * (UNIT as int),
        l * l + r * r > (UNIT as int) * (UNIT as int) - 4 * (UNIT as int) - 2,
{
    let u: int = UNIT as int;
    assert(pan * u <= u * u && (u - pan) * u <= u * u) by (nonlinear_arith)
        requires 0 <= pan <= u, 0 < u;
    lemma_isqrt_at_most_unit(l, pan * u);
    lemma_isqrt_at_most_unit(r, (u - pan) * u);
    assert(pan * u + (u - pan) * u == u * u) by (nonlinear_arith);
    assert((l + 1) * (l + 1) == l * l + 2 * l + 1) by (nonlinear_arith);
    assert((r + 1) * (r + 1) == r * r + 2 * r + 1) by (nonlinear_arith);
}

/// At the centre of the stereo field the equal-power law hands both
/// channels the same gain: the fixed-point square root of one half.
pub proof fn lemma_equal_power_center(left: int, right: int)
    requires
        is_sqrt(left, 500_000 * (UNIT as int)),
        is_sqrt(right, 500_000 * (UNIT as int)),
    ensures
        left == right,
        left == 707_106,
{
    assert(left == 707_106) by (nonlinear_arith)
        requires
            0 <= left,
            left * left <= 500_000_000_000int,
            500_000_000_000int < (left + 1) * (left + 1);
    assert(right == 707_106) by (nonlinear_arith)
        requires
            0 <= right,
            right * right <= 500_000_000_000int,
            500_000_000_000int < (right + 1) * (right + 1);
}

} // verus!
