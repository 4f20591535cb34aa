//! Grain configuration and the stochastic parameter sequencer: draw
//! ranges, reverse policy, and the per-grain values redrawn from them.

use vstd::prelude::*;
use crate::envelope::EnvelopeMode;
use crate::fixed::{MAX_LEN, UNIT, VAL_MAX};
use crate::GrainError;
use rand::Rng;
use std::sync::Arc;
use vstd::arithmetic::div_mod::{
    lemma_div_by_multiple,
    lemma_div_is_ordered,
    lemma_div_pos_is_pos,
    lemma_fundamental_div_mod,
};

verus! {

#[verifier::external_type_specification]
#[verifier::external_body]
pub struct ExThreadRng(rand::rngs::ThreadRng);

/// Relies on rand's thread_rng: a handle to the thread-local generator,
/// exclusively owned by the caller.
#[verifier::external_body]
fn fresh_rng() -> rand::rngs::ThreadRng {
    rand::thread_rng()
}

/// Relies on rand's Rng::gen_range on an integer range: a value uniform
/// in `[lo, hi)`. The call panics on an empty range, which the
/// precondition rules out.
#[verifier::external_body]
fn gen_range_i64(rnd: &mut rand::rngs::ThreadRng, lo: i64, hi: i64) -> (r: i64)
    requires
        lo < hi,
    ensures
        lo <= r < hi,
{
    rnd.gen_range(lo..hi)
}

/// Relies on rand's Rng::gen for bool: true or false with equal
/// probability. Nothing is promised of the outcome.
#[verifier::external_body]
fn coin_flip(rnd: &mut rand::rngs::ThreadRng) -> bool {
    rnd.gen()
}

/// A closed-open draw range in fixed point. Equal ends are valid and
/// stand for that one fixed value.
#[derive(Clone, Copy, Debug, PartialEq, Eq, Structural)]
pub struct ParamRange {
    pub min: i64,
    pub max: i64,
}

impl ParamRange {
    /// Ordered and inside the window the fixed-point arithmetic admits.
    pub open spec fn well_formed(self) -> bool {
        0 <= self.min <= self.max <= VAL_MAX
    }
}

/// What a draw from a range yields: uniform in `[min, max)`, or exactly
/// `min` when the range is one fixed value.
pub open spec fn drawn_from(v: i64, r: ParamRange) -> bool {
    if r.min == r.max {
        v == r.min
    } else {
        r.min <= v < r.max
    }
}

/// Whether a grain comes out reversed: always, never, or by a fair coin
/// drawn per grain.
#[derive(Clone, Copy, Debug, PartialEq, Eq, Structural)]
pub enum ReverseMode {
    Reverse,
    NotReverse,
    RandomReverse,
}

/// What a drawn reverse flag may be under a policy: pinned by the first
/// two policies, free under the random one.
pub open spec fn reverse_obeys(rev: bool, mode: ReverseMode) -> bool {
    match mode {
        ReverseMode::Reverse => rev,
        ReverseMode::NotReverse => !rev,
        ReverseMode::RandomReverse => true,
    }
}

/// Immutable shared configuration: six draw ranges, the reverse policy,
/// the sample rate and an optional window shape.
#[derive(Debug)]
pub struct GrainSettings {
    pub dur_range: ParamRange,
    pub freq_range: ParamRange,
    pub reverse: ReverseMode,
    pub pan_range: ParamRange,
    pub amp_range: ParamRange,
    pub time_pos_range: ParamRange,
    pub delay_range: ParamRange,
    pub sr: i64,
    pub env_mode: Option<EnvelopeMode>,
}

impl GrainSettings {
    /// Every range ordered and inside its window, pan and start fraction
    /// within one unit, the sample rate positive and representable, and
    /// the longest duration convertible to a sample count the renderer
    /// admits.
    pub open spec fn well_formed(self) -> bool {
        &&& self.dur_range.well_formed()
        &&& self.freq_range.well_formed()
        &&& self.pan_range.well_formed()
        &&& self.amp_range.well_formed()
        &&& self.time_pos_range.well_formed()
        &&& self.delay_range.well_formed()
        &&& self.pan_range.max <= UNIT
        &&& self.time_pos_range.max <= UNIT
        &&& 1 <= self.sr <= UNIT
        &&& self.dur_range.max * self.sr <= (MAX_LEN as int) * (UNIT as int)
    }

    /// The settings as given, after validation: a sample rate outside
    /// `[1, UNIT]` is a sample-rate error; a reversed or out-of-window
    /// range, or a duration range whose top cannot be converted to a
    /// sample count, is a range error.
    pub fn new(
        dur_range: ParamRange,
        freq_range: ParamRange,
        reverse: ReverseMode,
        pan_range: ParamRange,
        amp_range: ParamRange,
        time_pos_range: ParamRange,
        delay_range: ParamRange,
        sr: i64,
        env_mode: Option<EnvelopeMode>,
    ) -> (r: Result<GrainSettings, GrainError>)
        ensures
            !(1 <= sr <= UNIT) ==> r == Err::<GrainSettings, GrainError>(
                GrainError::InvalidSampleRate,
            ),
            (GrainSettings {
                dur_range,
                freq_range,
                reverse,
                pan_range,
                amp_range,
                time_pos_range,
                delay_range,
                sr,
                env_mode,
            }).well_formed() ==> r == Ok::<GrainSettings, GrainError>(
                GrainSettings {
                    dur_range,
                    freq_range,
                    reverse,
                    pan_range,
                    amp_range,
                    time_pos_range,
                    delay_range,
                    sr,
                    env_mode,
                },
            ),
            1 <= sr <= UNIT && !(GrainSettings {
                dur_range,
                freq_range,
                reverse,
                pan_range,
                amp_range,
                time_pos_range,
                delay_range,
                sr,
                env_mode,
            }).well_formed() ==> r == Err::<GrainSettings, GrainError>(GrainError::InvalidRange),
    {
        if sr < 1 || sr > UNIT {
            return Err(GrainError::InvalidSampleRate);
        }
        let q: i64 = ((1_000_000_000_000u64) / (sr as u64)) as i64;
        proof {
            lemma_fundamental_div_mod(1_000_000_000_000int, sr as int);
            if dur_range.max <= q {
                assert(dur_range.max * sr <= 1_000_000_000_000int) by (nonlinear_arith)
                    requires
                        dur_range.max <= q,
                        1 <= sr,
                        (sr as int) * (q as int) <= 1_000_000_000_000int;
            } else {
                assert(dur_range.max * sr > 1_000_000_000_000int) by (nonlinear_arith)
                    requires
                        dur_range.max >= q + 1,
                        1 <= sr,
                        (sr as int) * (q as int) > 1_000_000_000_000int - sr;
            }
        }
        let ok: bool = range_ok(&dur_range) && range_ok(&freq_range) && range_ok(&pan_range)
            && range_ok(&amp_range) && range_ok(&time_pos_range) && range_ok(&delay_range)
            && pan_range.max <= UNIT && time_pos_range.max <= UNIT && dur_range.max <= q;
        if !ok {
            return Err(GrainError::InvalidRange);
        }
        Ok(
            GrainSettings {
                dur_range,
                freq_range,
                reverse,
                pan_range,
                amp_range,
                time_pos_range,
                delay_range,
                sr,
                env_mode,
            },
        )
    }
}

/// The one validity test a range needs: ordered, inside the window.
fn range_ok(r: &ParamRange) -> (ok: bool)
    ensures
        ok == r.well_formed(),
{
    0 <= r.min && r.min <= r.max && r.max <= VAL_MAX
}

impl Default for GrainSettings {
    /// A quiet mid-field default: a duration between a tenth of a second
    /// and one second, unit speed, centre pan, an amplitude near one over
    /// the square root of two, start at the source head, a tenth of a
    /// second of delay, no reversal, at a common audio rate.
    fn default() -> (r: GrainSettings)
        ensures
            r == (GrainSettings {
                dur_range: ParamRange { min: 100_000, max: 1_000_000 },
                freq_range: ParamRange { min: 1_000_000, max: 1_000_000 },
                reverse: ReverseMode::NotReverse,
                pan_range: ParamRange { min: 500_000, max: 500_000 },
                amp_range: ParamRange { min: 707_000, max: 707_000 },
                time_pos_range: ParamRange { min: 0, max: 0 },
                delay_range: ParamRange { min: 100_000, max: 100_000 },
                sr: 44_100,
                env_mode: None,
            }),
            r.well_formed(),
    {
        GrainSettings {
            dur_range: ParamRange { min: 100_000, max: 1_000_000 },
            freq_range: ParamRange { min: 1_000_000, max: 1_000_000 },
            reverse: ReverseMode::NotReverse,
            pan_range: ParamRange { min: 500_000, max: 500_000 },
            amp_range: ParamRange { min: 707_000, max: 707_000 },
            time_pos_range: ParamRange { min: 0, max: 0 },
            delay_range: ParamRange { min: 100_000, max: 100_000 },
            sr: 44_100,
            env_mode: None,
        }
    }
}

/// A duration in seconds converted to samples: scaled by the sample rate
/// and truncated toward zero.
pub open spec fn dur_samples(v: int, sr: int) -> int {
    v * sr / (UNIT as int)
}

/// The current drawn per-grain values, plus the shared settings handle
/// and the exclusively owned random source that redraws them.
pub struct GrainParams {
    pub dur: i64,
    pub freq: i64,
    pub rev: bool,
    pub pan_pos: i64,
    pub amp: i64,
    pub env_mode: Option<EnvelopeMode>,
    pub time_pos: i64,
    pub delay: i64,
    pub grain_settings: Arc<GrainSettings>,
    pub rnd: rand::rngs::ThreadRng,
}

impl GrainParams {
    /// The configuration this sequencer draws from.
    pub open spec fn settings(self) -> GrainSettings {
        *self.grain_settings
    }

    /// The drawn values all lie in their configured ranges — exactly the
    /// range's one value where its ends are equal — the duration counts
    /// samples of a duration drawn in seconds, the reverse flag obeys the
    /// policy, and the window shape is the configured one.
    pub open spec fn drawn_ok(self) -> bool {
        &&& dur_samples(self.settings().dur_range.min as int, self.settings().sr as int)
            <= self.dur <= dur_samples(
            self.settings().dur_range.max as int,
            self.settings().sr as int,
        )
        &&& (self.settings().dur_range.min == self.settings().dur_range.max ==> self.dur
            == dur_samples(self.settings().dur_range.min as int, self.settings().sr as int))
        &&& 0 <= self.dur <= MAX_LEN
        &&& drawn_from(self.freq, self.settings().freq_range)
        &&& drawn_from(self.pan_pos, self.settings().pan_range)
        &&& drawn_from(self.amp, self.settings().amp_range)
        &&& drawn_from(self.time_pos, self.settings().time_pos_range)
        &&& drawn_from(self.delay, self.settings().delay_range)
        &&& reverse_obeys(self.rev, self.settings().reverse)
        &&& self.env_mode == self.settings().env_mode
    }

    /// A sequencer over the given settings with a fresh random source,
    /// holding one freshly drawn parameter set.
    pub fn new(grain_settings: Arc<GrainSettings>) -> (r: GrainParams)
        requires
            (*grain_settings).well_formed(),
        ensures
            r.settings() == *grain_settings,
            r.settings().well_formed(),
            r.drawn_ok(),
    {
        let mut rnd = fresh_rng();
        let dur: i64 = draw_duration(&mut rnd, &grain_settings.dur_range, grain_settings.sr);
        let time_pos: i64 = get_random_value(&mut rnd, &grain_settings.time_pos_range);
        let delay: i64 = get_random_value(&mut rnd, &grain_settings.delay_range);
        let freq: i64 = get_random_value(&mut rnd, &grain_settings.freq_range);
        let pan_pos: i64 = get_random_value(&mut rnd, &grain_settings.pan_range);
        let amp: i64 = get_random_value(&mut rnd, &grain_settings.amp_range);
        let env_mode = grain_settings.env_mode;
        let rev: bool = match grain_settings.reverse {
            ReverseMode::NotReverse => false,
            ReverseMode::Reverse => true,
            ReverseMode::RandomReverse => coin_flip(&mut rnd),
        };
        GrainParams { dur, freq, rev, pan_pos, amp, env_mode, time_pos, delay, grain_settings, rnd }
    }

    /// Redraws every value in place from the same settings.
    pub fn update_params(&mut self)
        requires
            old(self).settings().well_formed(),
        ensures
            final(self).settings() == old(self).settings(),
            final(self).drawn_ok(),
    {
        self.dur = draw_duration(
            &mut self.rnd,
            &self.grain_settings.dur_range,
            self.grain_settings.sr,
        );
        self.time_pos = get_random_value(&mut self.rnd, &self.grain_settings.time_pos_range);
        self.delay = get_random_value(&mut self.rnd, &self.grain_settings.delay_range);
        self.freq = get_random_value(&mut self.rnd, &self.grain_settings.freq_range);
        self.pan_pos = get_random_value(&mut self.rnd, &self.grain_settings.pan_range);
        self.amp = get_random_value(&mut self.rnd, &self.grain_settings.amp_range);
        self.env_mode = self.grain_settings.env_mode;
        self.rev = match self.grain_settings.reverse {
            ReverseMode::NotReverse => false,
            ReverseMode::Reverse => true,
            ReverseMode::RandomReverse => coin_flip(&mut self.rnd),
        };
    }
}

/// One value drawn from a range: uniform in `[min, max)` through the
/// random source, or exactly `min` when the ends are equal.
fn get_random_value(rnd: &mut rand::rngs::ThreadRng, range: &ParamRange) -> (r: i64)
    requires
        range.well_formed(),
    ensures
        drawn_from(r, *range),
        0 <= r <= VAL_MAX,
{
    if range.min != range.max {
        gen_range_i64(rnd, range.min, range.max)
    } else {
        range.min
    }
}

/// A duration drawn in seconds and converted to a sample count.
fn draw_duration(rnd: &mut rand::rngs::ThreadRng, range: &ParamRange, sr: i64) -> (r: i64)
    requires
        range.well_formed(),
        1 <= sr <= UNIT,
        range.max * sr <= (MAX_LEN as int) * (UNIT as int),
    ensures
        dur_samples(range.min as int, sr as int) <= r <= dur_samples(range.max as int, sr as int),
        range.min == range.max ==> r == dur_samples(range.min as int, sr as int),
        0 <= r <= MAX_LEN,
{
    let v: i64 = get_random_value(rnd, range);
    proof {
        assert(0 <= (v as int) * (sr as int) && (range.min as int) * (sr as int) <= (v as int) * (
        sr as int) <= (range.max as int) * (sr as int)) by (nonlinear_arith)
            requires
                0 <= range.min <= v <= range.max,
                1 <= sr;
        lemma_div_is_ordered(
            (range.min as int) * (sr as int),
            (v as int) * (sr as int),
            UNIT as int,
        );
        lemma_div_is_ordered(
            (v as int) * (sr as int),
            (range.max as int) * (sr as int),
            UNIT as int,
        );
        lemma_div_is_ordered(
            (range.max as int) * (sr as int),
            (MAX_LEN as int) * (UNIT as int),
            UNIT as int,
        );
        lemma_div_by_multiple(MAX_LEN as int, UNIT as int);
        lemma_div_pos_is_pos((v as int) * (sr as int), UNIT as int);
    }
    (((v as u64) * (sr as u64)) / (UNIT as u64)) as i64
}

} // verus!
