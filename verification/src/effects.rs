//! Time-domain audio effects: delay, reverb and flanger, each a causal
//! per-sample filter over circular buffers.
//!
//! Samples are the fixed-point amplitudes of the waveform generators, and
//! every coefficient is an integer in thousandths, so each filter step is
//! exact integer arithmetic.  Stored state and outputs are clamped into
//! `[-SAMPLE_LIMIT, SAMPLE_LIMIT]`, a generous headroom above full scale,
//! so no step can overflow.

use vstd::prelude::*;

verus! {

/// Largest amplitude an effect stores or emits; well above full scale.
pub const SAMPLE_LIMIT: i64 = 0x4000_0000;

/// Division that rounds toward zero, as the machine division does.
pub open spec fn tdiv(a: int, b: int) -> int {
    if a >= 0 {
        a / b
    } else {
        -((-a) / b)
    }
}

/// A quotient's magnitude is bounded by the bound of its dividend over
/// the divisor.
pub proof fn lemma_tdiv_in_range(a: int, b: int, m: int)
    requires
        b >= 1,
        m >= 0,
        -(m * b) <= a <= m * b,
    ensures
        -m <= tdiv(a, b) <= m,
{
    if a >= 0 {
        assert(a / b <= m) by (nonlinear_arith)
            requires
                b >= 1,
                0 <= a <= m * b,
        ;
        assert(a / b >= 0) by (nonlinear_arith)
            requires
                b >= 1,
                a >= 0,
        ;
    } else {
        assert((-a) / b <= m) by (nonlinear_arith)
            requires
                b >= 1,
                0 <= -a <= m * b,
        ;
        assert((-a) / b >= 0) by (nonlinear_arith)
            requires
                b >= 1,
                -a >= 0,
        ;
    }
}

/// Truncating division of a machine value by a positive constant.
fn div_milli(a: i64, b: i64) -> (r: i64)
    requires
        b >= 1,
    ensures
        r as int == tdiv(a as int, b as int),
{
    a / b
}

/// An amplitude clamped into the stored range.
pub open spec fn spec_clamp(v: int) -> int {
    if v > SAMPLE_LIMIT {
        SAMPLE_LIMIT as int
    } else if v < -SAMPLE_LIMIT {
        -(SAMPLE_LIMIT as int)
    } else {
        v
    }
}

fn clamp_sample(v: i64) -> (r: i64)
    ensures
        r as int == spec_clamp(v as int),
        -SAMPLE_LIMIT <= r <= SAMPLE_LIMIT,
{
    if v > SAMPLE_LIMIT {
        SAMPLE_LIMIT
    } else if v < -SAMPLE_LIMIT {
        -SAMPLE_LIMIT
    } else {
        v
    }
}

/// A value clamped into an arbitrary closed range.
pub open spec fn spec_clamp_to(v: int, lo: int, hi: int) -> int {
    if v < lo {
        lo
    } else if v > hi {
        hi
    } else {
        v
    }
}

fn clamp_to(v: i64, lo: i64, hi: i64) -> (r: i64)
    requires
        lo <= hi,
    ensures
        r as int == spec_clamp_to(v as int, lo as int, hi as int),
        lo <= r <= hi,
{
    if v < lo {
        lo
    } else if v > hi {
        hi
    } else {
        v
    }
}

/// Dry and wet signals blended by a mix in thousandths.
pub open spec fn spec_mix(input: int, wet: int, mix: int) -> int {
    tdiv(input * (1000 - mix) + wet * mix, 1000)
}

/// Every sample of a buffer within the stored range.
pub open spec fn spec_buffer_bounded(b: Seq<i64>) -> bool {
    forall|i: int| 0 <= i < b.len() ==> -SAMPLE_LIMIT <= #[trigger] b[i] <= SAMPLE_LIMIT
}

/// Index a circular buffer is read at, `tap` samples behind the write
/// cursor.
pub open spec fn spec_tap_index(write: int, tap: int, len: int) -> int {
    if write >= tap {
        write - tap
    } else {
        len - (tap - write)
    }
}

/// A delay line with three read taps at the full delay and at golden-ratio
/// fractions of it, a one-pole damping filter in its feedback path, and a
/// dry/wet mix.
#[derive(Debug, Clone)]
pub struct DelayEffect {
    pub buffer: Vec<i64>,
    pub write_index: usize,
    pub delay_samples: usize,
    /// Feedback amount in thousandths, at most 990.
    pub feedback: i64,
    /// Dry/wet mix in thousandths.
    pub mix: i64,
    pub sample_rate: u32,
    pub tap1_samples: usize,
    pub tap2_samples: usize,
    pub damping_filter: i64,
    /// Damping coefficient in thousandths.
    pub damping_coefficient: i64,
}

impl DelayEffect {
    /// Structural soundness: the cursor and every tap stay within the
    /// buffer, the coefficients within their ranges, and all stored
    /// amplitudes within the clamp range.
    pub open spec fn wf(&self) -> bool {
        &&& 1024 <= self.buffer@.len()
        &&& self.buffer@.len() <= 0x1000_0000
        &&& self.write_index < self.buffer@.len()
        &&& self.delay_samples <= self.buffer@.len()
        &&& self.tap1_samples == self.delay_samples * 618 / 1000
        &&& self.tap2_samples == self.delay_samples * 382 / 1000
        &&& 0 <= self.feedback <= 990
        &&& 0 <= self.mix <= 1000
        &&& self.damping_coefficient == 300
        &&& 1 <= self.sample_rate <= 192_000
        &&& -SAMPLE_LIMIT <= self.damping_filter <= SAMPLE_LIMIT
        &&& spec_buffer_bounded(self.buffer@)
    }

    /// Whether the effect holds no signal: every stored amplitude and the
    /// damping state are zero.
    pub open spec fn spec_silent(&self) -> bool {
        &&& self.damping_filter == 0
        &&& forall|i: int| 0 <= i < self.buffer@.len() ==> #[trigger] self.buffer@[i] == 0
    }

    /// Builds a delay line of at least 1024 samples, long enough for the
    /// requested delay time.  Feedback clamps to 0.95 and the mix to the
    /// unit range.
    pub fn new(delay_time_ms: u32, feedback: i64, mix: i64, sample_rate: u32) -> (r: DelayEffect)
        requires
            delay_time_ms <= 60_000,
            1 <= sample_rate <= 192_000,
        ensures
            r.wf(),
            r.spec_silent(),
            r.delay_samples == delay_time_ms * sample_rate / 1000,
            r.buffer@.len() == if r.delay_samples >= 1024 {
                r.delay_samples as int
            } else {
                1024
            },
            r.write_index == 0,
            r.feedback == spec_clamp_to(feedback as int, 0, 950),
            r.mix == spec_clamp_to(mix as int, 0, 1000),
            r.sample_rate == sample_rate,
            r.tap1_samples == r.delay_samples * 618 / 1000,
            r.tap2_samples == r.delay_samples * 382 / 1000,
            r.damping_coefficient == 300,
    {
        proof {
            assert(delay_time_ms * sample_rate <= 11_520_000_000) by (nonlinear_arith)
                requires
                    delay_time_ms <= 60_000,
                    sample_rate <= 192_000,
            ;
        }
        let prod64: u64 = delay_time_ms as u64 * sample_rate as u64;
        let delay_samples: usize = (prod64 / 1000) as usize;
        proof {
            assert(prod64 / 1000 <= 11_520_000);
        }
        let buffer_size: usize = if delay_samples >= 1024 {
            delay_samples
        } else {
            1024
        };
        let mut buffer: Vec<i64> = Vec::new();
        let mut i: usize = 0;
        while i < buffer_size
            invariant
                buffer@.len() == i,
                i <= buffer_size,
                forall|j: int| 0 <= j < i ==> #[trigger] buffer@[j] == 0,
            decreases buffer_size - i,
        {
            buffer.push(0);
            i = i + 1;
        }
        let tap1_samples = (delay_samples as u64 * 618 / 1000) as usize;
        let tap2_samples = (delay_samples as u64 * 382 / 1000) as usize;
        proof {
            assert(delay_samples * 618 / 1000 <= delay_samples) by (nonlinear_arith);
            assert(delay_samples * 382 / 1000 <= delay_samples) by (nonlinear_arith);
        }
        DelayEffect {
            buffer,
            write_index: 0,
            delay_samples,
            feedback: clamp_to(feedback, 0, 950),
            mix: clamp_to(mix, 0, 1000),
            sample_rate,
            tap1_samples,
            tap2_samples,
            damping_filter: 0,
            damping_coefficient: 300,
        }
    }

    /// Changes the delay time, recomputing the taps and growing the
    /// buffer when the new delay does not fit.  The buffer never
    /// shrinks, and what it already held is kept in place — no live
    /// sample a reader might still reach is truncated; the write cursor
    /// and damping state are untouched, and an unchanged delay is a
    /// no-op.
    pub fn set_delay_time(&mut self, delay_time_ms: u32)
        requires
            old(self).wf(),
            delay_time_ms <= 60_000,
        ensures
            final(self).wf(),
            final(self).delay_samples == delay_time_ms * old(self).sample_rate / 1000,
            final(self).tap1_samples == final(self).delay_samples * 618 / 1000,
            final(self).tap2_samples == final(self).delay_samples * 382 / 1000,
            final(self).buffer@.len() >= old(self).buffer@.len(),
            final(self).buffer@.subrange(0, old(self).buffer@.len() as int) == old(self).buffer@,
            forall|j: int|
                old(self).buffer@.len() <= j < final(self).buffer@.len()
                    ==> #[trigger] final(self).buffer@[j] == 0,
            final(self).write_index == old(self).write_index,
            final(self).damping_filter == old(self).damping_filter,
            final(self).feedback == old(self).feedback,
            final(self).mix == old(self).mix,
            final(self).sample_rate == old(self).sample_rate,
            final(self).damping_coefficient == old(self).damping_coefficient,
            delay_time_ms * old(self).sample_rate / 1000 == old(self).delay_samples ==> *final(self) == *old(self),
    {
        let rate = self.sample_rate;
        proof {
            assert(delay_time_ms * rate <= 11_520_000_000) by (nonlinear_arith)
                requires
                    delay_time_ms <= 60_000,
                    rate <= 192_000,
            ;
        }
        let prod64: u64 = delay_time_ms as u64 * rate as u64;
        let new_delay_samples: usize = (prod64 / 1000) as usize;
        proof {
            assert(prod64 / 1000 <= 11_520_000);
        }
        if new_delay_samples != self.delay_samples {
            self.delay_samples = new_delay_samples;
            proof {
                assert(new_delay_samples * 618 / 1000 <= new_delay_samples) by (nonlinear_arith);
                assert(new_delay_samples * 382 / 1000 <= new_delay_samples) by (nonlinear_arith);
            }
            self.tap1_samples = (new_delay_samples as u64 * 618 / 1000) as usize;
            self.tap2_samples = (new_delay_samples as u64 * 382 / 1000) as usize;
            if new_delay_samples >= self.buffer.len() {
                let ghost before = self.buffer@;
                self.buffer.resize(new_delay_samples + 1024, 0);
                proof {
                    assert forall|j: int|
                        0 <= j < self.buffer@.len() implies -SAMPLE_LIMIT <= #[trigger] self
                        .buffer@[j] <= SAMPLE_LIMIT by {
                        if j < before.len() {
                            assert(self.buffer@[j] == before[j]);
                        }
                    }
                    assert(self.buffer@.subrange(0, before.len() as int) =~= before);
                }
            } else {
                proof {
                    assert(self.buffer@.subrange(0, self.buffer@.len() as int) =~= self.buffer@);
                }
            }
        } else {
            proof {
                assert(self.buffer@.subrange(0, self.buffer@.len() as int) =~= self.buffer@);
            }
        }
    }

    /// Sets the feedback amount, clamping it to 0.99.
    pub fn set_feedback(&mut self, feedback: i64)
        requires
            old(self).wf(),
        ensures
            final(self).wf(),
            *final(self) == (DelayEffect {
                feedback: spec_clamp_to(feedback as int, 0, 990) as i64,
                ..*old(self)
            }),
    {
        self.feedback = clamp_to(feedback, 0, 990);
    }

    /// Sets the dry/wet mix, clamping it to the unit range.
    pub fn set_mix(&mut self, mix: i64)
        requires
            old(self).wf(),
        ensures
            final(self).wf(),
            *final(self) == (DelayEffect {
                mix: spec_clamp_to(mix as int, 0, 1000) as i64,
                ..*old(self)
            }),
    {
        self.mix = clamp_to(mix, 0, 1000);
    }

    /// The sample `tap_samples` behind the write cursor; zero for an empty
    /// tap or one the buffer cannot hold.
    pub open spec fn spec_read_tap(&self, tap: int) -> int {
        if tap <= 0 || tap >= self.buffer@.len() {
            0
        } else {
            self.buffer@[spec_tap_index(
                self.write_index as int,
                tap,
                self.buffer@.len() as int,
            )] as int
        }
    }

    /// Reads one tap of the delay line.
    pub fn read_tap(&self, tap_samples: usize) -> (r: i64)
        requires
            self.wf(),
        ensures
            r as int == self.spec_read_tap(tap_samples as int),
            -SAMPLE_LIMIT <= r <= SAMPLE_LIMIT,
    {
        if tap_samples == 0 || tap_samples >= self.buffer.len() {
            return 0;
        }
        let read_index = if self.write_index >= tap_samples {
            self.write_index - tap_samples
        } else {
            self.buffer.len() - (tap_samples - self.write_index)
        };
        self.buffer[read_index]
    }

    /// The wet signal: the three taps blended at 60%, 25% and 15%.
    pub open spec fn spec_wet(&self) -> int {
        tdiv(
            self.spec_read_tap(self.delay_samples as int) * 600 + self.spec_read_tap(
                self.tap1_samples as int,
            ) * 250 + self.spec_read_tap(self.tap2_samples as int) * 150,
            1000,
        )
    }

    /// The damping state after absorbing the wet signal.
    pub open spec fn spec_damped(&self) -> int {
        tdiv(self.spec_wet() * (1000 - 300) + self.damping_filter * 300, 1000)
    }

    /// Runs one sample through the delay line: the three taps form the wet
    /// signal, the damping filter smooths it, the damped signal scaled by
    /// the feedback joins the input in the buffer, and the output blends
    /// dry and wet by the mix.  A silent line fed silence stays silent.
    pub fn process_sample(&mut self, input: i64) -> (r: i64)
        requires
            old(self).wf(),
            -SAMPLE_LIMIT <= input <= SAMPLE_LIMIT,
        ensures
            final(self).wf(),
            spec_delay_step(*old(self), *final(self), input as int),
            r as int == spec_delay_out(*old(self), input as int),
            -SAMPLE_LIMIT <= r <= SAMPLE_LIMIT,
            old(self).spec_silent() && input == 0 ==> r == 0 && final(self).spec_silent(),
    {
        let main_tap = self.read_tap(self.delay_samples);
        let tap1 = self.read_tap(self.tap1_samples);
        let tap2 = self.read_tap(self.tap2_samples);
        let wet_signal = div_milli(main_tap * 600 + tap1 * 250 + tap2 * 150, 1000);
        proof {
            lemma_tdiv_in_range(
                main_tap * 600 + tap1 * 250 + tap2 * 150,
                1000,
                SAMPLE_LIMIT as int,
            );
        }
        let damped = div_milli(wet_signal * 700 + self.damping_filter * 300, 1000);
        proof {
            lemma_tdiv_in_range(
                wet_signal * 700 + self.damping_filter as int * 300,
                1000,
                SAMPLE_LIMIT as int,
            );
        }
        self.damping_filter = damped;
        let fb = self.feedback;
        proof {
            assert(-(SAMPLE_LIMIT * 1000) <= damped * fb <= SAMPLE_LIMIT * 1000)
                by (nonlinear_arith)
                requires
                    -SAMPLE_LIMIT <= damped <= SAMPLE_LIMIT,
                    0 <= fb <= 990,
            ;
            lemma_tdiv_in_range(damped * fb as int, 1000, SAMPLE_LIMIT as int);
        }
        let fed_back = div_milli(damped * fb, 1000);
        let stored = clamp_sample(input + fed_back);
        let w = self.write_index;
        self.buffer[w] = stored;
        self.write_index = (self.write_index + 1) % self.buffer.len();
        let mx = self.mix;
        proof {
            assert(-(SAMPLE_LIMIT * 1000) <= input * (1000 - mx) + wet_signal * mx <= SAMPLE_LIMIT
                * 1000) by (nonlinear_arith)
                requires
                    -SAMPLE_LIMIT <= input <= SAMPLE_LIMIT,
                    -SAMPLE_LIMIT <= wet_signal <= SAMPLE_LIMIT,
                    0 <= mx <= 1000,
            ;
            assert(-(SAMPLE_LIMIT * 1000) <= input * (1000 - mx) <= SAMPLE_LIMIT * 1000)
                by (nonlinear_arith)
                requires
                    -SAMPLE_LIMIT <= input <= SAMPLE_LIMIT,
                    0 <= mx <= 1000,
            ;
            assert(-(SAMPLE_LIMIT * 1000) <= wet_signal * mx <= SAMPLE_LIMIT * 1000)
                by (nonlinear_arith)
                requires
                    -SAMPLE_LIMIT <= wet_signal <= SAMPLE_LIMIT,
                    0 <= mx <= 1000,
            ;
            lemma_tdiv_in_range(
                input as int * (1000 - mx as int) + wet_signal as int * mx as int,
                1000,
                SAMPLE_LIMIT as int,
            );
        }
        let out = div_milli(input * (1000 - mx) + wet_signal * mx, 1000);
        proof {
            if old(self).spec_silent() && input == 0 {
                assert(main_tap == 0 && tap1 == 0 && tap2 == 0);
                assert(tdiv(0, 1000) == 0);
                assert(wet_signal == 0 && damped == 0);
                assert(damped * fb == 0) by (nonlinear_arith)
                    requires
                        damped == 0,
                ;
                assert(fed_back == 0);
                assert(stored == 0);
                assert forall|j: int|
                    0 <= j < self.buffer@.len() implies #[trigger] self.buffer@[j] == 0 by {
                    if j != old(self).write_index {
                        assert(self.buffer@[j] == old(self).buffer@[j]);
                    }
                }
                assert(input * (1000 - mx) + wet_signal * mx == 0) by (nonlinear_arith)
                    requires
                        input == 0,
                        wet_signal == 0,
                ;
                assert(tdiv(0, 1000) == 0);
                assert(out == 0);
            }
        }
        out
    }

    /// Zeroes the buffer, the cursor and the damping state; the configured
    /// parameters stay.
    pub fn reset(&mut self)
        requires
            old(self).wf(),
        ensures
            final(self).wf(),
            final(self).spec_silent(),
            final(self).write_index == 0,
            final(self).buffer@.len() == old(self).buffer@.len(),
            final(self).delay_samples == old(self).delay_samples,
            final(self).tap1_samples == old(self).tap1_samples,
            final(self).tap2_samples == old(self).tap2_samples,
            final(self).feedback == old(self).feedback,
            final(self).mix == old(self).mix,
            final(self).sample_rate == old(self).sample_rate,
            final(self).damping_coefficient == old(self).damping_coefficient,
    {
        let n = self.buffer.len();
        let mut i: usize = 0;
        while i < n
            invariant
                self.buffer@.len() == n,
                i <= n,
                forall|j: int| 0 <= j < i ==> #[trigger] self.buffer@[j] == 0,
                spec_buffer_bounded(self.buffer@),
                self.write_index == old(self).write_index,
                self.delay_samples == old(self).delay_samples,
                self.tap1_samples == old(self).tap1_samples,
                self.tap2_samples == old(self).tap2_samples,
                self.feedback == old(self).feedback,
                self.mix == old(self).mix,
                self.sample_rate == old(self).sample_rate,
                self.damping_filter == old(self).damping_filter,
                self.damping_coefficient == old(self).damping_coefficient,
                old(self).wf(),
            decreases n - i,
        {
            self.buffer[i] = 0;
            i = i + 1;
        }
        self.write_index = 0;
        self.damping_filter = 0;
    }

    /// The effect's name.
    pub fn name(&self) -> (r: &'static str)
        ensures
            r@ =~= seq!['D', 'e', 'l', 'a', 'y'],
    {
        proof {
            reveal_strlit("Delay");
        }
        "Delay"
    }
}

/// The sample the delay line emits for `input` in state `pre`: dry and
/// wet blended by the mix.
pub open spec fn spec_delay_out(pre: DelayEffect, input: int) -> int {
    spec_mix(input, pre.spec_wet(), pre.mix as int)
}

/// One step of the delay line on `input`: the exact relation between the
/// state before and after processing one sample.  The damping filter
/// absorbs the wet signal, the input plus the damped feedback lands at
/// the write cursor, the cursor advances, and every configured parameter
/// stays.
pub open spec fn spec_delay_step(pre: DelayEffect, post: DelayEffect, input: int) -> bool {
    &&& post.damping_filter == pre.spec_damped()
    &&& post.buffer@ == pre.buffer@.update(
        pre.write_index as int,
        spec_clamp(input + tdiv(pre.spec_damped() * pre.feedback, 1000)) as i64,
    )
    &&& post.write_index == (pre.write_index + 1) % pre.buffer@.len() as int
    &&& post.delay_samples == pre.delay_samples
    &&& post.tap1_samples == pre.tap1_samples
    &&& post.tap2_samples == pre.tap2_samples
    &&& post.feedback == pre.feedback
    &&& post.mix == pre.mix
    &&& post.sample_rate == pre.sample_rate
    &&& post.damping_coefficient == pre.damping_coefficient
}

/// Value of the flanger's low-frequency oscillator, in thousandths, at a
/// phase given in millionths of a cycle: a piecewise-linear wave that
/// rises from zero to one, falls through zero to minus one, and returns
/// to zero, standing in for the floating-point sine of the usual design.
pub open spec fn spec_lfo(phase: int) -> int {
    if phase < 250_000 {
        phase / 250
    } else if phase < 750_000 {
        1000 - (phase - 250_000) / 250
    } else {
        -1000 + (phase - 750_000) / 250
    }
}

fn lfo_value(phase: u32) -> (r: i64)
    requires
        phase < 1_000_000,
    ensures
        r as int == spec_lfo(phase as int),
        -1000 <= r <= 1000,
{
    if phase < 250_000 {
        (phase / 250) as i64
    } else if phase < 750_000 {
        1000 - ((phase - 250_000) / 250) as i64
    } else {
        -1000 + ((phase - 750_000) / 250) as i64
    }
}

/// A flanger: one delay line whose read offset is modulated by a
/// low-frequency oscillator, read with linear interpolation between the
/// two nearest stored samples.
#[derive(Debug, Clone)]
pub struct FlangerEffect {
    pub buffer: Vec<i64>,
    pub write_index: usize,
    /// Oscillator phase in millionths of a cycle.
    pub lfo_phase: u32,
    /// Oscillator rate in millihertz, at least 10.
    pub lfo_rate: u32,
    /// Base delay in samples.
    pub delay_base: usize,
    /// Modulation range in samples.
    pub delay_range: usize,
    /// Effect depth in thousandths.
    pub depth: i64,
    /// Feedback amount in thousandths, at most 990.
    pub feedback: i64,
    /// Dry/wet mix in thousandths.
    pub mix: i64,
    pub sample_rate: u32,
}

impl FlangerEffect {
    /// Structural soundness of the delay line and parameter ranges.
    pub open spec fn wf(&self) -> bool {
        &&& 1024 <= self.buffer@.len()
        &&& self.buffer@.len() <= 0x1000_0000
        &&& self.write_index < self.buffer@.len()
        &&& self.delay_base + self.delay_range < self.buffer@.len()
        &&& self.lfo_phase < 1_000_000
        &&& 10 <= self.lfo_rate
        &&& 0 <= self.depth <= 1000
        &&& 0 <= self.feedback <= 990
        &&& 0 <= self.mix <= 1000
        &&& 8000 <= self.sample_rate <= 192_000
        &&& spec_buffer_bounded(self.buffer@)
    }

    /// Whether the effect holds no signal.
    pub open spec fn spec_silent(&self) -> bool {
        forall|i: int| 0 <= i < self.buffer@.len() ==> #[trigger] self.buffer@[i] == 0
    }

    /// Builds a flanger with a 2 ms base delay and an 8 ms modulation
    /// range.  The rate is floored at 0.01 Hz, the other parameters
    /// clamp to the unit range (feedback to 0.99).
    pub fn new(lfo_rate: u32, depth: i64, feedback: i64, mix: i64, sample_rate: u32) -> (r:
        FlangerEffect)
        requires
            8000 <= sample_rate <= 192_000,
        ensures
            r.wf(),
            r.spec_silent(),
            r.write_index == 0,
            r.delay_base == sample_rate / 500,
            r.delay_range == sample_rate / 125,
            r.buffer@.len() == if sample_rate / 500 + sample_rate / 125 + 1 >= 1024 {
                sample_rate / 500 + sample_rate / 125 + 1
            } else {
                1024
            },
            r.lfo_phase == 0,
            r.lfo_rate == if lfo_rate >= 10 {
                lfo_rate
            } else {
                10
            },
            r.depth == spec_clamp_to(depth as int, 0, 1000),
            r.feedback == spec_clamp_to(feedback as int, 0, 990),
            r.mix == spec_clamp_to(mix as int, 0, 1000),
            r.sample_rate == sample_rate,
    {
        let delay_base: usize = (sample_rate / 500) as usize;
        let delay_range: usize = (sample_rate / 125) as usize;
        let need: usize = delay_base + delay_range + 1;
        let buffer_size: usize = if need >= 1024 {
            need
        } else {
            1024
        };
        let mut buffer: Vec<i64> = Vec::new();
        let mut i: usize = 0;
        while i < buffer_size
            invariant
                buffer@.len() == i,
                i <= buffer_size,
                forall|j: int| 0 <= j < i ==> #[trigger] buffer@[j] == 0,
            decreases buffer_size - i,
        {
            buffer.push(0);
            i = i + 1;
        }
        let rate = if lfo_rate < 10 {
            10
        } else {
            lfo_rate
        };
        FlangerEffect {
            buffer,
            write_index: 0,
            lfo_phase: 0,
            lfo_rate: rate,
            delay_base,
            delay_range,
            depth: clamp_to(depth, 0, 1000),
            feedback: clamp_to(feedback, 0, 990),
            mix: clamp_to(mix, 0, 1000),
            sample_rate,
        }
    }

    /// The modulated delay of the current sample, in thousandths of a
    /// sample: the base delay plus the oscillator's unipolar value scaled
    /// by the range and the depth.
    pub open spec fn spec_total_delay_milli(&self) -> int {
        self.delay_base * 1000 + tdiv(
            tdiv((spec_lfo(self.lfo_phase as int) + 1000) * self.delay_range, 2) * self.depth,
            1000,
        )
    }

    /// The stored sample a fractional delay behind the write cursor,
    /// linearly interpolated between the two nearest stored samples.
    pub open spec fn spec_delayed_sample(&self, delay_milli: int) -> int {
        let len = self.buffer@.len() as int;
        let d = delay_milli / 1000;
        let frac = delay_milli % 1000;
        let i1 = spec_tap_index(self.write_index as int, d, len);
        let i2 = if i1 == 0 {
            len - 1
        } else {
            i1 - 1
        };
        let s1 = self.buffer@[i1] as int;
        let s2 = self.buffer@[i2] as int;
        s1 + tdiv((s2 - s1) * frac, 1000)
    }

    /// Reads the delay line at a fractional offset.
    fn get_delayed_sample(&self, delay_milli: u64) -> (r: i64)
        requires
            self.wf(),
            delay_milli / 1000 < self.buffer@.len(),
        ensures
            r as int == self.spec_delayed_sample(delay_milli as int),
            -SAMPLE_LIMIT <= r <= SAMPLE_LIMIT,
    {
        let delay_int: usize = (delay_milli / 1000) as usize;
        let frac: i64 = (delay_milli % 1000) as i64;
        let read_index1 = if self.write_index >= delay_int {
            self.write_index - delay_int
        } else {
            self.buffer.len() - (delay_int - self.write_index)
        };
        let read_index2 = if read_index1 == 0 {
            self.buffer.len() - 1
        } else {
            read_index1 - 1
        };
        let sample1 = self.buffer[read_index1];
        let sample2 = self.buffer[read_index2];
        proof {
            lemma_lerp_bounded(sample1 as int, sample2 as int, frac as int);
        }
        sample1 + div_milli((sample2 - sample1) * frac, 1000)
    }

    /// Sets the oscillator rate, floored at 0.01 Hz.
    pub fn set_lfo_rate(&mut self, rate: u32)
        requires
            old(self).wf(),
        ensures
            final(self).wf(),
            *final(self) == (FlangerEffect {
                lfo_rate: if rate >= 10 {
                    rate
                } else {
                    10u32
                },
                ..*old(self)
            }),
    {
        self.lfo_rate = if rate < 10 {
            10
        } else {
            rate
        };
    }

    /// Sets the effect depth, clamped to the unit range.
    pub fn set_depth(&mut self, depth: i64)
        requires
            old(self).wf(),
        ensures
            final(self).wf(),
            *final(self) == (FlangerEffect {
                depth: spec_clamp_to(depth as int, 0, 1000) as i64,
                ..*old(self)
            }),
    {
        self.depth = clamp_to(depth, 0, 1000);
    }

    /// Sets the feedback amount, clamped to 0.99.
    pub fn set_feedback(&mut self, feedback: i64)
        requires
            old(self).wf(),
        ensures
            final(self).wf(),
            *final(self) == (FlangerEffect {
                feedback: spec_clamp_to(feedback as int, 0, 990) as i64,
                ..*old(self)
            }),
    {
        self.feedback = clamp_to(feedback, 0, 990);
    }

    /// Sets the dry/wet mix, clamped to the unit range.
    pub fn set_mix(&mut self, mix: i64)
        requires
            old(self).wf(),
        ensures
            final(self).wf(),
            *final(self) == (FlangerEffect {
                mix: spec_clamp_to(mix as int, 0, 1000) as i64,
                ..*old(self)
            }),
    {
        self.mix = clamp_to(mix, 0, 1000);
    }

    /// Runs one sample through the flanger: the oscillator picks the
    /// fractional read offset, the interpolated sample joins the input in
    /// the buffer scaled by the feedback, the phase advances by rate over
    /// sample rate, and the output blends dry and wet by the mix.  A
    /// silent line fed silence stays silent.
    pub fn process_sample(&mut self, input: i64) -> (r: i64)
        requires
            old(self).wf(),
            -SAMPLE_LIMIT <= input <= SAMPLE_LIMIT,
        ensures
            final(self).wf(),
            spec_flanger_step(*old(self), *final(self), input as int),
            r as int == spec_flanger_out(*old(self), input as int),
            -SAMPLE_LIMIT <= r <= SAMPLE_LIMIT,
            old(self).spec_silent() && input == 0 ==> r == 0 && final(self).spec_silent(),
    {
        let lfo = lfo_value(self.lfo_phase);
        let range = self.delay_range as i64;
        proof {
            assert((lfo + 1000) * range <= 2000 * 0x1000_0000) by (nonlinear_arith)
                requires
                    0 <= lfo + 1000 <= 2000,
                    0 <= range <= 0x1000_0000,
            ;
            assert((lfo + 1000) * range >= 0) by (nonlinear_arith)
                requires
                    0 <= lfo + 1000,
                    0 <= range,
            ;
            lemma_tdiv_in_range((lfo + 1000) * range, 2, (1000 * 0x1000_0000) as int);
        }
        let half = div_milli((lfo + 1000) * range, 2);
        let d = self.depth;
        proof {
            assert(0 <= half * d <= 1000 * 0x1000_0000 * 1000) by (nonlinear_arith)
                requires
                    0 <= half <= 1000 * 0x1000_0000,
                    0 <= d <= 1000,
            ;
            lemma_tdiv_in_range(half * d, 1000, (1000 * 0x1000_0000) as int);
            assert(tdiv(half * d, 1000) <= half) by {
                assert(half * d <= half * 1000) by (nonlinear_arith)
                    requires
                        0 <= half,
                        d <= 1000,
                ;
                assert(half * d / 1000 <= half) by (nonlinear_arith)
                    requires
                        half * d <= half * 1000,
                        0 <= half * d,
                ;
            }
        }
        let offset_milli = div_milli(half * d, 1000);
        let total_delay_milli: u64 = (self.delay_base as u64) * 1000 + offset_milli as u64;
        proof {
            assert(half <= 1000 * self.delay_range) by {
                assert((lfo + 1000) * range <= 2000 * range) by (nonlinear_arith)
                    requires
                        lfo + 1000 <= 2000,
                        0 <= range,
                ;
                assert(tdiv((lfo + 1000) * range, 2) <= 2000 * range / 2) by {
                    lemma_tdiv_le(((lfo + 1000) * range) as int, (2000 * range) as int, 2);
                }
                assert(2000 * range / 2 == 1000 * range);
            }
            assert(total_delay_milli / 1000 <= self.delay_base + self.delay_range);
        }
        let delayed = self.get_delayed_sample(total_delay_milli);
        let fb = self.feedback;
        proof {
            assert(-(SAMPLE_LIMIT * 1000) <= delayed * fb <= SAMPLE_LIMIT * 1000)
                by (nonlinear_arith)
                requires
                    -SAMPLE_LIMIT <= delayed <= SAMPLE_LIMIT,
                    0 <= fb <= 990,
            ;
            lemma_tdiv_in_range(delayed * fb as int, 1000, SAMPLE_LIMIT as int);
        }
        let stored = clamp_sample(input + div_milli(delayed * fb, 1000));
        let w = self.write_index;
        self.buffer[w] = stored;
        self.write_index = (self.write_index + 1) % self.buffer.len();
        self.lfo_phase = ((self.lfo_phase as u64 + self.lfo_rate as u64 * 1000
            / self.sample_rate as u64) % 1_000_000) as u32;
        let mx = self.mix;
        proof {
            assert(-(SAMPLE_LIMIT * 1000) <= input * (1000 - mx) <= SAMPLE_LIMIT * 1000)
                by (nonlinear_arith)
                requires
                    -SAMPLE_LIMIT <= input <= SAMPLE_LIMIT,
                    0 <= mx <= 1000,
            ;
            assert(-(SAMPLE_LIMIT * 1000) <= delayed * mx <= SAMPLE_LIMIT * 1000)
                by (nonlinear_arith)
                requires
                    -SAMPLE_LIMIT <= delayed <= SAMPLE_LIMIT,
                    0 <= mx <= 1000,
            ;
            assert(-(SAMPLE_LIMIT * 1000) <= input * (1000 - mx) + delayed * mx <= SAMPLE_LIMIT
                * 1000) by (nonlinear_arith)
                requires
                    -SAMPLE_LIMIT <= input <= SAMPLE_LIMIT,
                    -SAMPLE_LIMIT <= delayed <= SAMPLE_LIMIT,
                    0 <= mx <= 1000,
            ;
            lemma_tdiv_in_range(
                input as int * (1000 - mx as int) + delayed as int * mx as int,
                1000,
                SAMPLE_LIMIT as int,
            );
        }
        let out = div_milli(input * (1000 - mx) + delayed * mx, 1000);
        proof {
            if old(self).spec_silent() && input == 0 {
                assert(tdiv(0, 1000) == 0);
                assert(delayed == 0) by {
                    let dm = old(self).spec_total_delay_milli();
                    let len = old(self).buffer@.len() as int;
                    let i1 = spec_tap_index(old(self).write_index as int, dm / 1000, len);
                    let i2 = if i1 == 0 {
                        len - 1
                    } else {
                        i1 - 1
                    };
                    assert(old(self).buffer@[i1] == 0 && old(self).buffer@[i2] == 0);
                    assert((0 - 0) * (dm % 1000) == 0) by (nonlinear_arith);
                }
                assert(delayed * fb == 0) by (nonlinear_arith)
                    requires
                        delayed == 0,
                ;
                assert(stored == 0);
                assert(input * (1000 - mx) + delayed * mx == 0) by (nonlinear_arith)
                    requires
                        input == 0,
                        delayed == 0,
                ;
                assert(tdiv(0, 1000) == 0);
                assert(out == 0);
                assert(final(self).buffer@ =~= old(self).buffer@);
            }
        }
        out
    }

    /// Zeroes the buffer, the cursor and the oscillator phase; the
    /// configured parameters stay.
    pub fn reset(&mut self)
        requires
            old(self).wf(),
        ensures
            final(self).wf(),
            final(self).spec_silent(),
            final(self).write_index == 0,
            final(self).lfo_phase == 0,
            final(self).buffer@.len() == old(self).buffer@.len(),
            final(self).lfo_rate == old(self).lfo_rate,
            final(self).delay_base == old(self).delay_base,
            final(self).delay_range == old(self).delay_range,
            final(self).depth == old(self).depth,
            final(self).feedback == old(self).feedback,
            final(self).mix == old(self).mix,
            final(self).sample_rate == old(self).sample_rate,
    {
        let n = self.buffer.len();
        let mut i: usize = 0;
        while i < n
            invariant
                self.buffer@.len() == n,
                i <= n,
                forall|j: int| 0 <= j < i ==> #[trigger] self.buffer@[j] == 0,
                self.write_index == old(self).write_index,
                self.lfo_phase == old(self).lfo_phase,
                self.lfo_rate == old(self).lfo_rate,
                self.delay_base == old(self).delay_base,
                self.delay_range == old(self).delay_range,
                self.depth == old(self).depth,
                self.feedback == old(self).feedback,
                self.mix == old(self).mix,
                self.sample_rate == old(self).sample_rate,
                old(self).wf(),
            decreases n - i,
        {
            self.buffer[i] = 0;
            i = i + 1;
        }
        self.write_index = 0;
        self.lfo_phase = 0;
    }

    /// The effect's name.
    pub fn name(&self) -> (r: &'static str)
        ensures
            r@ =~= seq!['F', 'l', 'a', 'n', 'g', 'e', 'r'],
    {
        proof {
            reveal_strlit("Flanger");
        }
        "Flanger"
    }
}

/// The sample the flanger emits for `input` in state `pre`: dry and the
/// interpolated delayed sample blended by the mix.
pub open spec fn spec_flanger_out(pre: FlangerEffect, input: int) -> int {
    spec_mix(input, pre.spec_delayed_sample(pre.spec_total_delay_milli()), pre.mix as int)
}

/// One step of the flanger on `input`: the exact relation between the
/// state before and after processing one sample.  The input plus the
/// delayed sample scaled by the feedback lands at the write cursor, the
/// cursor advances, the oscillator phase steps by rate over sample rate,
/// and every configured parameter stays.
pub open spec fn spec_flanger_step(pre: FlangerEffect, post: FlangerEffect, input: int) -> bool {
    let delayed = pre.spec_delayed_sample(pre.spec_total_delay_milli());
    &&& post.buffer@ == pre.buffer@.update(
        pre.write_index as int,
        spec_clamp(input + tdiv(delayed * pre.feedback, 1000)) as i64,
    )
    &&& post.write_index == (pre.write_index + 1) % pre.buffer@.len() as int
    &&& post.lfo_phase as int == (pre.lfo_phase + (pre.lfo_rate * 1000
        / pre.sample_rate as int)) % 1_000_000
    &&& post.lfo_rate == pre.lfo_rate
    &&& post.delay_base == pre.delay_base
    &&& post.delay_range == pre.delay_range
    &&& post.depth == pre.depth
    &&& post.feedback == pre.feedback
    &&& post.mix == pre.mix
    &&& post.sample_rate == pre.sample_rate
}

/// The stored contents of a list of delay lines.
pub open spec fn spec_deep(v: Seq<Vec<i64>>) -> Seq<Seq<i64>> {
    Seq::new(v.len(), |i: int| v[i]@)
}

/// State of the comb bank after its first `k` filters have absorbed one
/// input sample: the delay lines, their read cursors, the damping state
/// threaded through every filter in turn, and the sum of the delayed
/// samples read so far.  Each filter reads its line at the cursor, damps
/// the delayed sample into the shared one-pole state, writes the input
/// plus the damped state scaled by its feedback, and steps its cursor.
pub open spec fn spec_comb_pass(
    bufs: Seq<Seq<i64>>,
    idxs: Seq<usize>,
    fbs: Seq<i64>,
    damp: int,
    damping: int,
    input: int,
    k: int,
) -> (Seq<Seq<i64>>, Seq<usize>, int, int)
    decreases k,
{
    if k <= 0 {
        (bufs, idxs, damp, 0)
    } else {
        let prev = spec_comb_pass(bufs, idxs, fbs, damp, damping, input, k - 1);
        let j = k - 1;
        if 0 <= j < prev.0.len() && j < prev.1.len() && j < fbs.len() && prev.1[j]
            < prev.0[j].len() {
            let delayed = prev.0[j][prev.1[j] as int] as int;
            let damp2 = tdiv(delayed * (1000 - damping) + prev.2 * damping, 1000);
            let stored = spec_clamp(input + tdiv(damp2 * fbs[j], 1000));
            (
                prev.0.update(j, prev.0[j].update(prev.1[j] as int, stored as i64)),
                prev.1.update(j, ((prev.1[j] + 1) as int % prev.0[j].len() as int) as usize),
                damp2,
                prev.3 + delayed,
            )
        } else {
            prev
        }
    }
}

/// State of the all-pass chain after its first `k` filters have diffused
/// one signal: the delay lines, their cursors, and the running signal.
/// Each filter reads its line at the cursor, emits the delayed sample
/// minus the signal, stores the signal plus the delayed sample scaled by
/// the shared feedback, and steps its cursor.
pub open spec fn spec_allpass_pass(
    bufs: Seq<Seq<i64>>,
    idxs: Seq<usize>,
    fb: int,
    signal: int,
    k: int,
) -> (Seq<Seq<i64>>, Seq<usize>, int)
    decreases k,
{
    if k <= 0 {
        (bufs, idxs, signal)
    } else {
        let prev = spec_allpass_pass(bufs, idxs, fb, signal, k - 1);
        let j = k - 1;
        if 0 <= j < prev.0.len() && j < prev.1.len() && prev.1[j] < prev.0[j].len() {
            let delayed = prev.0[j][prev.1[j] as int] as int;
            let out = -prev.2 + delayed;
            let stored = spec_clamp(prev.2 + tdiv(delayed * fb, 1000));
            (
                prev.0.update(j, prev.0[j].update(prev.1[j] as int, stored as i64)),
                prev.1.update(j, ((prev.1[j] + 1) as int % prev.0[j].len() as int) as usize),
                out,
            )
        } else {
            prev
        }
    }
}

/// A Schroeder reverb: eight parallel comb filters whose outputs are
/// averaged, one damping filter threaded sequentially through all of
/// them, and six cascaded all-pass diffusers, blended with the dry signal
/// by the mix.
#[derive(Debug, Clone)]
pub struct ReverbEffect {
    pub comb_delays: Vec<Vec<i64>>,
    pub comb_indices: Vec<usize>,
    /// Per-filter feedback in thousandths.
    pub comb_feedback: Vec<i64>,
    pub allpass_delays: Vec<Vec<i64>>,
    pub allpass_indices: Vec<usize>,
    /// Shared all-pass feedback in thousandths.
    pub allpass_feedback: i64,
    /// Room size in thousandths.
    pub room_size: i64,
    /// High-frequency damping in thousandths.
    pub damping: i64,
    /// Dry/wet mix in thousandths.
    pub mix: i64,
    pub damping_filter: i64,
}

impl ReverbEffect {
    /// Structural soundness of both filter banks and parameter ranges.
    pub open spec fn wf(&self) -> bool {
        &&& self.comb_delays@.len() == 8
        &&& self.comb_indices@.len() == 8
        &&& self.comb_feedback@.len() == 8
        &&& forall|k: int|
            0 <= k < 8 ==> 1 <= (#[trigger] self.comb_delays@[k])@.len() <= 0x100000
        &&& forall|k: int|
            0 <= k < 8 ==> (#[trigger] self.comb_indices@[k]) < self.comb_delays@[k]@.len()
        &&& forall|k: int| 0 <= k < 8 ==> 0 <= (#[trigger] self.comb_feedback@[k]) <= 1100
        &&& forall|k: int| 0 <= k < 8 ==> spec_buffer_bounded((#[trigger] self.comb_delays@[k])@)
        &&& self.allpass_delays@.len() == 6
        &&& self.allpass_indices@.len() == 6
        &&& forall|k: int|
            0 <= k < 6 ==> 1 <= (#[trigger] self.allpass_delays@[k])@.len() <= 0x100000
        &&& forall|k: int|
            0 <= k < 6 ==> (#[trigger] self.allpass_indices@[k]) < self.allpass_delays@[k]@.len()
        &&& forall|k: int|
            0 <= k < 6 ==> spec_buffer_bounded((#[trigger] self.allpass_delays@[k])@)
        &&& self.allpass_feedback == 618
        &&& 0 <= self.room_size <= 1000
        &&& 0 <= self.damping <= 1000
        &&& 0 <= self.mix <= 1000
        &&& -SAMPLE_LIMIT <= self.damping_filter <= SAMPLE_LIMIT
    }

    /// Whether the reverb holds no signal: every delay line and the
    /// damping state are zero.
    pub open spec fn spec_silent(&self) -> bool {
        &&& self.damping_filter == 0
        &&& forall|k: int, i: int|
            0 <= k < self.comb_delays@.len() && 0 <= i < self.comb_delays@[k]@.len()
                ==> #[trigger] self.comb_delays@[k]@[i] == 0
        &&& forall|k: int, i: int|
            0 <= k < self.allpass_delays@.len() && 0 <= i < self.allpass_delays@[k]@.len()
                ==> #[trigger] self.allpass_delays@[k]@[i] == 0
    }
}

/// The comb-bank fold of the reverb in state `pre` on `input`.
pub open spec fn spec_reverb_combed(pre: ReverbEffect, input: int) -> (
    Seq<Seq<i64>>,
    Seq<usize>,
    int,
    int,
) {
    spec_comb_pass(
        spec_deep(pre.comb_delays@),
        pre.comb_indices@,
        pre.comb_feedback@,
        pre.damping_filter as int,
        pre.damping as int,
        input,
        8,
    )
}

/// The all-pass fold of the reverb in state `pre`, fed the averaged comb
/// output for `input`.
pub open spec fn spec_reverb_diffused(pre: ReverbEffect, input: int) -> (
    Seq<Seq<i64>>,
    Seq<usize>,
    int,
) {
    spec_allpass_pass(
        spec_deep(pre.allpass_delays@),
        pre.allpass_indices@,
        618,
        tdiv(spec_reverb_combed(pre, input).3, 8),
        6,
    )
}

/// The sample the reverb emits for `input` in state `pre`: dry and the
/// diffused signal blended by the mix, clamped into the stored range.
pub open spec fn spec_reverb_out(pre: ReverbEffect, input: int) -> int {
    spec_clamp(spec_mix(input, spec_reverb_diffused(pre, input).2, pre.mix as int))
}

/// One step of the reverb on `input`: the exact relation between the
/// state before and after processing one sample — the comb bank absorbs
/// the input, the all-pass chain diffuses the averaged comb output, and
/// every configured parameter stays.
pub open spec fn spec_reverb_step(pre: ReverbEffect, post: ReverbEffect, input: int) -> bool {
    let c = spec_reverb_combed(pre, input);
    let a = spec_reverb_diffused(pre, input);
    &&& spec_deep(post.comb_delays@) == c.0
    &&& post.comb_indices@ == c.1
    &&& post.damping_filter as int == c.2
    &&& spec_deep(post.allpass_delays@) == a.0
    &&& post.allpass_indices@ == a.1
    &&& post.comb_feedback == pre.comb_feedback
    &&& post.allpass_feedback == pre.allpass_feedback
    &&& post.room_size == pre.room_size
    &&& post.damping == pre.damping
    &&& post.mix == pre.mix
}

/// Comb-filter delay of filter `k`, in tenths of a millisecond.
pub open spec fn spec_comb_ms_tenths(k: int) -> int {
    if k == 0 {
        297
    } else if k == 1 {
        371
    } else if k == 2 {
        411
    } else if k == 3 {
        437
    } else if k == 4 {
        470
    } else if k == 5 {
        503
    } else if k == 6 {
        535
    } else {
        563
    }
}

/// All-pass delay of filter `k`, in tenths of a millisecond.
pub open spec fn spec_allpass_ms_tenths(k: int) -> int {
    if k == 0 {
        50
    } else if k == 1 {
        17
    } else if k == 2 {
        129
    } else if k == 3 {
        93
    } else if k == 4 {
        151
    } else {
        82
    }
}

fn comb_ms_tenths(k: usize) -> (r: u32)
    ensures
        r == spec_comb_ms_tenths(k as int),
        17 <= r <= 563,
{
    match k {
        0 => 297,
        1 => 371,
        2 => 411,
        3 => 437,
        4 => 470,
        5 => 503,
        6 => 535,
        _ => 563,
    }
}

fn allpass_ms_tenths(k: usize) -> (r: u32)
    ensures
        r == spec_allpass_ms_tenths(k as int),
        17 <= r <= 563,
{
    match k {
        0 => 50,
        1 => 17,
        2 => 129,
        3 => 93,
        4 => 151,
        _ => 82,
    }
}

/// A delay line of the given length, holding silence.
fn zero_line(samples: usize) -> (r: Vec<i64>)
    ensures
        r@.len() == samples,
        forall|j: int| 0 <= j < samples ==> #[trigger] r@[j] == 0,
{
    let mut line: Vec<i64> = Vec::new();
    let mut i: usize = 0;
    while i < samples
        invariant
            line@.len() == i,
            i <= samples,
            forall|j: int| 0 <= j < i ==> #[trigger] line@[j] == 0,
        decreases samples - i,
    {
        line.push(0);
        i = i + 1;
    }
    line
}

impl ReverbEffect {
    /// Builds the reverb: eight comb filters at the fixed near-prime
    /// delays, feedback rising with the room size and varied slightly per
    /// filter, and six all-pass diffusers at their fixed delays.
    pub fn new(room_size: i64, damping: i64, mix: i64, sample_rate: u32) -> (r: ReverbEffect)
        requires
            8000 <= sample_rate <= 192_000,
        ensures
            r.wf(),
            r.spec_silent(),
            r.room_size == spec_clamp_to(room_size as int, 0, 1000),
            r.damping == spec_clamp_to(damping as int, 0, 1000),
            r.mix == spec_clamp_to(mix as int, 0, 1000),
            forall|k: int|
                0 <= k < 8 ==> (#[trigger] r.comb_delays@[k])@.len() == spec_line_samples(
                    spec_comb_ms_tenths(k),
                    sample_rate as int,
                ),
            forall|k: int|
                0 <= k < 6 ==> (#[trigger] r.allpass_delays@[k])@.len() == spec_line_samples(
                    spec_allpass_ms_tenths(k),
                    sample_rate as int,
                ),
            forall|k: int| 0 <= k < 8 ==> #[trigger] r.comb_indices@[k] == 0,
            forall|k: int| 0 <= k < 6 ==> #[trigger] r.allpass_indices@[k] == 0,
            forall|k: int|
                0 <= k < 8 ==> #[trigger] r.comb_feedback@[k] as int == tdiv(
                    (600 + tdiv(spec_clamp_to(room_size as int, 0, 1000) * 350, 1000)) * (1000 + k
                        * 20 - 70),
                    1000,
                ),
            r.allpass_feedback == 618,
    {
        let room = clamp_to(room_size, 0, 1000);
        let base_feedback: i64 = 600 + div_milli(room * 350, 1000);
        proof {
            assert(0 <= room * 350 <= 350_000) by (nonlinear_arith)
                requires
                    0 <= room <= 1000,
            ;
            lemma_tdiv_in_range(room * 350, 1000, 350);
        }
        let mut comb_delays: Vec<Vec<i64>> = Vec::new();
        let mut comb_indices: Vec<usize> = Vec::new();
        let mut comb_feedback: Vec<i64> = Vec::new();
        let mut k: usize = 0;
        while k < 8
            invariant
                comb_delays@.len() == k,
                comb_indices@.len() == k,
                comb_feedback@.len() == k,
                k <= 8,
                600 <= base_feedback <= 950,
                base_feedback == 600 + tdiv(spec_clamp_to(room_size as int, 0, 1000) * 350, 1000),
                8000 <= sample_rate <= 192_000,
                forall|j: int|
                    0 <= j < k ==> (#[trigger] comb_delays@[j])@.len() == spec_line_samples(
                        spec_comb_ms_tenths(j),
                        sample_rate as int,
                    ),
                forall|j: int|
                    0 <= j < k ==> 1 <= (#[trigger] comb_delays@[j])@.len() <= 0x100000,
                forall|j: int, i: int|
                    0 <= j < k && 0 <= i < comb_delays@[j]@.len() ==> #[trigger] comb_delays@[j]@[i]
                        == 0,
                forall|j: int| 0 <= j < k ==> #[trigger] comb_indices@[j] == 0,
                forall|j: int|
                    0 <= j < k ==> #[trigger] comb_feedback@[j] as int == tdiv(
                        base_feedback * (1000 + j * 20 - 70),
                        1000,
                    ),
                forall|j: int| 0 <= j < k ==> 0 <= #[trigger] comb_feedback@[j] <= 1100,
            decreases 8 - k,
        {
            let ms_tenths = comb_ms_tenths(k);
            let samples = line_samples(ms_tenths, sample_rate);
            comb_delays.push(zero_line(samples));
            comb_indices.push(0);
            let variation: i64 = 1000 + (k as i64) * 20 - 70;
            proof {
                assert(930 <= variation <= 1090);
                assert(0 <= base_feedback * variation <= 1_100_000) by (nonlinear_arith)
                    requires
                        600 <= base_feedback <= 950,
                        930 <= variation <= 1090,
                ;
                lemma_tdiv_in_range(base_feedback * variation, 1000, 1100);
            }
            comb_feedback.push(div_milli(base_feedback * variation, 1000));
            k = k + 1;
        }
        let mut allpass_delays: Vec<Vec<i64>> = Vec::new();
        let mut allpass_indices: Vec<usize> = Vec::new();
        let mut a: usize = 0;
        while a < 6
            invariant
                allpass_delays@.len() == a,
                allpass_indices@.len() == a,
                a <= 6,
                8000 <= sample_rate <= 192_000,
                forall|j: int|
                    0 <= j < a ==> (#[trigger] allpass_delays@[j])@.len() == spec_line_samples(
                        spec_allpass_ms_tenths(j),
                        sample_rate as int,
                    ),
                forall|j: int|
                    0 <= j < a ==> 1 <= (#[trigger] allpass_delays@[j])@.len() <= 0x100000,
                forall|j: int, i: int|
                    0 <= j < a && 0 <= i < allpass_delays@[j]@.len()
                        ==> #[trigger] allpass_delays@[j]@[i] == 0,
                forall|j: int| 0 <= j < a ==> #[trigger] allpass_indices@[j] == 0,
            decreases 6 - a,
        {
            let ms_tenths = allpass_ms_tenths(a);
            let samples = line_samples(ms_tenths, sample_rate);
            allpass_delays.push(zero_line(samples));
            allpass_indices.push(0);
            a = a + 1;
        }
        ReverbEffect {
            comb_delays,
            comb_indices,
            comb_feedback,
            allpass_delays,
            allpass_indices,
            allpass_feedback: 618,
            room_size: room,
            damping: clamp_to(damping, 0, 1000),
            mix: clamp_to(mix, 0, 1000),
            damping_filter: 0,
        }
    }

    /// Runs one sample through the comb bank: each filter reads, damps
    /// through the shared one-pole state, writes back with its feedback,
    /// and steps its cursor; the result averages the eight delayed
    /// samples.  A silent bank fed silence stays silent.
    pub fn process_comb_filters(&mut self, input: i64) -> (r: i64)
        requires
            old(self).wf(),
            -SAMPLE_LIMIT <= input <= SAMPLE_LIMIT,
        ensures
            final(self).wf(),
            ({
                let f = spec_comb_pass(
                    spec_deep(old(self).comb_delays@),
                    old(self).comb_indices@,
                    old(self).comb_feedback@,
                    old(self).damping_filter as int,
                    old(self).damping as int,
                    input as int,
                    8,
                );
                &&& spec_deep(final(self).comb_delays@) == f.0
                &&& final(self).comb_indices@ == f.1
                &&& final(self).damping_filter as int == f.2
                &&& r as int == tdiv(f.3, 8)
            }),
            -SAMPLE_LIMIT <= r <= SAMPLE_LIMIT,
            final(self).comb_feedback == old(self).comb_feedback,
            final(self).allpass_delays == old(self).allpass_delays,
            final(self).allpass_indices == old(self).allpass_indices,
            final(self).allpass_feedback == old(self).allpass_feedback,
            final(self).room_size == old(self).room_size,
            final(self).damping == old(self).damping,
            final(self).mix == old(self).mix,
            old(self).spec_silent() && input == 0 ==> r == 0 && final(self).spec_silent(),
    {
        let ghost bufs0 = spec_deep(old(self).comb_delays@);
        let ghost idxs0 = old(self).comb_indices@;
        let ghost fbs = old(self).comb_feedback@;
        let ghost damp0 = old(self).damping_filter as int;
        let ghost dc = old(self).damping as int;
        let mut output: i64 = 0;
        let mut k: usize = 0;
        while k < 8
            invariant
                k <= 8,
                old(self).wf(),
                -SAMPLE_LIMIT <= input <= SAMPLE_LIMIT,
                bufs0 == spec_deep(old(self).comb_delays@),
                idxs0 == old(self).comb_indices@,
                fbs == old(self).comb_feedback@,
                damp0 == old(self).damping_filter as int,
                dc == old(self).damping as int,
                self.comb_delays@.len() == 8,
                self.comb_indices@.len() == 8,
                self.comb_feedback == old(self).comb_feedback,
                self.allpass_delays == old(self).allpass_delays,
                self.allpass_indices == old(self).allpass_indices,
                self.allpass_feedback == old(self).allpass_feedback,
                self.room_size == old(self).room_size,
                self.damping == old(self).damping,
                self.mix == old(self).mix,
                forall|j: int|
                    0 <= j < 8 ==> (#[trigger] self.comb_delays@[j])@.len() == bufs0[j].len(),
                forall|j: int|
                    0 <= j < 8 ==> (#[trigger] self.comb_indices@[j]) < self.comb_delays@[j]@.len(),
                forall|j: int|
                    0 <= j < 8 ==> spec_buffer_bounded((#[trigger] self.comb_delays@[j])@),
                -SAMPLE_LIMIT <= self.damping_filter <= SAMPLE_LIMIT,
                -(k as int) * SAMPLE_LIMIT <= output as int <= (k as int) * SAMPLE_LIMIT,
                ({
                    let f = spec_comb_pass(bufs0, idxs0, fbs, damp0, dc, input as int, k as int);
                    &&& spec_deep(self.comb_delays@) == f.0
                    &&& self.comb_indices@ == f.1
                    &&& self.damping_filter as int == f.2
                    &&& output as int == f.3
                }),
                old(self).spec_silent() && input == 0 ==> self.damping_filter == 0 && output == 0
                    && (forall|j: int, i: int|
                    0 <= j < 8 && 0 <= i < self.comb_delays@[j]@.len()
                        ==> #[trigger] self.comb_delays@[j]@[i] == 0),
            decreases 8 - k,
        {
            let ghost pre_deep = spec_deep(self.comb_delays@);
            let ghost pre_idxs = self.comb_indices@;
            let idx = self.comb_indices[k];
            let line_len = self.comb_delays[k].len();
            let delayed = self.comb_delays[k][idx];
            let fbk = self.comb_feedback[k];
            let dampc = self.damping;
            proof {
                assert(-(SAMPLE_LIMIT * 1000) <= delayed * (1000 - dampc) <= SAMPLE_LIMIT * 1000)
                    by (nonlinear_arith)
                    requires
                        -SAMPLE_LIMIT <= delayed <= SAMPLE_LIMIT,
                        0 <= dampc <= 1000,
                ;
                assert(-(SAMPLE_LIMIT * 1000) <= self.damping_filter * dampc <= SAMPLE_LIMIT * 1000)
                    by (nonlinear_arith)
                    requires
                        -SAMPLE_LIMIT <= self.damping_filter <= SAMPLE_LIMIT,
                        0 <= dampc <= 1000,
                ;
                assert(-(SAMPLE_LIMIT * 1000) <= delayed * (1000 - dampc) + self.damping_filter
                    * dampc <= SAMPLE_LIMIT * 1000) by (nonlinear_arith)
                    requires
                        -SAMPLE_LIMIT <= delayed <= SAMPLE_LIMIT,
                        -SAMPLE_LIMIT <= self.damping_filter <= SAMPLE_LIMIT,
                        0 <= dampc <= 1000,
                ;
                lemma_tdiv_in_range(
                    delayed as int * (1000 - dampc as int) + self.damping_filter as int
                        * dampc as int,
                    1000,
                    SAMPLE_LIMIT as int,
                );
            }
            let ghost pre_damp = self.damping_filter;
            let damp2 = div_milli(delayed * (1000 - dampc) + self.damping_filter * dampc, 1000);
            self.damping_filter = damp2;
            proof {
                assert(-(2 * SAMPLE_LIMIT * 1000) <= damp2 * fbk <= 2 * SAMPLE_LIMIT * 1000)
                    by (nonlinear_arith)
                    requires
                        -SAMPLE_LIMIT <= damp2 <= SAMPLE_LIMIT,
                        0 <= fbk <= 1100,
                ;
                lemma_tdiv_in_range(damp2 * fbk as int, 1000, (2 * SAMPLE_LIMIT) as int);
            }
            let stored = clamp_sample(input + div_milli(damp2 * fbk, 1000));
            self.comb_delays[k][idx] = stored;
            self.comb_indices[k] = (idx + 1) % line_len;
            output = output + delayed;
            proof {
                assert(spec_deep(self.comb_delays@) =~= pre_deep.update(
                    k as int,
                    pre_deep[k as int].update(idx as int, stored),
                ));
                assert(self.comb_indices@ =~= pre_idxs.update(
                    k as int,
                    ((idx + 1) as int % pre_deep[k as int].len() as int) as usize,
                ));
                if old(self).spec_silent() && input == 0 {
                    assert(delayed == 0);
                    assert(pre_damp == 0);
                    assert(delayed * (1000 - dampc) + pre_damp * dampc == 0) by (nonlinear_arith)
                        requires
                            delayed == 0,
                            pre_damp == 0,
                    ;
                    assert(tdiv(0, 1000) == 0);
                    assert(damp2 == 0);
                    assert(damp2 * fbk == 0) by (nonlinear_arith)
                        requires
                            damp2 == 0,
                    ;
                    assert(tdiv(0, 1000) == 0);
                    assert(stored == 0);
                    assert forall|j: int, i: int|
                        0 <= j < 8 && 0 <= i < self.comb_delays@[j]@.len()
                            implies #[trigger] self.comb_delays@[j]@[i] == 0 by {
                        if j != k as int {
                        } else if i != idx as int {
                        }
                    }
                }
            }
            k = k + 1;
        }
        proof {
            lemma_tdiv_in_range(output as int, 8, SAMPLE_LIMIT as int);
        }
        div_milli(output, 8)
    }

    /// Runs one signal through the all-pass chain: each filter emits the
    /// delayed sample minus the signal, stores the signal plus the
    /// delayed sample scaled by the shared feedback, and steps its
    /// cursor.  The output magnitude can exceed the input's by at most
    /// one stored amplitude per stage.  A silent chain fed silence stays
    /// silent.
    pub fn process_allpass_filters(&mut self, input: i64) -> (r: i64)
        requires
            old(self).wf(),
            -SAMPLE_LIMIT <= input <= SAMPLE_LIMIT,
        ensures
            final(self).wf(),
            ({
                let f = spec_allpass_pass(
                    spec_deep(old(self).allpass_delays@),
                    old(self).allpass_indices@,
                    618,
                    input as int,
                    6,
                );
                &&& spec_deep(final(self).allpass_delays@) == f.0
                &&& final(self).allpass_indices@ == f.1
                &&& r as int == f.2
            }),
            -(7 * SAMPLE_LIMIT) <= r <= 7 * SAMPLE_LIMIT,
            final(self).comb_delays == old(self).comb_delays,
            final(self).comb_indices == old(self).comb_indices,
            final(self).comb_feedback == old(self).comb_feedback,
            final(self).allpass_feedback == old(self).allpass_feedback,
            final(self).room_size == old(self).room_size,
            final(self).damping == old(self).damping,
            final(self).mix == old(self).mix,
            final(self).damping_filter == old(self).damping_filter,
            old(self).spec_silent() && input == 0 ==> r == 0 && final(self).spec_silent(),
    {
        let ghost bufs0 = spec_deep(old(self).allpass_delays@);
        let ghost idxs0 = old(self).allpass_indices@;
        let mut signal: i64 = input;
        let mut k: usize = 0;
        while k < 6
            invariant
                k <= 6,
                old(self).wf(),
                -SAMPLE_LIMIT <= input <= SAMPLE_LIMIT,
                bufs0 == spec_deep(old(self).allpass_delays@),
                idxs0 == old(self).allpass_indices@,
                self.allpass_delays@.len() == 6,
                self.allpass_indices@.len() == 6,
                self.comb_delays == old(self).comb_delays,
                self.comb_indices == old(self).comb_indices,
                self.comb_feedback == old(self).comb_feedback,
                self.allpass_feedback == old(self).allpass_feedback,
                self.room_size == old(self).room_size,
                self.damping == old(self).damping,
                self.mix == old(self).mix,
                self.damping_filter == old(self).damping_filter,
                forall|j: int|
                    0 <= j < 6 ==> (#[trigger] self.allpass_delays@[j])@.len() == bufs0[j].len(),
                forall|j: int|
                    0 <= j < 6 ==> (#[trigger] self.allpass_indices@[j])
                        < self.allpass_delays@[j]@.len(),
                forall|j: int|
                    0 <= j < 6 ==> spec_buffer_bounded((#[trigger] self.allpass_delays@[j])@),
                -(k as int + 1) * SAMPLE_LIMIT <= signal as int <= (k as int + 1) * SAMPLE_LIMIT,
                ({
                    let f = spec_allpass_pass(bufs0, idxs0, 618, input as int, k as int);
                    &&& spec_deep(self.allpass_delays@) == f.0
                    &&& self.allpass_indices@ == f.1
                    &&& signal as int == f.2
                }),
                old(self).spec_silent() && input == 0 ==> signal == 0 && (forall|j: int, i: int|
                    0 <= j < 6 && 0 <= i < self.allpass_delays@[j]@.len()
                        ==> #[trigger] self.allpass_delays@[j]@[i] == 0),
            decreases 6 - k,
        {
            let ghost pre_deep = spec_deep(self.allpass_delays@);
            let ghost pre_idxs = self.allpass_indices@;
            let idx = self.allpass_indices[k];
            let line_len = self.allpass_delays[k].len();
            let delayed = self.allpass_delays[k][idx];
            let out = -signal + delayed;
            proof {
                assert(-(2 * SAMPLE_LIMIT * 1000) <= delayed * 618 <= 2 * SAMPLE_LIMIT * 1000)
                    by (nonlinear_arith)
                    requires
                        -SAMPLE_LIMIT <= delayed <= SAMPLE_LIMIT,
                ;
                lemma_tdiv_in_range(delayed as int * 618, 1000, (2 * SAMPLE_LIMIT) as int);
            }
            let stored = clamp_sample(signal + div_milli(delayed * 618, 1000));
            self.allpass_delays[k][idx] = stored;
            self.allpass_indices[k] = (idx + 1) % line_len;
            signal = out;
            proof {
                assert(spec_deep(self.allpass_delays@) =~= pre_deep.update(
                    k as int,
                    pre_deep[k as int].update(idx as int, stored),
                ));
                assert(self.allpass_indices@ =~= pre_idxs.update(
                    k as int,
                    ((idx + 1) as int % pre_deep[k as int].len() as int) as usize,
                ));
                if old(self).spec_silent() && input == 0 {
                    assert(delayed == 0);
                    assert(tdiv(0, 1000) == 0);
                    assert(stored == 0);
                    assert forall|j: int, i: int|
                        0 <= j < 6 && 0 <= i < self.allpass_delays@[j]@.len()
                            implies #[trigger] self.allpass_delays@[j]@[i] == 0 by {
                        if j != k as int {
                        } else if i != idx as int {
                        }
                    }
                }
            }
            k = k + 1;
        }
        signal
    }

    /// Runs one sample through the reverb: the comb bank, then the
    /// all-pass chain, then the dry/wet blend, clamped into the stored
    /// range.  A silent reverb fed silence stays silent.
    pub fn process_sample(&mut self, input: i64) -> (r: i64)
        requires
            old(self).wf(),
            -SAMPLE_LIMIT <= input <= SAMPLE_LIMIT,
        ensures
            final(self).wf(),
            spec_reverb_step(*old(self), *final(self), input as int),
            r as int == spec_reverb_out(*old(self), input as int),
            -SAMPLE_LIMIT <= r <= SAMPLE_LIMIT,
            old(self).spec_silent() && input == 0 ==> r == 0 && final(self).spec_silent(),
    {
        let comb_output = self.process_comb_filters(input);
        let reverb_output = self.process_allpass_filters(comb_output);
        let mx = self.mix;
        proof {
            assert(-(SAMPLE_LIMIT * 1000) <= input * (1000 - mx) <= SAMPLE_LIMIT * 1000)
                by (nonlinear_arith)
                requires
                    -SAMPLE_LIMIT <= input <= SAMPLE_LIMIT,
                    0 <= mx <= 1000,
            ;
            assert(-(7 * SAMPLE_LIMIT * 1000) <= reverb_output * mx <= 7 * SAMPLE_LIMIT * 1000)
                by (nonlinear_arith)
                requires
                    -(7 * SAMPLE_LIMIT) <= reverb_output <= 7 * SAMPLE_LIMIT,
                    0 <= mx <= 1000,
            ;
            assert(-(8 * SAMPLE_LIMIT * 1000) <= input * (1000 - mx) + reverb_output * mx <= 8
                * SAMPLE_LIMIT * 1000) by (nonlinear_arith)
                requires
                    -SAMPLE_LIMIT <= input <= SAMPLE_LIMIT,
                    -(7 * SAMPLE_LIMIT) <= reverb_output <= 7 * SAMPLE_LIMIT,
                    0 <= mx <= 1000,
            ;
            lemma_tdiv_in_range(
                input as int * (1000 - mx as int) + reverb_output as int * mx as int,
                1000,
                (8 * SAMPLE_LIMIT) as int,
            );
        }
        let out = clamp_sample(div_milli(input * (1000 - mx) + reverb_output * mx, 1000));
        proof {
            if old(self).spec_silent() && input == 0 {
                assert(input * (1000 - mx) + reverb_output * mx == 0) by (nonlinear_arith)
                    requires
                        input == 0,
                        reverb_output == 0,
                ;
                assert(tdiv(0, 1000) == 0);
            }
        }
        out
    }

    /// Sets the room size, clamping it to the unit range; every comb
    /// filter's feedback returns to the construction law — 0.6 plus 0.35
    /// of the room size, scaled by the filter's own variation factor.
    pub fn set_room_size(&mut self, room_size: i64)
        requires
            old(self).wf(),
        ensures
            final(self).wf(),
            final(self).room_size == spec_clamp_to(room_size as int, 0, 1000),
            forall|k: int|
                0 <= k < 8 ==> #[trigger] final(self).comb_feedback@[k] as int == tdiv(
                    (600 + tdiv(spec_clamp_to(room_size as int, 0, 1000) * 350, 1000)) * (1000 + k
                        * 20 - 70),
                    1000,
                ),
            final(self).comb_delays == old(self).comb_delays,
            final(self).comb_indices == old(self).comb_indices,
            final(self).allpass_delays == old(self).allpass_delays,
            final(self).allpass_indices == old(self).allpass_indices,
            final(self).damping == old(self).damping,
            final(self).mix == old(self).mix,
            final(self).damping_filter == old(self).damping_filter,
    {
        let room = clamp_to(room_size, 0, 1000);
        self.room_size = room;
        proof {
            assert(0 <= room * 350 <= 350_000) by (nonlinear_arith)
                requires
                    0 <= room <= 1000,
            ;
            lemma_tdiv_in_range(room * 350, 1000, 350);
        }
        let base_feedback: i64 = 600 + div_milli(room * 350, 1000);
        let mut k: usize = 0;
        while k < 8
            invariant
                k <= 8,
                self.comb_feedback@.len() == 8,
                600 <= base_feedback <= 950,
                base_feedback == 600 + tdiv(spec_clamp_to(room_size as int, 0, 1000) * 350, 1000),
                forall|j: int|
                    0 <= j < k ==> #[trigger] self.comb_feedback@[j] as int == tdiv(
                        base_feedback * (1000 + j * 20 - 70),
                        1000,
                    ),
                forall|j: int| 0 <= j < k ==> 0 <= #[trigger] self.comb_feedback@[j] <= 1100,
                forall|j: int|
                    k <= j < 8 ==> #[trigger] self.comb_feedback@[j] == old(self).comb_feedback@[j],
                self.room_size == spec_clamp_to(room_size as int, 0, 1000),
                self.comb_delays == old(self).comb_delays,
                self.comb_indices == old(self).comb_indices,
                self.allpass_delays == old(self).allpass_delays,
                self.allpass_indices == old(self).allpass_indices,
                self.allpass_feedback == old(self).allpass_feedback,
                self.damping == old(self).damping,
                self.mix == old(self).mix,
                self.damping_filter == old(self).damping_filter,
                old(self).wf(),
            decreases 8 - k,
        {
            let variation: i64 = 1000 + (k as i64) * 20 - 70;
            proof {
                assert(930 <= variation <= 1090);
                assert(0 <= base_feedback * variation <= 1_100_000) by (nonlinear_arith)
                    requires
                        600 <= base_feedback <= 950,
                        930 <= variation <= 1090,
                ;
                lemma_tdiv_in_range(base_feedback * variation, 1000, 1100);
                assert(tdiv(base_feedback * variation, 1000) >= 0) by {
                    assert(base_feedback * variation >= 0);
                }
            }
            self.comb_feedback[k] = div_milli(base_feedback * variation, 1000);
            k = k + 1;
        }
    }

    /// Sets the damping, clamped to the unit range.
    pub fn set_damping(&mut self, damping: i64)
        requires
            old(self).wf(),
        ensures
            final(self).wf(),
            *final(self) == (ReverbEffect {
                damping: spec_clamp_to(damping as int, 0, 1000) as i64,
                ..*old(self)
            }),
    {
        self.damping = clamp_to(damping, 0, 1000);
    }

    /// Sets the dry/wet mix, clamped to the unit range.
    pub fn set_mix(&mut self, mix: i64)
        requires
            old(self).wf(),
        ensures
            final(self).wf(),
            *final(self) == (ReverbEffect {
                mix: spec_clamp_to(mix as int, 0, 1000) as i64,
                ..*old(self)
            }),
    {
        self.mix = clamp_to(mix, 0, 1000);
    }

    /// Zeroes every delay line, every cursor and the damping state; the
    /// configured parameters stay.
    pub fn reset(&mut self)
        requires
            old(self).wf(),
        ensures
            final(self).wf(),
            final(self).spec_silent(),
            final(self).comb_feedback == old(self).comb_feedback,
            final(self).allpass_feedback == old(self).allpass_feedback,
            final(self).room_size == old(self).room_size,
            final(self).damping == old(self).damping,
            final(self).mix == old(self).mix,
            forall|k: int|
                0 <= k < 8 ==> (#[trigger] final(self).comb_delays@[k])@.len() == old(
                    self,
                ).comb_delays@[k]@.len(),
            forall|k: int|
                0 <= k < 6 ==> (#[trigger] final(self).allpass_delays@[k])@.len() == old(
                    self,
                ).allpass_delays@[k]@.len(),
            forall|k: int| 0 <= k < 8 ==> #[trigger] final(self).comb_indices@[k] == 0,
            forall|k: int| 0 <= k < 6 ==> #[trigger] final(self).allpass_indices@[k] == 0,
    {
        let mut k: usize = 0;
        while k < 8
            invariant
                k <= 8,
                old(self).wf(),
                self.comb_delays@.len() == 8,
                self.comb_indices@.len() == 8,
                forall|j: int|
                    0 <= j < 8 ==> (#[trigger] self.comb_delays@[j])@.len() == old(
                        self,
                    ).comb_delays@[j]@.len(),
                forall|j: int, i: int|
                    0 <= j < k && 0 <= i < self.comb_delays@[j]@.len()
                        ==> #[trigger] self.comb_delays@[j]@[i] == 0,
                forall|j: int|
                    k <= j < 8 ==> #[trigger] self.comb_delays@[j] == old(self).comb_delays@[j],
                forall|j: int| 0 <= j < k ==> #[trigger] self.comb_indices@[j] == 0,
                forall|j: int|
                    k <= j < 8 ==> #[trigger] self.comb_indices@[j] == old(self).comb_indices@[j],
                self.comb_feedback == old(self).comb_feedback,
                self.allpass_delays == old(self).allpass_delays,
                self.allpass_indices == old(self).allpass_indices,
                self.allpass_feedback == old(self).allpass_feedback,
                self.room_size == old(self).room_size,
                self.damping == old(self).damping,
                self.mix == old(self).mix,
                self.damping_filter == old(self).damping_filter,
            decreases 8 - k,
        {
            let n = self.comb_delays[k].len();
            let mut i: usize = 0;
            while i < n
                invariant
                    k < 8,
                    self.comb_delays@.len() == 8,
                    self.comb_indices@.len() == 8,
                    self.comb_delays@[k as int]@.len() == n,
                    i <= n,
                    forall|j: int|
                        0 <= j < 8 ==> (#[trigger] self.comb_delays@[j])@.len() == old(
                            self,
                        ).comb_delays@[j]@.len(),
                    forall|j: int, x: int|
                        0 <= j < k && 0 <= x < self.comb_delays@[j]@.len()
                            ==> #[trigger] self.comb_delays@[j]@[x] == 0,
                    forall|x: int| 0 <= x < i ==> #[trigger] self.comb_delays@[k as int]@[x] == 0,
                    forall|j: int|
                        k < j < 8 ==> #[trigger] self.comb_delays@[j] == old(self).comb_delays@[j],
                    forall|j: int| 0 <= j < k ==> #[trigger] self.comb_indices@[j] == 0,
                    forall|j: int|
                        k <= j < 8 ==> #[trigger] self.comb_indices@[j] == old(
                            self,
                        ).comb_indices@[j],
                    self.comb_feedback == old(self).comb_feedback,
                    self.allpass_delays == old(self).allpass_delays,
                    self.allpass_indices == old(self).allpass_indices,
                    self.allpass_feedback == old(self).allpass_feedback,
                    self.room_size == old(self).room_size,
                    self.damping == old(self).damping,
                    self.mix == old(self).mix,
                    self.damping_filter == old(self).damping_filter,
                    old(self).wf(),
                decreases n - i,
            {
                self.comb_delays[k][i] = 0;
                i = i + 1;
            }
            self.comb_indices[k] = 0;
            k = k + 1;
        }
        let mut a: usize = 0;
        while a < 6
            invariant
                a <= 6,
                old(self).wf(),
                self.allpass_delays@.len() == 6,
                self.allpass_indices@.len() == 6,
                self.comb_delays@.len() == 8,
                self.comb_indices@.len() == 8,
                forall|j: int|
                    0 <= j < 8 ==> (#[trigger] self.comb_delays@[j])@.len() == old(
                        self,
                    ).comb_delays@[j]@.len(),
                forall|j: int, i: int|
                    0 <= j < 8 && 0 <= i < self.comb_delays@[j]@.len()
                        ==> #[trigger] self.comb_delays@[j]@[i] == 0,
                forall|j: int| 0 <= j < 8 ==> #[trigger] self.comb_indices@[j] == 0,
                forall|j: int|
                    0 <= j < 6 ==> (#[trigger] self.allpass_delays@[j])@.len() == old(
                        self,
                    ).allpass_delays@[j]@.len(),
                forall|j: int, i: int|
                    0 <= j < a && 0 <= i < self.allpass_delays@[j]@.len()
                        ==> #[trigger] self.allpass_delays@[j]@[i] == 0,
                forall|j: int|
                    a < j < 6 || a == j && a < 6 ==> #[trigger] self.allpass_delays@[j] == old(
                        self,
                    ).allpass_delays@[j],
                forall|j: int| 0 <= j < a ==> #[trigger] self.allpass_indices@[j] == 0,
                forall|j: int|
                    a <= j < 6 ==> #[trigger] self.allpass_indices@[j] == old(
                        self,
                    ).allpass_indices@[j],
                self.comb_feedback == old(self).comb_feedback,
                self.allpass_feedback == old(self).allpass_feedback,
                self.room_size == old(self).room_size,
                self.damping == old(self).damping,
                self.mix == old(self).mix,
                self.damping_filter == old(self).damping_filter,
            decreases 6 - a,
        {
            let n = self.allpass_delays[a].len();
            let mut i: usize = 0;
            while i < n
                invariant
                    a < 6,
                    self.allpass_delays@.len() == 6,
                    self.allpass_indices@.len() == 6,
                    self.allpass_delays@[a as int]@.len() == n,
                    i <= n,
                    self.comb_delays@.len() == 8,
                    self.comb_indices@.len() == 8,
                    forall|j: int|
                        0 <= j < 8 ==> (#[trigger] self.comb_delays@[j])@.len() == old(
                            self,
                        ).comb_delays@[j]@.len(),
                    forall|j: int, x: int|
                        0 <= j < 8 && 0 <= x < self.comb_delays@[j]@.len()
                            ==> #[trigger] self.comb_delays@[j]@[x] == 0,
                    forall|j: int| 0 <= j < 8 ==> #[trigger] self.comb_indices@[j] == 0,
                    forall|j: int|
                        0 <= j < 6 ==> (#[trigger] self.allpass_delays@[j])@.len() == old(
                            self,
                        ).allpass_delays@[j]@.len(),
                    forall|j: int, x: int|
                        0 <= j < a && 0 <= x < self.allpass_delays@[j]@.len()
                            ==> #[trigger] self.allpass_delays@[j]@[x] == 0,
                    forall|x: int|
                        0 <= x < i ==> #[trigger] self.allpass_delays@[a as int]@[x] == 0,
                    forall|j: int|
                        a < j < 6 ==> #[trigger] self.allpass_delays@[j] == old(
                            self,
                        ).allpass_delays@[j],
                    forall|j: int| 0 <= j < a ==> #[trigger] self.allpass_indices@[j] == 0,
                    forall|j: int|
                        a <= j < 6 ==> #[trigger] self.allpass_indices@[j] == old(
                            self,
                        ).allpass_indices@[j],
                    self.comb_feedback == old(self).comb_feedback,
                    self.allpass_feedback == old(self).allpass_feedback,
                    self.room_size == old(self).room_size,
                    self.damping == old(self).damping,
                    self.mix == old(self).mix,
                    self.damping_filter == old(self).damping_filter,
                    old(self).wf(),
                decreases n - i,
            {
                self.allpass_delays[a][i] = 0;
                i = i + 1;
            }
            self.allpass_indices[a] = 0;
            a = a + 1;
        }
        self.damping_filter = 0;
    }

    /// The effect's name.
    pub fn name(&self) -> (r: &'static str)
        ensures
            r@ =~= seq!['R', 'e', 'v', 'e', 'r', 'b'],
    {
        proof {
            reveal_strlit("Reverb");
        }
        "Reverb"
    }
}

/// Samples of a delay line for a time in tenths of a millisecond, at
/// least one.
pub open spec fn spec_line_samples(ms_tenths: int, sample_rate: int) -> int {
    let s = ms_tenths * sample_rate / 10_000;
    if s >= 1 {
        s
    } else {
        1
    }
}

fn line_samples(ms_tenths: u32, sample_rate: u32) -> (r: usize)
    requires
        17 <= ms_tenths <= 563,
        8000 <= sample_rate <= 192_000,
    ensures
        r as int == spec_line_samples(ms_tenths as int, sample_rate as int),
        1 <= r <= 0x100000,
{
    proof {
        assert(ms_tenths * sample_rate <= 563 * 192_000) by (nonlinear_arith)
            requires
                ms_tenths <= 563,
                sample_rate <= 192_000,
        ;
        assert(ms_tenths * sample_rate >= 0) by (nonlinear_arith)
            requires
                ms_tenths >= 0,
                sample_rate >= 0,
        ;
    }
    let s: u64 = ms_tenths as u64 * sample_rate as u64 / 10_000;
    if s >= 1 {
        s as usize
    } else {
        1
    }
}

/// The sample an effect unit emits for `input` in state `pre`,
/// dispatched by variant.
pub open spec fn spec_unit_out(pre: EffectUnit, input: int) -> int {
    match pre {
        EffectUnit::Delay(e) => spec_delay_out(e, input),
        EffectUnit::Reverb(e) => spec_reverb_out(e, input),
        EffectUnit::Flanger(e) => spec_flanger_out(e, input),
    }
}

/// One step of an effect unit on `input`: the variant is kept and the
/// held filter takes its own exact step.
pub open spec fn spec_unit_step(pre: EffectUnit, post: EffectUnit, input: int) -> bool {
    match (pre, post) {
        (EffectUnit::Delay(a), EffectUnit::Delay(b)) => spec_delay_step(a, b, input),
        (EffectUnit::Reverb(a), EffectUnit::Reverb(b)) => spec_reverb_step(a, b, input),
        (EffectUnit::Flanger(a), EffectUnit::Flanger(b)) => spec_flanger_step(a, b, input),
        _ => false,
    }
}

/// One effect unit of a chain: the closed set of filters a chain can
/// hold, dispatched by variant.
#[derive(Debug, Clone)]
pub enum EffectUnit {
    Delay(DelayEffect),
    Reverb(ReverbEffect),
    Flanger(FlangerEffect),
}

impl EffectUnit {
    /// Structural soundness of the held filter.
    pub open spec fn wf(&self) -> bool {
        match self {
            EffectUnit::Delay(e) => e.wf(),
            EffectUnit::Reverb(e) => e.wf(),
            EffectUnit::Flanger(e) => e.wf(),
        }
    }

    /// Whether the held filter carries no signal.
    pub open spec fn spec_silent(&self) -> bool {
        match self {
            EffectUnit::Delay(e) => e.spec_silent(),
            EffectUnit::Reverb(e) => e.spec_silent(),
            EffectUnit::Flanger(e) => e.spec_silent(),
        }
    }

    /// Runs one sample through the held filter: the variant is kept, the
    /// filter takes its own exact step, and the result is the filter's
    /// output.  A silent unit fed silence stays silent.
    pub fn process_sample(&mut self, input: i64) -> (r: i64)
        requires
            old(self).wf(),
            -SAMPLE_LIMIT <= input <= SAMPLE_LIMIT,
        ensures
            final(self).wf(),
            -SAMPLE_LIMIT <= r <= SAMPLE_LIMIT,
            spec_unit_step(*old(self), *final(self), input as int),
            r as int == spec_unit_out(*old(self), input as int),
            old(self).spec_silent() && input == 0 ==> r == 0 && final(self).spec_silent(),
    {
        let ghost was_silent = old(self).spec_silent();
        match self {
            EffectUnit::Delay(e) => {
                proof {
                    if was_silent {
                        assert(e.spec_silent());
                    }
                }
                e.process_sample(input)
            },
            EffectUnit::Reverb(e) => {
                proof {
                    if was_silent {
                        assert(e.spec_silent());
                    }
                }
                e.process_sample(input)
            },
            EffectUnit::Flanger(e) => {
                proof {
                    if was_silent {
                        assert(e.spec_silent());
                    }
                }
                e.process_sample(input)
            },
        }
    }

    /// Zeroes the held filter's stored signal; its parameters stay.
    pub fn reset(&mut self)
        requires
            old(self).wf(),
        ensures
            final(self).wf(),
            final(self).spec_silent(),
            (*old(self)) is Delay <==> (*final(self)) is Delay,
            (*old(self)) is Reverb <==> (*final(self)) is Reverb,
            (*old(self)) is Flanger <==> (*final(self)) is Flanger,
    {
        match self {
            EffectUnit::Delay(e) => e.reset(),
            EffectUnit::Reverb(e) => e.reset(),
            EffectUnit::Flanger(e) => e.reset(),
        }
    }
}

/// The sample a chain of units emits for `input`: the input folded
/// left to right through every member's own output function.
pub open spec fn spec_chain_out(units: Seq<EffectUnit>, input: int) -> int
    decreases units.len(),
{
    if units.len() == 0 {
        input
    } else {
        spec_chain_out(units.drop_first(), spec_unit_out(units[0], input))
    }
}

/// One pass of a sample through a chain: the lists match in length and
/// each member takes its own exact step on the output of the members
/// before it.
pub open spec fn spec_chain_steps(pre: Seq<EffectUnit>, post: Seq<EffectUnit>, input: int) -> bool
    decreases pre.len(),
{
    &&& post.len() == pre.len()
    &&& (pre.len() > 0 ==> spec_unit_step(pre[0], post[0], input) && spec_chain_steps(
        pre.drop_first(),
        post.drop_first(),
        spec_unit_out(pre[0], input),
    ))
}

proof fn lemma_chain_out_snoc(units: Seq<EffectUnit>, x: EffectUnit, input: int)
    ensures
        spec_chain_out(units.push(x), input) == spec_unit_out(x, spec_chain_out(units, input)),
    decreases units.len(),
{
    if units.len() == 0 {
        assert(units.push(x)[0] == x);
        assert(units.push(x).drop_first() =~= Seq::<EffectUnit>::empty());
        assert(spec_chain_out(Seq::<EffectUnit>::empty(), spec_unit_out(x, input))
            == spec_unit_out(x, input));
        assert(spec_chain_out(units, input) == input);
    } else {
        assert(units.push(x)[0] == units[0]);
        assert(units.push(x).drop_first() =~= units.drop_first().push(x));
        lemma_chain_out_snoc(units.drop_first(), x, spec_unit_out(units[0], input));
        assert(spec_chain_out(units.push(x), input) == spec_chain_out(
            units.drop_first().push(x),
            spec_unit_out(units[0], input),
        ));
        assert(spec_chain_out(units, input) == spec_chain_out(
            units.drop_first(),
            spec_unit_out(units[0], input),
        ));
    }
}

proof fn lemma_chain_steps_snoc(
    pre: Seq<EffectUnit>,
    post: Seq<EffectUnit>,
    x: EffectUnit,
    y: EffectUnit,
    input: int,
)
    requires
        spec_chain_steps(pre, post, input),
        spec_unit_step(x, y, spec_chain_out(pre, input)),
    ensures
        spec_chain_steps(pre.push(x), post.push(y), input),
    decreases pre.len(),
{
    if pre.len() == 0 {
        assert(pre.push(x)[0] == x && post.push(y)[0] == y);
        assert(pre.push(x).drop_first() =~= Seq::<EffectUnit>::empty());
        assert(post.push(y).drop_first() =~= Seq::<EffectUnit>::empty());
        assert(spec_chain_out(pre, input) == input);
        assert(spec_chain_steps(
            Seq::<EffectUnit>::empty(),
            Seq::<EffectUnit>::empty(),
            spec_unit_out(x, input),
        ));
    } else {
        assert(pre.push(x)[0] == pre[0] && post.push(y)[0] == post[0]);
        assert(pre.push(x).drop_first() =~= pre.drop_first().push(x));
        assert(post.push(y).drop_first() =~= post.drop_first().push(y));
        assert(spec_chain_out(pre, input) == spec_chain_out(
            pre.drop_first(),
            spec_unit_out(pre[0], input),
        ));
        lemma_chain_steps_snoc(
            pre.drop_first(),
            post.drop_first(),
            x,
            y,
            spec_unit_out(pre[0], input),
        );
    }
}

/// An ordered, runtime-configurable chain of effect units; a sample runs
/// through every member in order.
#[derive(Debug, Clone)]
pub struct EffectChain {
    pub effects: Vec<EffectUnit>,
}

impl EffectChain {
    /// Every member is structurally sound.
    pub open spec fn wf(&self) -> bool {
        forall|i: int| 0 <= i < self.effects@.len() ==> (#[trigger] self.effects@[i]).wf()
    }

    /// Every member carries no signal.
    pub open spec fn spec_silent(&self) -> bool {
        forall|i: int| 0 <= i < self.effects@.len() ==> (#[trigger] self.effects@[i]).spec_silent()
    }

    /// An empty chain.
    pub fn new() -> (r: EffectChain)
        ensures
            r.wf(),
            r.spec_silent(),
            r.effects@.len() == 0,
    {
        EffectChain { effects: Vec::new() }
    }

    /// Appends an effect to the end of the chain.
    pub fn add_effect(&mut self, effect: EffectUnit)
        requires
            old(self).wf(),
            effect.wf(),
        ensures
            final(self).wf(),
            final(self).effects@ == old(self).effects@.push(effect),
    {
        self.effects.push(effect);
    }

    /// Folds one sample through every member in chain order: each member
    /// takes its own exact step on the output of the members before it,
    /// and the result is the last member's output.  An empty chain passes
    /// the sample through, and a silent chain fed silence yields silence.
    pub fn process_sample(&mut self, input: i64) -> (r: i64)
        requires
            old(self).wf(),
            -SAMPLE_LIMIT <= input <= SAMPLE_LIMIT,
        ensures
            final(self).wf(),
            -SAMPLE_LIMIT <= r <= SAMPLE_LIMIT,
            spec_chain_steps(old(self).effects@, final(self).effects@, input as int),
            r as int == spec_chain_out(old(self).effects@, input as int),
            old(self).effects@.len() == 0 ==> r == input && *final(self) == *old(self),
            old(self).spec_silent() && input == 0 ==> r == 0 && final(self).spec_silent(),
    {
        let ghost orig = old(self).effects@;
        let mut sample = input;
        let n = self.effects.len();
        let mut i: usize = 0;
        proof {
            assert(orig.subrange(0, 0) =~= Seq::<EffectUnit>::empty());
            assert(self.effects@.subrange(0, 0) =~= Seq::<EffectUnit>::empty());
        }
        while i < n
            invariant
                i <= n,
                self.effects@.len() == n,
                orig.len() == n,
                self.wf(),
                -SAMPLE_LIMIT <= sample <= SAMPLE_LIMIT,
                self.effects@.subrange(i as int, n as int) == orig.subrange(i as int, n as int),
                spec_chain_steps(
                    orig.subrange(0, i as int),
                    self.effects@.subrange(0, i as int),
                    input as int,
                ),
                sample as int == spec_chain_out(orig.subrange(0, i as int), input as int),
                n == 0 ==> sample == input && *self == *old(self),
                old(self).spec_silent() && input == 0 ==> sample == 0 && self.spec_silent(),
            decreases n - i,
        {
            let ghost pre = self.effects@;
            let ghost sample0 = sample as int;
            let unit = &mut self.effects[i];
            proof {
                assert(pre[i as int].wf());
                assert(pre[i as int] == orig[i as int]) by {
                    assert(pre.subrange(i as int, n as int)[0] == pre[i as int]);
                    assert(orig.subrange(i as int, n as int)[0] == orig[i as int]);
                }
            }
            sample = unit.process_sample(sample);
            proof {
                assert forall|j: int| 0 <= j < n implies (#[trigger] self.effects@[j]).wf() by {
                    if j != i as int {
                        assert(self.effects@[j] == pre[j]);
                    }
                }
                assert(self.effects@.subrange(i + 1, n as int) =~= orig.subrange(i + 1, n as int))
                    by {
                    assert forall|j: int|
                        0 <= j < n - i - 1 implies #[trigger] self.effects@.subrange(
                        i + 1,
                        n as int,
                    )[j] == orig.subrange(i + 1, n as int)[j] by {
                        assert(self.effects@[i + 1 + j] == pre[i + 1 + j]);
                        assert(pre.subrange(i as int, n as int)[1 + j] == pre[i + 1 + j]);
                        assert(orig.subrange(i as int, n as int)[1 + j] == orig[i + 1 + j]);
                    }
                }
                lemma_chain_out_snoc(orig.subrange(0, i as int), orig[i as int], input as int);
                lemma_chain_steps_snoc(
                    orig.subrange(0, i as int),
                    pre.subrange(0, i as int),
                    orig[i as int],
                    self.effects@[i as int],
                    input as int,
                );
                assert(orig.subrange(0, i + 1) =~= orig.subrange(0, i as int).push(
                    orig[i as int],
                ));
                assert(self.effects@.subrange(0, i + 1) =~= pre.subrange(0, i as int).push(
                    self.effects@[i as int],
                )) by {
                    assert forall|j: int|
                        0 <= j < i + 1 implies self.effects@.subrange(0, i + 1)[j] == pre.subrange(
                        0,
                        i as int,
                    ).push(self.effects@[i as int])[j] by {
                        if j < i {
                            assert(self.effects@[j] == pre[j]);
                        }
                    }
                }
                if old(self).spec_silent() && input == 0 {
                    assert forall|j: int|
                        0 <= j < n implies (#[trigger] self.effects@[j]).spec_silent() by {
                        if j != i as int {
                            assert(self.effects@[j] == pre[j]);
                        }
                    }
                }
            }
            i = i + 1;
        }
        proof {
            assert(orig.subrange(0, n as int) =~= orig);
            assert(self.effects@.subrange(0, n as int) =~= self.effects@);
        }
        sample
    }

    /// Resets every member of the chain.
    pub fn reset(&mut self)
        requires
            old(self).wf(),
        ensures
            final(self).wf(),
            final(self).spec_silent(),
            final(self).effects@.len() == old(self).effects@.len(),
    {
        let n = self.effects.len();
        let mut i: usize = 0;
        while i < n
            invariant
                i <= n,
                self.effects@.len() == n,
                self.wf(),
                forall|j: int| 0 <= j < i ==> (#[trigger] self.effects@[j]).spec_silent(),
            decreases n - i,
        {
            let ghost pre = self.effects@;
            let unit = &mut self.effects[i];
            proof {
                assert(pre[i as int].wf());
            }
            unit.reset();
            proof {
                assert forall|j: int| 0 <= j < n implies (#[trigger] self.effects@[j]).wf() by {
                    if j != i as int {
                        assert(self.effects@[j] == pre[j]);
                    }
                }
                assert forall|j: int|
                    0 <= j <= i implies (#[trigger] self.effects@[j]).spec_silent() by {
                    if j != i as int {
                        assert(self.effects@[j] == pre[j]);
                    }
                }
            }
            i = i + 1;
        }
    }
}

proof fn lemma_tdiv_le(a: int, b: int, d: int)
    requires
        0 <= a <= b,
        d >= 1,
    ensures
        tdiv(a, d) <= b / d,
{
    assert(a / d <= b / d) by (nonlinear_arith)
        requires
            0 <= a <= b,
            d >= 1,
    ;
}

proof fn lemma_lerp_bounded(s1: int, s2: int, frac: int)
    requires
        -SAMPLE_LIMIT <= s1 <= SAMPLE_LIMIT,
        -SAMPLE_LIMIT <= s2 <= SAMPLE_LIMIT,
        0 <= frac < 1000,
    ensures
        -SAMPLE_LIMIT <= s1 + tdiv((s2 - s1) * frac, 1000) <= SAMPLE_LIMIT,
        -(2 * SAMPLE_LIMIT * 1000) <= (s2 - s1) * frac <= 2 * SAMPLE_LIMIT * 1000,
{
    let d = s2 - s1;
    assert(-(2 * SAMPLE_LIMIT * 1000) <= d * frac <= 2 * SAMPLE_LIMIT * 1000) by (nonlinear_arith)
        requires
            -(2 * SAMPLE_LIMIT) <= d <= 2 * SAMPLE_LIMIT,
            0 <= frac < 1000,
    ;
    if d >= 0 {
        assert(0 <= d * frac <= d * 1000) by (nonlinear_arith)
            requires
                d >= 0,
                0 <= frac < 1000,
        ;
        assert(0 <= d * frac / 1000 <= d) by (nonlinear_arith)
            requires
                0 <= d * frac <= d * 1000,
        ;
        assert(tdiv(d * frac, 1000) <= d);
        assert(s1 <= s1 + tdiv(d * frac, 1000) <= s2);
    } else {
        assert(d * 1000 <= d * frac <= 0) by (nonlinear_arith)
            requires
                d < 0,
                0 <= frac < 1000,
        ;
        assert(0 <= (-d) * frac <= (-d) * 1000) by (nonlinear_arith)
            requires
                d < 0,
                0 <= frac < 1000,
        ;
        assert(0 <= (-(d * frac)) / 1000 <= -d) by (nonlinear_arith)
            requires
                0 <= -(d * frac) <= (-d) * 1000,
        ;
        assert(tdiv(d * frac, 1000) >= d);
        assert(s2 <= s1 + tdiv(d * frac, 1000) <= s1);
    }
}

} // verus!
