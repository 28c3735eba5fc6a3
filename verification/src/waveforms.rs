//! Waveform generators.
//!
//! A sample is a fixed-point amplitude: `SAMPLE_ONE` stands for full scale,
//! and every generator output lies in `[-SAMPLE_ONE, SAMPLE_ONE]`.
//! Frequencies are integer centihertz, so the phase of sample `n` is exact
//! integer arithmetic: `(n * frequency) mod (100 * SAMPLE_RATE)`.  A zero
//! frequency has no period and yields the zero sample instead.

use vstd::prelude::*;

verus! {

/// Samples per second.
pub const SAMPLE_RATE: u32 = 48000;

/// Channel count of every generated stream.
pub const MONO: u16 = 1;

/// Fixed-point value that stands for an amplitude of one.
pub const SAMPLE_ONE: i64 = 0x100000;

/// Phase denominator: sample rate in centihertz-samples.
pub const PHASE_DENOM: u32 = 4_800_000;

/// The shapes a track's oscillator can take.
#[derive(Debug, PartialEq, Eq, Structural, Clone, Copy)]
pub enum Waveform {
    SINE,
    SQUARE,
    TRIANGLE,
    SAWTOOTH,
}

impl Waveform {
    /// The printable name of the waveform.
    pub fn name(&self) -> (r: &'static str)
        ensures
            r@ =~= self.spec_name_chars(),
    {
        proof {
            reveal_strlit("Sine");
            reveal_strlit("Square");
            reveal_strlit("Triangle");
            reveal_strlit("Sawtooth");
        }
        match self {
            Waveform::SINE => "Sine",
            Waveform::SQUARE => "Square",
            Waveform::TRIANGLE => "Triangle",
            Waveform::SAWTOOTH => "Sawtooth",
        }
    }

    /// The printable name, as characters.
    pub open spec fn spec_name_chars(self) -> Seq<char> {
        match self {
            Waveform::SINE => seq!['S', 'i', 'n', 'e'],
            Waveform::SQUARE => seq!['S', 'q', 'u', 'a', 'r', 'e'],
            Waveform::TRIANGLE => seq!['T', 'r', 'i', 'a', 'n', 'g', 'l', 'e'],
            Waveform::SAWTOOTH => seq!['S', 'a', 'w', 't', 'o', 'o', 't', 'h'],
        }
    }

    /// The waveform after this one in the cycling order.
    pub open spec fn spec_next(self) -> Waveform {
        match self {
            Waveform::SINE => Waveform::SQUARE,
            Waveform::SQUARE => Waveform::TRIANGLE,
            Waveform::TRIANGLE => Waveform::SAWTOOTH,
            Waveform::SAWTOOTH => Waveform::SINE,
        }
    }
}

/// Position of sample `n` within the waveform period, as a fraction with
/// denominator `PHASE_DENOM`.
pub open spec fn spec_phase_num(frequency: u32, n: nat) -> int {
    (n * frequency) % (PHASE_DENOM as int)
}

/// Sawtooth sample: a linear rise from minus one to one over each period;
/// zero when the frequency is zero.
pub open spec fn spec_sawtooth(frequency: u32, n: nat) -> int {
    if frequency == 0 {
        0
    } else {
        2 * SAMPLE_ONE * spec_phase_num(frequency, n) / (PHASE_DENOM as int) - SAMPLE_ONE
    }
}

/// Triangle sample: rising through the first half of the period, falling
/// through the second; zero when the frequency is zero.
pub open spec fn spec_triangle(frequency: u32, n: nat) -> int {
    if frequency == 0 {
        0
    } else {
        let num = spec_phase_num(frequency, n);
        if 2 * num < PHASE_DENOM {
            4 * SAMPLE_ONE * num / (PHASE_DENOM as int) - SAMPLE_ONE
        } else {
            3 * SAMPLE_ONE - 4 * SAMPLE_ONE * num / (PHASE_DENOM as int)
        }
    }
}

/// Square sample: full scale through the first half of the period, minus
/// full scale through the second; zero when the frequency is zero.
pub open spec fn spec_square(frequency: u32, n: nat) -> int {
    if frequency == 0 {
        0
    } else if 2 * spec_phase_num(frequency, n) < PHASE_DENOM {
        SAMPLE_ONE as int
    } else {
        -(SAMPLE_ONE as int)
    }
}

/// Phase numerator of sample `n`, computed exactly.
fn phase_num(frequency: u32, num_sample: usize) -> (r: u64)
    ensures
        r as int == spec_phase_num(frequency, num_sample as nat),
        r < PHASE_DENOM,
{
    proof {
        assert(num_sample * frequency < 0x1000000000000000000000000) by (nonlinear_arith)
            requires
                num_sample <= 0xFFFF_FFFF_FFFF_FFFF,
                frequency <= 0xFFFF_FFFF,
        ;
    }
    let prod: u128 = num_sample as u128 * frequency as u128;
    let m: u128 = prod % 4_800_000u128;
    proof {
        assert(m < 4_800_000);
    }
    m as u64
}

/// Calculates a sawtooth sample.  The result never leaves
/// `[-SAMPLE_ONE, SAMPLE_ONE]`.
pub fn calculate_sawtooth(frequency: u32, num_sample: usize) -> (r: i64)
    ensures
        r as int == spec_sawtooth(frequency, num_sample as nat),
        -SAMPLE_ONE <= r <= SAMPLE_ONE,
{
    if frequency == 0 {
        return 0;
    }
    let num = phase_num(frequency, num_sample);
    let r = (2 * SAMPLE_ONE as i128 * num as i128 / PHASE_DENOM as i128) as i64 - SAMPLE_ONE;
    proof {
        assert(2 * SAMPLE_ONE * (num as int) / (PHASE_DENOM as int) <= 2 * SAMPLE_ONE)
            by (nonlinear_arith)
            requires
                0 <= num < PHASE_DENOM,
        ;
        assert(2 * SAMPLE_ONE * (num as int) / (PHASE_DENOM as int) >= 0) by (nonlinear_arith)
            requires
                0 <= num,
        ;
    }
    r
}

/// Calculates a triangle sample.  The result never leaves
/// `[-SAMPLE_ONE, SAMPLE_ONE]`.
pub fn calculate_triangle(frequency: u32, num_sample: usize) -> (r: i64)
    ensures
        r as int == spec_triangle(frequency, num_sample as nat),
        -SAMPLE_ONE <= r <= SAMPLE_ONE,
{
    if frequency == 0 {
        return 0;
    }
    let num = phase_num(frequency, num_sample);
    proof {
        assert(2 * num < PHASE_DENOM ==> 4 * SAMPLE_ONE * (num as int) / (PHASE_DENOM as int) <= 2
            * SAMPLE_ONE) by (nonlinear_arith)
            requires
                0 <= num,
        ;
        assert(4 * SAMPLE_ONE * (num as int) / (PHASE_DENOM as int) >= 0) by (nonlinear_arith)
            requires
                0 <= num,
        ;
        assert(2 * num >= PHASE_DENOM ==> 4 * SAMPLE_ONE * (num as int) / (PHASE_DENOM as int) >= 2
            * SAMPLE_ONE) by (nonlinear_arith)
            requires
                num < PHASE_DENOM,
        ;
        assert(4 * SAMPLE_ONE * (num as int) / (PHASE_DENOM as int) <= 4 * SAMPLE_ONE)
            by (nonlinear_arith)
            requires
                0 <= num < PHASE_DENOM,
        ;
    }
    if 2 * num < PHASE_DENOM as u64 {
        (4 * SAMPLE_ONE as i128 * num as i128 / PHASE_DENOM as i128) as i64 - SAMPLE_ONE
    } else {
        3 * SAMPLE_ONE - (4 * SAMPLE_ONE as i128 * num as i128 / PHASE_DENOM as i128) as i64
    }
}

/// Calculates a square sample by the sign of the phase: positive through
/// the first half of each period.  The result is always full scale.
pub fn calculate_square(frequency: u32, num_sample: usize) -> (r: i64)
    ensures
        r as int == spec_square(frequency, num_sample as nat),
        -SAMPLE_ONE <= r <= SAMPLE_ONE,
{
    if frequency == 0 {
        return 0;
    }
    let num = phase_num(frequency, num_sample);
    if 2 * num < PHASE_DENOM as u64 {
        SAMPLE_ONE
    } else {
        -SAMPLE_ONE
    }
}

/// Every generator stays within one of full scale at every sample index,
/// whatever the frequency.
pub proof fn lemma_generators_bounded(frequency: u32, n: nat)
    ensures
        -SAMPLE_ONE <= spec_sawtooth(frequency, n) <= SAMPLE_ONE,
        -SAMPLE_ONE <= spec_triangle(frequency, n) <= SAMPLE_ONE,
        -SAMPLE_ONE <= spec_square(frequency, n) <= SAMPLE_ONE,
{
    if frequency != 0 {
        let num = spec_phase_num(frequency, n);
        assert(0 <= num < PHASE_DENOM) by (nonlinear_arith)
            requires
                num == (n * frequency) % (PHASE_DENOM as int),
        ;
        assert(0 <= 2 * SAMPLE_ONE * num / (PHASE_DENOM as int) <= 2 * SAMPLE_ONE)
            by (nonlinear_arith)
            requires
                0 <= num < PHASE_DENOM,
        ;
        assert(0 <= 4 * SAMPLE_ONE * num / (PHASE_DENOM as int) <= 4 * SAMPLE_ONE)
            by (nonlinear_arith)
            requires
                0 <= num < PHASE_DENOM,
        ;
        assert(2 * num >= PHASE_DENOM ==> 4 * SAMPLE_ONE * num / (PHASE_DENOM as int) >= 2
            * SAMPLE_ONE) by (nonlinear_arith)
            requires
                num < PHASE_DENOM,
        ;
        assert(2 * num < PHASE_DENOM ==> 4 * SAMPLE_ONE * num / (PHASE_DENOM as int) <= 2
            * SAMPLE_ONE) by (nonlinear_arith)
            requires
                0 <= num,
        ;
    }
}

/// Sawtooth, triangle and square are periodic: when the frequency divides
/// the phase denominator, the sample `PHASE_DENOM / frequency` steps later
/// is the same.  A frequency that does not divide the denominator has no
/// whole-sample period, and equality can fail there.
pub proof fn lemma_generators_periodic(frequency: u32, n: nat)
    requires
        frequency >= 1,
        (PHASE_DENOM as int) % (frequency as int) == 0,
    ensures
        ({
            let period = (PHASE_DENOM / frequency) as nat;
            &&& spec_sawtooth(frequency, n + period) == spec_sawtooth(frequency, n)
            &&& spec_triangle(frequency, n + period) == spec_triangle(frequency, n)
            &&& spec_square(frequency, n + period) == spec_square(frequency, n)
        }),
{
    let period = (PHASE_DENOM / frequency) as nat;
    let d = PHASE_DENOM as int;
    let f = frequency as int;
    assert(period * f == d) by (nonlinear_arith)
        requires
            d % f == 0,
            f >= 1,
            period == d / f,
            d == PHASE_DENOM,
    ;
    assert(((n + period) * f) % d == (n * f) % d) by (nonlinear_arith)
        requires
            period * f == d,
            d >= 1,
            n >= 0,
            f >= 0,
    ;
    assert(spec_phase_num(frequency, n + period) == spec_phase_num(frequency, n));
}

/// A square-wave generator with its running sample counter.
#[derive(Debug, PartialEq, Eq, Structural, Clone, Copy)]
pub struct SquareWave {
    pub freq: u32,
    pub num_sample: usize,
}

impl SquareWave {
    /// A generator at the start of its stream.
    pub fn new(freq: u32) -> (r: SquareWave)
        ensures
            r.freq == freq,
            r.num_sample == 0,
    {
        SquareWave { freq, num_sample: 0 }
    }

    /// Advances the sample counter, wrapping instead of overflowing, and
    /// yields the next sample.
    pub fn next(&mut self) -> (r: Option<i64>)
        ensures
            final(self).freq == old(self).freq,
            final(self).num_sample == old(self).num_sample.wrapping_add(1),
            r matches Some(v) && v as int == spec_square(old(self).freq, final(self).num_sample as nat),
    {
        self.num_sample = self.num_sample.wrapping_add(1);
        Some(calculate_square(self.freq, self.num_sample))
    }
}

/// A triangle-wave generator with its running sample counter.
#[derive(Debug, PartialEq, Eq, Structural, Clone, Copy)]
pub struct TriangleWave {
    pub freq: u32,
    pub num_sample: usize,
}

impl TriangleWave {
    /// A generator at the start of its stream.
    pub fn new(freq: u32) -> (r: TriangleWave)
        ensures
            r.freq == freq,
            r.num_sample == 0,
    {
        TriangleWave { freq, num_sample: 0 }
    }

    /// The sample at the counter's current position.
    pub fn generate_triangle_wave(&mut self) -> (r: i64)
        ensures
            r as int == spec_triangle(old(self).freq, old(self).num_sample as nat),
            *final(self) == *old(self),
    {
        calculate_triangle(self.freq, self.num_sample)
    }

    /// Advances the sample counter, wrapping instead of overflowing, and
    /// yields the next sample.
    pub fn next(&mut self) -> (r: Option<i64>)
        ensures
            final(self).freq == old(self).freq,
            final(self).num_sample == old(self).num_sample.wrapping_add(1),
            r matches Some(v) && v as int == spec_triangle(old(self).freq, final(self).num_sample as nat),
    {
        self.num_sample = self.num_sample.wrapping_add(1);
        Some(calculate_triangle(self.freq, self.num_sample))
    }
}

/// A sawtooth-wave generator with its running sample counter.
#[derive(Debug, PartialEq, Eq, Structural, Clone, Copy)]
pub struct SawtoothWave {
    pub freq: u32,
    pub num_sample: usize,
}

impl SawtoothWave {
    /// A generator at the start of its stream.
    pub fn new(freq: u32) -> (r: SawtoothWave)
        ensures
            r.freq == freq,
            r.num_sample == 0,
    {
        SawtoothWave { freq, num_sample: 0 }
    }

    /// The sample at the counter's current position.
    pub fn generate_sawtooth_wave(&mut self) -> (r: i64)
        ensures
            r as int == spec_sawtooth(old(self).freq, old(self).num_sample as nat),
            *final(self) == *old(self),
    {
        calculate_sawtooth(self.freq, self.num_sample)
    }

    /// Advances the sample counter, wrapping instead of overflowing, and
    /// yields the next sample.
    pub fn next(&mut self) -> (r: Option<i64>)
        ensures
            final(self).freq == old(self).freq,
            final(self).num_sample == old(self).num_sample.wrapping_add(1),
            r matches Some(v) && v as int == spec_sawtooth(old(self).freq, final(self).num_sample as nat),
    {
        self.num_sample = self.num_sample.wrapping_add(1);
        Some(calculate_sawtooth(self.freq, self.num_sample))
    }
}

} // verus!
