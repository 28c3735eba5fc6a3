//! The attack-decay-sustain-release envelope: a four-phase state machine
//! over sample counts whose amplitude, in thousandths, shapes every
//! sample of a note.
//!
//! The four 0..=99 parameters scale to at most two seconds of attack,
//! decay and release; sustain is a fraction of full amplitude.  A note
//! left sounding releases itself once the sustain has been held for the
//! auto-release ceiling derived from the release parameter.

use vstd::prelude::*;
use crate::effects::tdiv;

verus! {

/// Envelope state: the running sample count, the phase lengths in
/// samples, the sustain level in thousandths, and the sample at which
/// release began, once it has.
#[derive(Debug, PartialEq, Eq, Structural, Clone, Copy)]
pub struct ADSREnvelope {
    pub sample_count: u64,
    pub attack_samples: u64,
    pub decay_samples: u64,
    /// Sustain level in thousandths.
    pub sustain_level: i64,
    pub release_samples: u64,
    pub release_start_sample: Option<u64>,
    pub is_released: bool,
    /// Amplitude held when release began, in thousandths.
    pub release_level: i64,
    /// Longest sustain hold before release is forced.
    pub max_sustain_samples: u64,
}

impl ADSREnvelope {
    /// Structural soundness: the sustain within the unit range, at least
    /// one release sample, the phase lengths bounded, and the release
    /// start no later than the count and the auto-release ceiling.
    pub open spec fn wf(&self) -> bool {
        &&& 0 <= self.sustain_level <= 1000
        &&& 0 <= self.release_level <= 1000
        &&& 1 <= self.release_samples <= 0x80000
        &&& self.attack_samples <= 0x80000
        &&& self.decay_samples <= 0x80000
        &&& self.max_sustain_samples <= 0x80000
        &&& (self.release_start_sample is Some <==> self.is_released)
        &&& (self.release_start_sample matches Some(rs) ==> rs <= self.sample_count && rs
            <= self.attack_samples + self.decay_samples + self.max_sustain_samples + 1)
        &&& (!self.is_released ==> self.sample_count <= self.attack_samples + self.decay_samples
            + self.max_sustain_samples)
    }

    /// Builds an envelope from the four 0..=99 parameters: attack, decay
    /// and release scale to at most two seconds of samples, sustain to a
    /// fraction of full amplitude, and the auto-release ceiling to half
    /// the release time plus fifty milliseconds.
    pub fn new(attack: u8, decay: u8, sustain: u8, release: u8, sample_rate: u32) -> (r:
        ADSREnvelope)
        requires
            attack <= 99,
            decay <= 99,
            sustain <= 99,
            release <= 99,
            1 <= sample_rate <= 192_000,
        ensures
            r.wf(),
            r.sample_count == 0,
            r.attack_samples == attack * 2 * sample_rate / 99,
            r.decay_samples == decay * 2 * sample_rate / 99,
            r.sustain_level == sustain * 1000 / 99,
            r.release_samples == if release * 2 * sample_rate / 99 >= 1 {
                release * 2 * sample_rate / 99
            } else {
                1
            },
            r.max_sustain_samples == release as int * sample_rate / 99 + sample_rate / 20,
            r.release_start_sample is None,
            !r.is_released,
            r.release_level == r.sustain_level,
    {
        proof {
            assert(attack * 2 * sample_rate <= 99 * 2 * 192_000) by (nonlinear_arith)
                requires
                    attack <= 99,
                    sample_rate <= 192_000,
            ;
            assert(decay * 2 * sample_rate <= 99 * 2 * 192_000) by (nonlinear_arith)
                requires
                    decay <= 99,
                    sample_rate <= 192_000,
            ;
            assert(release * 2 * sample_rate <= 99 * 2 * 192_000) by (nonlinear_arith)
                requires
                    release <= 99,
                    sample_rate <= 192_000,
            ;
            assert(release * sample_rate <= 99 * 192_000) by (nonlinear_arith)
                requires
                    release <= 99,
                    sample_rate <= 192_000,
            ;
            assert(sustain * 1000 <= 99_000) by (nonlinear_arith)
                requires
                    sustain <= 99,
            ;
        }
        let attack_samples: u64 = attack as u64 * 2 * sample_rate as u64 / 99;
        let decay_samples: u64 = decay as u64 * 2 * sample_rate as u64 / 99;
        let release_raw: u64 = release as u64 * 2 * sample_rate as u64 / 99;
        let release_samples: u64 = if release_raw >= 1 {
            release_raw
        } else {
            1
        };
        let max_sustain_samples: u64 = release as u64 * sample_rate as u64 / 99 + (sample_rate
            / 20) as u64;
        ADSREnvelope {
            sample_count: 0,
            attack_samples,
            decay_samples,
            sustain_level: (sustain as i64) * 1000 / 99,
            release_samples,
            release_start_sample: None,
            is_released: false,
            release_level: (sustain as i64) * 1000 / 99,
            max_sustain_samples,
        }
    }

    /// Begins the release phase at the current count, if it has not
    /// already begun, recording the amplitude held at that moment: the
    /// release ramps down from that level, so a note released mid-attack
    /// fades from where its attack had reached, with no jump.
    pub fn release(&mut self)
        requires
            old(self).wf(),
        ensures
            final(self).wf(),
            final(self).is_released,
            old(self).is_released ==> *final(self) == *old(self),
            !old(self).is_released ==> *final(self) == (ADSREnvelope {
                release_start_sample: Some(old(self).sample_count),
                is_released: true,
                release_level: old(self).spec_amplitude_at(old(self).sample_count) as i64,
                ..*old(self)
            }),
    {
        if !self.is_released {
            let level = self.calculate_envelope_amplitude();
            self.release_start_sample = Some(self.sample_count);
            self.is_released = true;
            self.release_level = level;
        }
    }

    /// Envelope amplitude at a sample count, in thousandths: a linear
    /// ramp to full over the attack, a linear fall to the sustain level
    /// over the decay, the sustain level held, and once released a
    /// linear fall over the release from the level held when release
    /// began down to zero.
    pub open spec fn spec_amplitude_at(&self, count: u64) -> int {
        match self.release_start_sample {
            Some(rs) => {
                let progress = count - rs;
                if progress >= self.release_samples {
                    0
                } else {
                    self.release_level * (self.release_samples - progress) / (
                    self.release_samples as int)
                }
            },
            None => {
                if count <= self.attack_samples {
                    if self.attack_samples == 0 {
                        1000
                    } else {
                        count * 1000 / (self.attack_samples as int)
                    }
                } else if count <= self.attack_samples + self.decay_samples {
                    if self.decay_samples == 0 {
                        self.sustain_level as int
                    } else {
                        1000 - (1000 - self.sustain_level) * (count - self.attack_samples) / (
                        self.decay_samples as int)
                    }
                } else {
                    self.sustain_level as int
                }
            },
        }
    }

    /// The amplitude at the current sample count.
    pub fn calculate_envelope_amplitude(&self) -> (r: i64)
        requires
            self.wf(),
        ensures
            r as int == self.spec_amplitude_at(self.sample_count),
            0 <= r <= 1000,
    {
        if let Some(release_start) = self.release_start_sample {
            let progress = self.sample_count - release_start;
            if progress >= self.release_samples {
                return 0;
            }
            let remaining = self.release_samples - progress;
            proof {
                assert(0 <= self.release_level * remaining <= 1000 * self.release_samples)
                    by (nonlinear_arith)
                    requires
                        0 <= self.release_level <= 1000,
                        0 <= remaining <= self.release_samples,
                ;
                assert(self.release_level * remaining / (self.release_samples as int) <= 1000)
                    by (nonlinear_arith)
                    requires
                        0 <= self.release_level * remaining <= 1000 * self.release_samples,
                        self.release_samples >= 1,
                ;
                assert(self.release_level * remaining / (self.release_samples as int) >= 0)
                    by (nonlinear_arith)
                    requires
                        self.release_level * remaining >= 0,
                        self.release_samples >= 1,
                ;
            }
            return self.release_level * (remaining as i64) / (self.release_samples as i64);
        }
        if self.sample_count <= self.attack_samples {
            if self.attack_samples == 0 {
                return 1000;
            }
            proof {
                assert(self.sample_count * 1000 <= self.attack_samples * 1000) by (nonlinear_arith)
                    requires
                        self.sample_count <= self.attack_samples,
                ;
                assert(self.sample_count * 1000 / (self.attack_samples as int) <= 1000)
                    by (nonlinear_arith)
                    requires
                        0 <= self.sample_count * 1000 <= self.attack_samples * 1000,
                        self.attack_samples >= 1,
                ;
                assert(self.sample_count * 1000 / (self.attack_samples as int) >= 0)
                    by (nonlinear_arith)
                    requires
                        self.sample_count >= 0,
                        self.attack_samples >= 1,
                ;
            }
            return ((self.sample_count * 1000) / self.attack_samples) as i64;
        }
        if self.sample_count <= self.attack_samples + self.decay_samples {
            if self.decay_samples == 0 {
                return self.sustain_level;
            }
            let decay_time = self.sample_count - self.attack_samples;
            proof {
                assert(0 <= (1000 - self.sustain_level) * decay_time <= 1000 * self.decay_samples)
                    by (nonlinear_arith)
                    requires
                        0 <= 1000 - self.sustain_level <= 1000,
                        0 <= decay_time <= self.decay_samples,
                ;
                assert((1000 - self.sustain_level) * decay_time / (self.decay_samples as int)
                    <= 1000) by (nonlinear_arith)
                    requires
                        0 <= (1000 - self.sustain_level) * decay_time <= 1000 * self.decay_samples,
                        self.decay_samples >= 1,
                ;
                assert((1000 - self.sustain_level) * decay_time / (self.decay_samples as int) >= 0)
                    by (nonlinear_arith)
                    requires
                        (1000 - self.sustain_level) * decay_time >= 0,
                        self.decay_samples >= 1,
                ;
            }
            return 1000 - (1000 - self.sustain_level) * (decay_time as i64) / (
            self.decay_samples as i64);
        }
        self.sustain_level
    }

    /// Shapes one source sample: computes the amplitude at the current
    /// count, advances the count, forces release once the sustain has
    /// been held past the ceiling, and ends the stream once the release
    /// has run its course or the released amplitude has decayed away.
    /// The envelope always ends within the four phase lengths plus two
    /// samples.
    pub fn next(&mut self, sample: i64) -> (r: Option<i64>)
        requires
            old(self).wf(),
            -0x4000_0000 <= sample <= 0x4000_0000,
        ensures
            final(self).wf(),
            final(self).sample_count == old(self).sample_count.saturating_add(1),
            final(self).attack_samples == old(self).attack_samples,
            final(self).decay_samples == old(self).decay_samples,
            final(self).sustain_level == old(self).sustain_level,
            final(self).release_samples == old(self).release_samples,
            final(self).max_sustain_samples == old(self).max_sustain_samples,
            final(self).is_released == (old(self).is_released || final(self).sample_count > old(self).attack_samples + old(self).decay_samples + old(self).max_sustain_samples),
            old(self).is_released ==> final(self).release_start_sample == old(self).release_start_sample,
            old(self).is_released || !final(self).is_released ==> final(self).release_level == old(
                self,
            ).release_level,
            !old(self).is_released && final(self).is_released ==> final(self).release_level == old(
                self,
            ).sustain_level,
            r matches Some(v) ==> v as int == tdiv(
                sample * old(self).spec_amplitude_at(old(self).sample_count),
                1000,
            ),
            r is None <==> (final(self).release_start_sample matches Some(rs) && (final(self).sample_count - rs >= final(self).release_samples || old(self).spec_amplitude_at(
                old(self).sample_count,
            ) == 0)),
            old(self).sample_count as int + 1 > old(self).attack_samples + old(self).decay_samples
                + old(self).max_sustain_samples + old(self).release_samples ==> r is None,
    {
        let envelope_amplitude = self.calculate_envelope_amplitude();
        self.sample_count = self.sample_count.saturating_add(1);
        if self.sample_count > self.attack_samples + self.decay_samples + self.max_sustain_samples
            && !self.is_released {
            self.release_start_sample = Some(self.sample_count);
            self.is_released = true;
            self.release_level = self.sustain_level;
        }
        if let Some(release_start) = self.release_start_sample {
            if self.sample_count - release_start >= self.release_samples {
                return None;
            }
            if envelope_amplitude == 0 {
                return None;
            }
        }
        proof {
            assert(-(0x4000_0000i64 * 1000) <= sample * envelope_amplitude <= 0x4000_0000i64
                * 1000) by (nonlinear_arith)
                requires
                    -0x4000_0000 <= sample <= 0x4000_0000,
                    0 <= envelope_amplitude <= 1000,
            ;
        }
        Some(sample * envelope_amplitude / 1000)
    }
}

/// During the attack the amplitude never falls: at any two counts within
/// the attack of an unreleased envelope, the earlier amplitude is no
/// greater than the later.
pub proof fn lemma_attack_monotone(e: ADSREnvelope, c1: u64, c2: u64)
    requires
        e.wf(),
        e.release_start_sample is None,
        c1 <= c2 <= e.attack_samples,
    ensures
        e.spec_amplitude_at(c1) <= e.spec_amplitude_at(c2),
{
    if e.attack_samples > 0 {
        assert(c1 * 1000 <= c2 * 1000) by (nonlinear_arith)
            requires
                c1 <= c2,
        ;
        assert(c1 * 1000 / (e.attack_samples as int) <= c2 * 1000 / (e.attack_samples as int))
            by (nonlinear_arith)
            requires
                0 <= c1 * 1000 <= c2 * 1000,
                e.attack_samples >= 1,
        ;
    }
}

/// During the decay the amplitude never rises: at any two counts within
/// the decay of an unreleased envelope, the earlier amplitude is no less
/// than the later.
pub proof fn lemma_decay_monotone(e: ADSREnvelope, c1: u64, c2: u64)
    requires
        e.wf(),
        e.release_start_sample is None,
        e.attack_samples < c1,
        c1 <= c2 <= e.attack_samples + e.decay_samples,
    ensures
        e.spec_amplitude_at(c1) >= e.spec_amplitude_at(c2),
{
    if e.decay_samples > 0 {
        let d1 = c1 - e.attack_samples;
        let d2 = c2 - e.attack_samples;
        assert((1000 - e.sustain_level) * d1 <= (1000 - e.sustain_level) * d2) by (nonlinear_arith)
            requires
                0 <= 1000 - e.sustain_level,
                0 <= d1 <= d2,
        ;
        assert((1000 - e.sustain_level) * d1 / (e.decay_samples as int) <= (1000 - e.sustain_level)
            * d2 / (e.decay_samples as int)) by (nonlinear_arith)
            requires
                0 <= (1000 - e.sustain_level) * d1 <= (1000 - e.sustain_level) * d2,
                e.decay_samples >= 1,
        ;
    }
}

/// During the release the amplitude never rises.
pub proof fn lemma_release_monotone(e: ADSREnvelope, c1: u64, c2: u64)
    requires
        e.wf(),
        e.release_start_sample matches Some(rs) && rs <= c1,
        c1 <= c2,
    ensures
        e.spec_amplitude_at(c1) >= e.spec_amplitude_at(c2),
{
    let rs = e.release_start_sample->0;
    let p1 = c1 - rs;
    let p2 = c2 - rs;
    if p2 < e.release_samples {
        assert(e.release_level * (e.release_samples - p2) <= e.release_level * (e.release_samples
            - p1)) by (nonlinear_arith)
            requires
                0 <= e.release_level,
                0 <= e.release_samples - p2 <= e.release_samples - p1,
        ;
        assert(e.release_level * (e.release_samples - p2) / (e.release_samples as int)
            <= e.release_level * (e.release_samples - p1) / (e.release_samples as int))
            by (nonlinear_arith)
            requires
                0 <= e.release_level * (e.release_samples - p2) <= e.release_level * (
                e.release_samples - p1),
                e.release_samples >= 1,
        ;
    } else {
        if p1 < e.release_samples {
            assert(e.release_level * (e.release_samples - p1) >= 0) by (nonlinear_arith)
                requires
                    0 <= e.release_level,
                    0 <= e.release_samples - p1,
            ;
            assert(e.release_level * (e.release_samples - p1) / (e.release_samples as int) >= 0)
                by (nonlinear_arith)
                requires
                    0 <= e.release_level * (e.release_samples - p1),
                    e.release_samples >= 1,
            ;
        }
    }
}

/// The release begins exactly at the level held when it was triggered:
/// the amplitude at the release-start sample equals the recorded level,
/// so the fade is continuous with what came before.
pub proof fn lemma_release_starts_at_held_level(e: ADSREnvelope)
    requires
        e.wf(),
        e.release_start_sample is Some,
    ensures
        e.spec_amplitude_at(e.release_start_sample->0) == e.release_level,
{
    let rs = e.release_start_sample->0;
    assert(e.release_level * (e.release_samples - 0) / (e.release_samples as int)
        == e.release_level) by (nonlinear_arith)
        requires
            e.release_samples >= 1,
    ;
}

/// The amplitude is continuous across the phase boundaries: at the end
/// of a nonzero attack it is exactly full, and at the end of a nonzero
/// decay it is exactly the sustain level, the same values the next
/// phases start from.
pub proof fn lemma_amplitude_continuous(e: ADSREnvelope)
    requires
        e.wf(),
        e.release_start_sample is None,
    ensures
        e.attack_samples > 0 ==> e.spec_amplitude_at(e.attack_samples) == 1000,
        e.decay_samples > 0 ==> e.spec_amplitude_at(
            (e.attack_samples + e.decay_samples) as u64,
        ) == e.sustain_level,
{
    if e.attack_samples > 0 {
        assert(e.attack_samples * 1000 / (e.attack_samples as int) == 1000) by (nonlinear_arith)
            requires
                e.attack_samples >= 1,
        ;
    }
    if e.decay_samples > 0 {
        let c = (e.attack_samples + e.decay_samples) as u64;
        if c <= e.attack_samples {
            assert(e.decay_samples == 0);
        } else {
            assert((1000 - e.sustain_level) * (c - e.attack_samples) / (e.decay_samples as int)
                == 1000 - e.sustain_level) by (nonlinear_arith)
                requires
                    e.decay_samples >= 1,
                    c - e.attack_samples == e.decay_samples,
            ;
        }
    }
}

} // verus!
