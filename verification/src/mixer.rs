//! The multi-track mixer: builds the per-note signal path from a track's
//! settings and applies gain, pan and the track's enabled effects.
//!
//! Emitting samples to the audio device is the caller's concern; the
//! mixer decides everything the emitter needs: the generator frequency,
//! the envelope parameters, the gain, and which effects run in which
//! order (delay, then reverb, then flanger).

use vstd::prelude::*;
use crate::music_theory::Note;
use crate::state::{Track, MasterTrack};
use crate::waveforms::Waveform;
use crate::effects::{tdiv, SAMPLE_LIMIT};

verus! {

/// Fixed master amplitude applied to every voice, in thousandths.
pub const AMPLITUDE_MILLI: i64 = 200;

/// Everything the audio emitter needs to sound one note on one track:
/// the generator, the envelope parameters, and the gain in thousandths.
#[derive(Debug, PartialEq, Eq, Structural, Clone, Copy)]
pub struct NotePlan {
    pub waveform: Waveform,
    /// Generator frequency in centihertz.
    pub frequency_centihertz: u32,
    pub attack: u8,
    pub decay: u8,
    pub sustain: u8,
    pub release: u8,
    /// Gain in thousandths: the fixed amplitude scaled by track volume.
    pub gain_milli: i64,
    pub delay_enabled: bool,
    pub reverb_enabled: bool,
    pub flanger_enabled: bool,
}

/// The multi-track mixer.
#[derive(Debug, PartialEq, Eq, Structural, Clone, Copy)]
pub struct MultiTrackMixer {
    pub sample_rate: u32,
}

impl MultiTrackMixer {
    /// A mixer at the given output sample rate.
    pub fn new(sample_rate: u32) -> (r: MultiTrackMixer)
        ensures
            r.sample_rate == sample_rate,
    {
        MultiTrackMixer { sample_rate }
    }

    /// The signal path for one note on one track: the track's waveform
    /// at the note's frequency in the track's octave, the track's
    /// envelope, and the fixed amplitude scaled by the track's volume.
    pub fn play_note_on_track(&self, track: &Track, note: Note) -> (r: NotePlan)
        requires
            track.wf(),
        ensures
            r.waveform == track.waveform,
            r.frequency_centihertz as int == note.spec_frequency_centihertz(track.octave as int),
            r.attack == track.attack,
            r.decay == track.decay,
            r.sustain == track.sustain,
            r.release == track.release,
            r.gain_milli == tdiv(AMPLITUDE_MILLI * track.volume, 1000),
            0 <= r.gain_milli <= AMPLITUDE_MILLI,
            r.delay_enabled == track.delay_enabled,
            r.reverb_enabled == track.reverb_enabled,
            r.flanger_enabled == track.flanger_enabled,
    {
        let frequency = note.frequency(track.octave);
        let v = track.volume;
        proof {
            assert(0 <= AMPLITUDE_MILLI * v <= AMPLITUDE_MILLI * 1000) by (nonlinear_arith)
                requires
                    0 <= v <= 1000,
            ;
            assert(AMPLITUDE_MILLI * v / 1000 <= AMPLITUDE_MILLI) by (nonlinear_arith)
                requires
                    0 <= AMPLITUDE_MILLI * v <= AMPLITUDE_MILLI * 1000,
            ;
        }
        NotePlan {
            waveform: track.waveform,
            frequency_centihertz: frequency,
            attack: track.attack,
            decay: track.decay,
            sustain: track.sustain,
            release: track.release,
            gain_milli: AMPLITUDE_MILLI * v / 1000,
            delay_enabled: track.delay_enabled,
            reverb_enabled: track.reverb_enabled,
            flanger_enabled: track.flanger_enabled,
        }
    }

    /// The notes of one track that must start at a playback position:
    /// every note whose start the position has reached but not passed by
    /// the 50-millisecond frame window.
    pub fn play_track_at_time(&self, track: &Track, playback_time: u64) -> (r: Vec<usize>)
        requires
            track.wf(),
        ensures
            forall|k: int|
                0 <= k < r@.len() ==> (#[trigger] r@[k]) < track.recorded_notes@.len()
                    && spec_note_due(track.recorded_notes@[r@[k] as int].timestamp, playback_time),
            forall|n: int|
                0 <= n < track.recorded_notes@.len() && spec_note_due(
                    (#[trigger] track.recorded_notes@[n]).timestamp,
                    playback_time,
                ) ==> r@.contains(n as usize),
    {
        let mut r: Vec<usize> = Vec::new();
        let n = track.recorded_notes.len();
        let mut i: usize = 0;
        while i < n
            invariant
                track.recorded_notes@.len() == n,
                i <= n,
                forall|k: int|
                    0 <= k < r@.len() ==> (#[trigger] r@[k]) < n && spec_note_due(
                        track.recorded_notes@[r@[k] as int].timestamp,
                        playback_time,
                    ),
                forall|m: int|
                    0 <= m < i && spec_note_due(
                        (#[trigger] track.recorded_notes@[m]).timestamp,
                        playback_time,
                    ) ==> r@.contains(m as usize),
            decreases n - i,
        {
            let onset = track.recorded_notes[i].timestamp;
            let ghost pre_r = r@;
            if playback_time >= onset && playback_time < onset.saturating_add(48) {
                r.push(i);
                proof {
                    assert(r@[r@.len() - 1] == i as usize);
                }
            }
            proof {
                assert forall|m: int|
                    0 <= m < i + 1 && spec_note_due(
                        (#[trigger] track.recorded_notes@[m]).timestamp,
                        playback_time,
                    ) implies r@.contains(m as usize) by {
                    if m < i {
                        let k = choose|k: int| 0 <= k < pre_r.len() && pre_r[k] == m as usize;
                        assert(r@[k] == m as usize);
                    } else {
                        assert(r@[r@.len() - 1] == i as usize);
                    }
                }
            }
            i = i + 1;
        }
        r
    }

    /// Scales a sample by the master volume.
    pub fn apply_master_effects(&self, master_track: &MasterTrack, sample: i64) -> (r: i64)
        requires
            master_track.wf(),
            -SAMPLE_LIMIT <= sample <= SAMPLE_LIMIT,
        ensures
            r as int == tdiv(sample * master_track.volume, 1000),
            -SAMPLE_LIMIT <= r <= SAMPLE_LIMIT,
    {
        let v = master_track.volume;
        proof {
            assert(-(SAMPLE_LIMIT * 1000) <= sample * v <= SAMPLE_LIMIT * 1000) by (nonlinear_arith)
                requires
                    -SAMPLE_LIMIT <= sample <= SAMPLE_LIMIT,
                    0 <= v <= 1000,
            ;
            crate::effects::lemma_tdiv_in_range(sample as int * v as int, 1000, SAMPLE_LIMIT as int);
        }
        sample * v / 1000
    }

    /// Runs a sample through the track's enabled effects in the fixed
    /// order delay, reverb, flanger: each enabled effect takes its own
    /// exact step on the output of the stage before it, a disabled
    /// effect passes the signal through with its state untouched, and
    /// the result is the last stage's output.  A track whose effects are
    /// silent and fed silence yields silence.
    pub fn apply_track_effects(&self, track: &mut Track, sample: i64) -> (r: i64)
        requires
            old(track).wf(),
            -SAMPLE_LIMIT <= sample <= SAMPLE_LIMIT,
        ensures
            final(track).wf(),
            -SAMPLE_LIMIT <= r <= SAMPLE_LIMIT,
            ({
                let s1 = if old(track).delay_enabled {
                    crate::effects::spec_delay_out(old(track).delay_effect, sample as int)
                } else {
                    sample as int
                };
                let s2 = if old(track).reverb_enabled {
                    crate::effects::spec_reverb_out(old(track).reverb_effect, s1)
                } else {
                    s1
                };
                &&& r as int == (if old(track).flanger_enabled {
                    crate::effects::spec_flanger_out(old(track).flanger_effect, s2)
                } else {
                    s2
                })
                &&& (old(track).delay_enabled ==> crate::effects::spec_delay_step(
                    old(track).delay_effect,
                    final(track).delay_effect,
                    sample as int,
                ))
                &&& (old(track).reverb_enabled ==> crate::effects::spec_reverb_step(
                    old(track).reverb_effect,
                    final(track).reverb_effect,
                    s1,
                ))
                &&& (old(track).flanger_enabled ==> crate::effects::spec_flanger_step(
                    old(track).flanger_effect,
                    final(track).flanger_effect,
                    s2,
                ))
            }),
            !old(track).delay_enabled ==> final(track).delay_effect == old(track).delay_effect,
            !old(track).reverb_enabled ==> final(track).reverb_effect == old(track).reverb_effect,
            !old(track).flanger_enabled ==> final(track).flanger_effect == old(
                track,
            ).flanger_effect,
            *final(track) == (Track {
                delay_effect: final(track).delay_effect,
                reverb_effect: final(track).reverb_effect,
                flanger_effect: final(track).flanger_effect,
                recorded_notes: final(track).recorded_notes,
                ..*old(track)
            }),
            final(track).recorded_notes == old(track).recorded_notes,
            (old(track).delay_effect.spec_silent() && old(track).reverb_effect.spec_silent() && old(
                track,
            ).flanger_effect.spec_silent() && sample == 0) ==> r == 0
                && final(track).delay_effect.spec_silent()
                && final(track).reverb_effect.spec_silent()
                && final(track).flanger_effect.spec_silent(),
    {
        let mut s = sample;
        if track.delay_enabled {
            s = track.delay_effect.process_sample(s);
        }
        if track.reverb_enabled {
            s = track.reverb_effect.process_sample(s);
        }
        if track.flanger_enabled {
            s = track.flanger_effect.process_sample(s);
        }
        s
    }
}

/// Whether a note that starts at `onset` is due at `playback_time`:
/// within the 50-millisecond frame window past its start.
pub open spec fn spec_note_due(onset: u64, playback_time: u64) -> bool {
    playback_time >= onset && playback_time < onset.saturating_add(48)
}

/// Integer square root: the largest value whose square does not exceed
/// the argument.
pub fn isqrt(v: u64) -> (r: u64)
    requires
        v <= 4_000_000,
    ensures
        r * r <= v,
        (r + 1) * (r + 1) > v,
        r <= 2000,
{
    let mut r: u64 = 0;
    loop
        invariant_except_break
            r * r <= v,
            r <= 2000,
            v <= 4_000_000,
        ensures
            r * r <= v,
            (r + 1) * (r + 1) > v,
            r <= 2000,
        decreases v - r * r,
    {
        let next = r + 1;
        proof {
            assert(next * next < 0x1000000) by (nonlinear_arith)
                requires
                    next <= 2001,
            ;
        }
        if next * next > v {
            break;
        }
        proof {
            assert(next <= 2000) by (nonlinear_arith)
                requires
                    next * next <= 4_000_000,
                    next >= 1,
            ;
            assert(next * next > r * r) by (nonlinear_arith)
                requires
                    next == r + 1,
                    r >= 0,
            ;
        }
        r = next;
    }
    r
}

/// The integer square root: the unique value whose square does not
/// exceed the argument while the next square does.
pub open spec fn spec_isqrt(v: int) -> int {
    choose|r: int| 0 <= r && #[trigger] (r * r) <= v && (r + 1) * (r + 1) > v
}

proof fn lemma_isqrt_exists(v: int)
    requires
        v >= 0,
    ensures
        exists|r: int| 0 <= r && #[trigger] (r * r) <= v && (r + 1) * (r + 1) > v,
    decreases v,
{
    if v == 0 {
        assert(0 * 0 <= v && (0 + 1) * (0 + 1) > v) by (nonlinear_arith)
            requires
                v == 0,
        ;
    } else {
        lemma_isqrt_exists(v - 1);
        let r = choose|r: int| 0 <= r && #[trigger] (r * r) <= v - 1 && (r + 1) * (r + 1) > v - 1;
        if (r + 1) * (r + 1) > v {
            assert(r * r <= v);
        } else {
            assert((r + 1) * (r + 1) == v);
            assert((r + 2) * (r + 2) > v) by (nonlinear_arith)
                requires
                    r >= 0,
                    (r + 1) * (r + 1) == v,
            ;
            assert((r + 1) * (r + 1) <= v && ((r + 1) + 1) * ((r + 1) + 1) > v);
        }
    }
}

/// Pins the integer square root: any value with the defining property is
/// the root.
pub proof fn lemma_isqrt_eq(v: int, r: int)
    requires
        v >= 0,
        0 <= r,
        r * r <= v,
        (r + 1) * (r + 1) > v,
    ensures
        spec_isqrt(v) == r,
{
    lemma_isqrt_exists(v);
    let w = spec_isqrt(v);
    assert(0 <= w && w * w <= v && (w + 1) * (w + 1) > v);
    if w < r {
        assert((w + 1) * (w + 1) <= r * r) by (nonlinear_arith)
            requires
                0 <= w,
                w + 1 <= r,
        ;
    } else if w > r {
        assert((r + 1) * (r + 1) <= w * w) by (nonlinear_arith)
            requires
                0 <= r,
                r + 1 <= w,
        ;
    }
}

/// Splits a sample into left and right channels by an equal-power pan:
/// each side's gain, in thousandths, is the integer square root of that
/// side's share of the power.
pub fn apply_pan(sample: i64, pan: i64) -> (r: (i64, i64))
    requires
        -SAMPLE_LIMIT <= sample <= SAMPLE_LIMIT,
        -1000 <= pan <= 1000,
    ensures
        r.0 as int == tdiv(sample * spec_isqrt((1000 - pan) * 500), 1000),
        r.1 as int == tdiv(sample * spec_isqrt((1000 + pan) * 500), 1000),
        -SAMPLE_LIMIT <= r.0 <= SAMPLE_LIMIT,
        -SAMPLE_LIMIT <= r.1 <= SAMPLE_LIMIT,
{
    let left_share: u64 = ((1000 - pan) * 500) as u64;
    let right_share: u64 = ((1000 + pan) * 500) as u64;
    let left_gain = isqrt(left_share) as i64;
    let right_gain = isqrt(right_share) as i64;
    proof {
        lemma_isqrt_eq(left_share as int, left_gain as int);
        lemma_isqrt_eq(right_share as int, right_gain as int);
        assert(left_gain <= 1000) by (nonlinear_arith)
            requires
                left_gain * left_gain <= 1_000_000,
                left_gain >= 0,
        ;
        assert(right_gain <= 1000) by (nonlinear_arith)
            requires
                right_gain * right_gain <= 1_000_000,
                right_gain >= 0,
        ;
        assert(-(SAMPLE_LIMIT * 1000) <= sample * left_gain <= SAMPLE_LIMIT * 1000)
            by (nonlinear_arith)
            requires
                -SAMPLE_LIMIT <= sample <= SAMPLE_LIMIT,
                0 <= left_gain <= 1000,
        ;
        assert(-(SAMPLE_LIMIT * 1000) <= sample * right_gain <= SAMPLE_LIMIT * 1000)
            by (nonlinear_arith)
            requires
                -SAMPLE_LIMIT <= sample <= SAMPLE_LIMIT,
                0 <= right_gain <= 1000,
        ;
        crate::effects::lemma_tdiv_in_range(
            sample as int * left_gain as int,
            1000,
            SAMPLE_LIMIT as int,
        );
        crate::effects::lemma_tdiv_in_range(
            sample as int * right_gain as int,
            1000,
            SAMPLE_LIMIT as int,
        );
    }
    let l = sample * left_gain / 1000;
    let rr = sample * right_gain / 1000;
    (l, rr)
}

} // verus!
