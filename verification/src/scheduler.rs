//! The playback scheduler: decides, once per tick of the event loop,
//! which recorded notes must trigger now during looped multi-track
//! playback.
//!
//! Times are MIDI ticks.  The loop length is the latest note end over
//! the playing tracks; the position inside the loop is the elapsed time
//! modulo that length.  The scheduler owns its last seen loop position —
//! no hidden global — and a note triggers when the position passes its
//! start, with a 50-millisecond tolerance window on the first tick and
//! just after a wrap.

use vstd::prelude::*;
use crate::state::{State, Track};

verus! {

/// Tolerance window for catching notes right at the loop start, in
/// ticks: 50 milliseconds.
pub const TRIGGER_TOLERANCE_TICKS: u64 = 48;

/// The latest end tick over the notes of one track, zero for none,
/// saturating at the largest tick.
pub open spec fn spec_track_span(notes: Seq<crate::state::RecordedNote>, i: int) -> u64
    decreases i,
{
    if i <= 0 {
        0
    } else {
        let prev = spec_track_span(notes, i - 1);
        let end = notes[i - 1].timestamp.saturating_add(notes[i - 1].duration);
        if end > prev {
            end
        } else {
            prev
        }
    }
}

/// The loop length: the latest note end over the playing, non-empty
/// tracks among the first `i`.
pub open spec fn spec_loop_duration(tracks: Seq<Track>, i: int) -> u64
    decreases i,
{
    if i <= 0 {
        0
    } else {
        let prev = spec_loop_duration(tracks, i - 1);
        let t = tracks[i - 1];
        if t.playing && t.recorded_notes@.len() > 0 {
            let span = spec_track_span(t.recorded_notes@, t.recorded_notes@.len() as int);
            if span > prev {
                span
            } else {
                prev
            }
        } else {
            prev
        }
    }
}

/// Whether a note at `onset` must trigger, given the last seen loop
/// position (none after a wrap or on the first tick) and the current
/// one: the position has just passed the onset, or there is no
/// reference and the position sits within the tolerance window past it.
pub open spec fn spec_should_trigger(last: Option<u64>, loop_time: u64, onset: u64) -> bool {
    match last {
        Some(l) => l < onset && loop_time >= onset,
        None => loop_time >= onset && loop_time < onset.saturating_add(TRIGGER_TOLERANCE_TICKS),
    }
}

/// The notes to trigger now, in track order and note order: every pair
/// of a playing track's index and a note index whose onset the loop
/// position has just passed.
pub open spec fn spec_triggers(
    tracks: Seq<Track>,
    last: Option<u64>,
    loop_time: u64,
    ti: int,
    ni: int,
) -> Seq<(usize, usize)>
    decreases tracks.len() - ti, (if 0 <= ti < tracks.len() {
        tracks[ti].recorded_notes@.len() + 1 - ni
    } else {
        0
    }),
{
    if ti < 0 || ni < 0 || ti >= tracks.len() {
        Seq::empty()
    } else if !(tracks[ti].playing && tracks[ti].recorded_notes@.len() > 0) {
        spec_triggers(tracks, last, loop_time, ti + 1, 0)
    } else if ni >= tracks[ti].recorded_notes@.len() {
        spec_triggers(tracks, last, loop_time, ti + 1, 0)
    } else {
        let rest = spec_triggers(tracks, last, loop_time, ti, ni + 1);
        if spec_should_trigger(last, loop_time, tracks[ti].recorded_notes@[ni].timestamp) {
            seq![(ti as usize, ni as usize)] + rest
        } else {
            rest
        }
    }
}

/// The playback scheduler, owning the loop position it last acted on.
#[derive(Debug, PartialEq, Eq, Structural, Clone, Copy)]
pub struct PlaybackScheduler {
    /// Loop position of the previous tick, if one has happened since the
    /// last wrap.
    pub last_loop_time: Option<u64>,
}

impl PlaybackScheduler {
    /// A scheduler with no reference position yet.
    pub fn new() -> (r: PlaybackScheduler)
        ensures
            r.last_loop_time is None,
    {
        PlaybackScheduler { last_loop_time: None }
    }

    /// Forgets the reference position, as when playback restarts.
    pub fn reset(&mut self)
        ensures
            final(self).last_loop_time is None,
    {
        self.last_loop_time = None;
    }

    /// The loop length of the playing tracks.
    pub fn loop_duration(&self, state: &State) -> (r: u64)
        requires
            state.wf(),
        ensures
            r == spec_loop_duration(state.tracks@, 4),
    {
        let mut best: u64 = 0;
        let mut i: usize = 0;
        while i < state.tracks.len()
            invariant
                state.wf(),
                i <= 4,
                state.tracks@.len() == 4,
                best == spec_loop_duration(state.tracks@, i as int),
            decreases 4 - i,
        {
            let t = &state.tracks[i];
            if t.playing && t.recorded_notes.len() > 0 {
                let mut span: u64 = 0;
                let mut j: usize = 0;
                let n = t.recorded_notes.len();
                while j < n
                    invariant
                        t.recorded_notes@.len() == n,
                        j <= n,
                        span == spec_track_span(t.recorded_notes@, j as int),
                    decreases n - j,
                {
                    let note = t.recorded_notes[j];
                    let end = note.timestamp.saturating_add(note.duration);
                    if end > span {
                        span = end;
                    }
                    j = j + 1;
                }
                if span > best {
                    best = span;
                }
            }
            i = i + 1;
        }
        best
    }

    /// One scheduler tick at `current_time` ticks since playback began:
    /// computes the loop position, treats a wrap as having no reference,
    /// and returns the track and note indices of every note that must
    /// trigger now, in track order.  The position becomes the new
    /// reference.
    pub fn tick(&mut self, state: &State, current_time: u64) -> (r: Vec<(usize, usize)>)
        requires
            state.wf(),
        ensures
            ({
                let dur = spec_loop_duration(state.tracks@, 4);
                let loop_time = if dur > 0 {
                    (current_time as int % dur as int) as u64
                } else {
                    current_time
                };
                let last = match old(self).last_loop_time {
                    Some(l) => if loop_time < l {
                        None
                    } else {
                        Some(l)
                    },
                    None => None,
                };
                &&& final(self).last_loop_time == Some(loop_time)
                &&& r@ == spec_triggers(state.tracks@, last, loop_time, 0, 0)
            }),
    {
        let dur = self.loop_duration(state);
        let loop_time: u64 = if dur > 0 {
            current_time % dur
        } else {
            current_time
        };
        let last: Option<u64> = match self.last_loop_time {
            Some(l) => if loop_time < l {
                None
            } else {
                Some(l)
            },
            None => None,
        };
        let mut r: Vec<(usize, usize)> = Vec::new();
        let mut ti: usize = 0;
        while ti < state.tracks.len()
            invariant
                state.wf(),
                ti <= 4,
                state.tracks@.len() == 4,
                r@ + spec_triggers(state.tracks@, last, loop_time, ti as int, 0) == spec_triggers(
                    state.tracks@,
                    last,
                    loop_time,
                    0,
                    0,
                ),
            decreases 4 - ti,
        {
            let t = &state.tracks[ti];
            if t.playing && t.recorded_notes.len() > 0 {
                let n = t.recorded_notes.len();
                let mut ni: usize = 0;
                while ni < n
                    invariant
                        state.wf(),
                        ti < 4,
                        state.tracks@.len() == 4,
                        *t == state.tracks@[ti as int],
                        t.playing && t.recorded_notes@.len() > 0,
                        t.recorded_notes@.len() == n,
                        ni <= n,
                        r@ + spec_triggers(state.tracks@, last, loop_time, ti as int, ni as int)
                            == spec_triggers(state.tracks@, last, loop_time, 0, 0),
                    decreases n - ni,
                {
                    let onset = t.recorded_notes[ni].timestamp;
                    let fire = match last {
                        Some(l) => l < onset && loop_time >= onset,
                        None => loop_time >= onset && loop_time < onset.saturating_add(
                            TRIGGER_TOLERANCE_TICKS,
                        ),
                    };
                    proof {
                        assert(spec_triggers(state.tracks@, last, loop_time, ti as int, ni as int)
                            == if spec_should_trigger(
                            last,
                            loop_time,
                            t.recorded_notes@[ni as int].timestamp,
                        ) {
                            seq![(ti, ni)] + spec_triggers(
                                state.tracks@,
                                last,
                                loop_time,
                                ti as int,
                                ni + 1,
                            )
                        } else {
                            spec_triggers(state.tracks@, last, loop_time, ti as int, ni + 1)
                        });
                    }
                    let ghost pre_r = r@;
                    if fire {
                        r.push((ti, ni));
                        proof {
                            assert(r@ =~= pre_r + seq![(ti, ni)]);
                        }
                    }
                    proof {
                        assert(r@ + spec_triggers(
                            state.tracks@,
                            last,
                            loop_time,
                            ti as int,
                            ni + 1,
                        ) =~= spec_triggers(state.tracks@, last, loop_time, 0, 0));
                    }
                    ni = ni + 1;
                }
            }
            ti = ti + 1;
        }
        proof {
            assert(r@ =~= spec_triggers(state.tracks@, last, loop_time, 0, 0));
        }
        self.last_loop_time = Some(loop_time);
        r
    }
}

} // verus!
