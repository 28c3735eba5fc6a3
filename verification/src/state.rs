//! Data model of the workstation: recorded notes, recording mode, the
//! per-track and master-bus settings, and the session state with its
//! editing operations.
//!
//! Times in note lists are MIDI ticks; wall-clock instants handed in by
//! the caller are milliseconds.  Volumes, pans and filter factors are
//! integers in thousandths.  The tracks are the one authoritative home of
//! every per-track setting; the "current" track is a lookup, never a
//! copy.

use vstd::prelude::*;
use crate::music_theory::{Note, OCTAVE_LOWER_BOUND, OCTAVE_UPPER_BOUND};
use crate::waveforms::Waveform;
use crate::effects::{DelayEffect, ReverbEffect, FlangerEffect, spec_clamp_to};

verus! {

/// One note captured during recording.
///
/// Times are counted in MIDI ticks: 480 ticks per quarter note at the fixed
/// tempo of 120 beats per minute, so 960 ticks make one second.
#[derive(Debug, PartialEq, Eq, Structural, Clone, Copy)]
pub struct RecordedNote {
    pub note: Note,
    pub octave: i32,
    /// Tick at which the note starts, measured from the start of the loop.
    pub timestamp: u64,
    /// How many ticks the note is held.
    pub duration: u64,
}

/// Whether a note list is ordered by start tick.
pub open spec fn spec_sorted_by_timestamp(s: Seq<RecordedNote>) -> bool {
    forall|i: int, j: int| 0 <= i < j < s.len() ==> s[i].timestamp <= s[j].timestamp
}

/// Whether each note of a list ends no later than the next one starts.
pub open spec fn spec_non_overlapping(s: Seq<RecordedNote>) -> bool {
    forall|i: int, j: int|
        0 <= i && j == i + 1 && j < s.len() ==> (#[trigger] s[i]).timestamp + s[i].duration <= (
        #[trigger] s[j]).timestamp
}

/// Session-wide transport mode.
#[derive(Debug, PartialEq, Eq, Structural, Clone, Copy)]
pub enum RecordingState {
    Stopped,
    Recording,
    Playing,
}

/// A note drifting across the display while it sounds.
#[derive(Debug, PartialEq, Eq, Structural, Clone, Copy)]
pub struct VisualNote {
    pub note: Note,
    pub octave: i32,
    /// Millisecond instant the note appeared.
    pub spawn_time: u64,
    /// Millisecond instant its fade began, once it has.
    pub fade_start_time: Option<u64>,
    pub x: i32,
    pub y: i32,
}

/// Pointer state as the input layer reports it, in pixels.
#[derive(Debug, Clone, Copy)]
pub struct MouseState {
    pub x: i32,
    pub y: i32,
    pub left_pressed: bool,
    pub left_clicked: bool,
    pub dragging: bool,
    pub drag_start: Option<(i32, i32)>,
}

impl MouseState {
    /// Pointer at the origin with no buttons down.
    pub fn new() -> (r: MouseState)
        ensures
            r == (MouseState {
                x: 0,
                y: 0,
                left_pressed: false,
                left_clicked: false,
                dragging: false,
                drag_start: None,
            }),
    {
        MouseState {
            x: 0,
            y: 0,
            left_pressed: false,
            left_clicked: false,
            dragging: false,
            drag_start: None,
        }
    }
}

/// One channel of the workstation: its recorded loop, instrument
/// settings, envelope parameters and effect units.
#[derive(Debug, Clone)]
pub struct Track {
    pub id: usize,
    pub name: String,
    pub recorded_notes: Vec<RecordedNote>,
    /// Volume in thousandths, within the unit range.
    pub volume: i64,
    /// Pan in thousandths, from -1000 (left) to 1000 (right).
    pub pan: i64,
    /// Whether this track's loop is playing.
    pub playing: bool,
    pub waveform: Waveform,
    pub octave: i32,
    pub delay_enabled: bool,
    pub reverb_enabled: bool,
    pub flanger_enabled: bool,
    pub delay_effect: DelayEffect,
    pub reverb_effect: ReverbEffect,
    pub flanger_effect: FlangerEffect,
    /// Envelope parameters, each within 0..=99.
    pub attack: u8,
    pub decay: u8,
    pub sustain: u8,
    pub release: u8,
}

impl Track {
    /// Parameter ranges and effect soundness.
    pub open spec fn wf(&self) -> bool {
        &&& 0 <= self.volume <= 1000
        &&& -1000 <= self.pan <= 1000
        &&& OCTAVE_LOWER_BOUND <= self.octave <= OCTAVE_UPPER_BOUND
        &&& self.attack <= 99
        &&& self.decay <= 99
        &&& self.sustain <= 99
        &&& self.release <= 99
        &&& self.delay_effect.wf()
        &&& self.reverb_effect.wf()
        &&& self.flanger_effect.wf()
    }

    /// A fresh track: square wave at octave 4, volume 0.8, centre pan, a
    /// plucky envelope, and the three effects built but disabled.
    pub fn new(id: usize, name: String) -> (r: Track)
        ensures
            r.wf(),
            r.id == id,
            r.name == name,
            r.recorded_notes@.len() == 0,
            r.volume == 800,
            r.pan == 0,
            !r.playing,
            r.waveform == Waveform::SQUARE,
            r.octave == 4,
            !r.delay_enabled && !r.reverb_enabled && !r.flanger_enabled,
            r.attack == 0 && r.decay == 0 && r.sustain == 50 && r.release == 20,
            r.delay_effect.spec_silent(),
            r.reverb_effect.spec_silent(),
            r.flanger_effect.spec_silent(),
    {
        Track {
            id,
            name,
            recorded_notes: Vec::new(),
            volume: 800,
            pan: 0,
            playing: false,
            waveform: Waveform::SQUARE,
            octave: 4,
            delay_enabled: false,
            reverb_enabled: false,
            flanger_enabled: false,
            delay_effect: DelayEffect::new(300, 550, 500, 44100),
            reverb_effect: ReverbEffect::new(700, 400, 600, 44100),
            flanger_effect: FlangerEffect::new(500, 700, 100, 500, 44100),
            attack: 0,
            decay: 0,
            sustain: 50,
            release: 20,
        }
    }
}

/// The master mix bus with its own volume and effect units.
#[derive(Debug, Clone)]
pub struct MasterTrack {
    /// Master volume in thousandths, within the unit range.
    pub volume: i64,
    pub delay_enabled: bool,
    pub reverb_enabled: bool,
    pub flanger_enabled: bool,
    pub delay_effect: DelayEffect,
    pub reverb_effect: ReverbEffect,
    pub flanger_effect: FlangerEffect,
}

impl MasterTrack {
    /// Parameter ranges and effect soundness.
    pub open spec fn wf(&self) -> bool {
        &&& 0 <= self.volume <= 1000
        &&& self.delay_effect.wf()
        &&& self.reverb_effect.wf()
        &&& self.flanger_effect.wf()
    }

    /// A fresh master bus at volume 0.9 with its effects disabled.
    pub fn new() -> (r: MasterTrack)
        ensures
            r.wf(),
            r.volume == 900,
            !r.delay_enabled && !r.reverb_enabled && !r.flanger_enabled,
    {
        MasterTrack {
            volume: 900,
            delay_enabled: false,
            reverb_enabled: false,
            flanger_enabled: false,
            delay_effect: DelayEffect::new(400, 400, 300, 44100),
            reverb_effect: ReverbEffect::new(800, 300, 400, 44100),
            flanger_effect: FlangerEffect::new(300, 500, 50, 300, 44100),
        }
    }
}

/// The whole session: four tracks, the master bus, the transport mode,
/// and the editing cursors.  Every per-track setting lives in its track;
/// the current track is found by its id.
#[derive(Debug)]
pub struct State {
    pub tracks: Vec<Track>,
    pub master_track: MasterTrack,
    pub current_track_id: usize,
    /// Low-pass filter factor in thousandths.
    pub filter_factor: i64,
    /// Whether the low-pass filter is engaged: 0 or 1.
    pub lpf_active: usize,
    /// Frequency being played, in centihertz, if any.
    pub current_frequency: Option<u32>,
    /// Millisecond instant the display animation started.
    pub animation_start_time: u64,
    /// Millisecond instant the held key was released, if it was.
    pub key_release_time: Option<u64>,
    pub recording_state: RecordingState,
    pub recorded_notes: Vec<RecordedNote>,
    pub visual_notes: Vec<VisualNote>,
    /// Millisecond instant recording started, while recording.
    pub recording_start_time: Option<u64>,
    /// Millisecond instant playback started, while playing.
    pub playback_start_time: Option<u64>,
    /// The note currently held during recording: start instant in
    /// milliseconds, pitch class and octave.
    pub current_note_start: Option<(u64, Note, i32)>,
    pub pressed_note: Option<Note>,
    pub mouse: MouseState,
    /// Millisecond instant the stop button lit up, if it did.
    pub stop_button_glow_time: Option<u64>,
}

impl State {
    /// Soundness of every track, the master bus and the cursors.
    pub open spec fn wf(&self) -> bool {
        &&& self.tracks@.len() == 4
        &&& forall|i: int| 0 <= i < 4 ==> (#[trigger] self.tracks@[i]).wf()
        &&& self.master_track.wf()
        &&& self.current_track_id < 4
        &&& 0 <= self.filter_factor <= 1100
        &&& self.lpf_active <= 1
    }

    /// A fresh session: four named tracks, the first selected, transport
    /// stopped.
    pub fn new() -> (r: State)
        ensures
            r.wf(),
            r.current_track_id == 0,
            r.recording_state == RecordingState::Stopped,
            r.recorded_notes@.len() == 0,
            forall|i: int| 0 <= i < 4 ==> (#[trigger] r.tracks@[i]).recorded_notes@.len() == 0,
            forall|i: int| 0 <= i < 4 ==> !(#[trigger] r.tracks@[i]).playing,
            r.filter_factor == 1000,
            r.lpf_active == 0,
    {
        let mut tracks: Vec<Track> = Vec::new();
        tracks.push(Track::new(0, lead_name()));
        tracks.push(Track::new(1, bass_name()));
        tracks.push(Track::new(2, drums_name()));
        tracks.push(Track::new(3, pads_name()));
        State {
            tracks,
            master_track: MasterTrack::new(),
            current_track_id: 0,
            filter_factor: 1000,
            lpf_active: 0,
            current_frequency: None,
            animation_start_time: 0,
            key_release_time: None,
            recording_state: RecordingState::Stopped,
            recorded_notes: Vec::new(),
            visual_notes: Vec::new(),
            recording_start_time: None,
            playback_start_time: None,
            current_note_start: None,
            pressed_note: None,
            mouse: MouseState::new(),
            stop_button_glow_time: None,
        }
    }

    /// Multiplies a sample by the filter cutoff factor.
    pub fn apply_lpf(&self, sample: i64) -> (r: i64)
        requires
            self.wf(),
            -0x4000_0000 <= sample <= 0x4000_0000,
        ensures
            r as int == crate::effects::tdiv(sample * self.filter_factor, 1000),
    {
        let f = self.filter_factor;
        proof {
            assert(-(0x4000_0000i64 * 1100) <= sample * f <= 0x4000_0000i64 * 1100)
                by (nonlinear_arith)
                requires
                    -0x4000_0000 <= sample <= 0x4000_0000,
                    0 <= f <= 1100,
            ;
        }
        sample * f / 1000
    }

    /// Raises the current track's octave by one, stopping at the top.
    pub fn increase_octave(&mut self)
        requires
            old(self).wf(),
        ensures
            final(self).wf(),
            final(self).tracks@[old(self).current_track_id as int].octave == if old(self).spec_current_track().octave < OCTAVE_UPPER_BOUND {
                old(self).spec_current_track().octave + 1
            } else {
                old(self).spec_current_track().octave as int
            },
            spec_same_but_track(*old(self), *final(self), old(self).current_track_id as int),
            spec_same_transport(*old(self), *final(self)),
    {
        self.increase_current_track_octave();
    }

    /// Lowers the current track's octave by one, stopping at the bottom.
    pub fn decrease_octave(&mut self)
        requires
            old(self).wf(),
        ensures
            final(self).wf(),
            final(self).tracks@[old(self).current_track_id as int].octave == if old(self).spec_current_track().octave > OCTAVE_LOWER_BOUND {
                old(self).spec_current_track().octave - 1
            } else {
                old(self).spec_current_track().octave as int
            },
            spec_same_but_track(*old(self), *final(self), old(self).current_track_id as int),
            spec_same_transport(*old(self), *final(self)),
    {
        self.decrease_current_track_octave();
    }

    /// Switches the low-pass filter on or off and resets its factor.
    pub fn toggle_lpf(&mut self)
        requires
            old(self).wf(),
        ensures
            final(self).wf(),
            final(self).lpf_active == 1 - old(self).lpf_active,
            final(self).filter_factor == 1000,
            final(self).tracks == old(self).tracks,
    {
        self.lpf_active = if self.lpf_active == 0 {
            1
        } else {
            0
        };
        self.filter_factor = 1000;
    }

    /// Opens the filter by one step while it is engaged and not yet open.
    pub fn increase_filter_cutoff(&mut self)
        requires
            old(self).wf(),
        ensures
            final(self).wf(),
            final(self).filter_factor == if old(self).lpf_active == 1 && old(self).filter_factor
                <= 900 {
                old(self).filter_factor + 143
            } else {
                old(self).filter_factor as int
            },
            final(self).tracks == old(self).tracks,
    {
        if self.lpf_active == 1 && self.filter_factor <= 900 {
            self.filter_factor = self.filter_factor + 143;
        }
    }

    /// Closes the filter by one step while it is engaged and not shut.
    pub fn decrease_filter_cutoff(&mut self)
        requires
            old(self).wf(),
        ensures
            final(self).wf(),
            final(self).filter_factor == if old(self).lpf_active == 1 && old(self).filter_factor
                >= 150 {
                old(self).filter_factor - 143
            } else {
                old(self).filter_factor as int
            },
            final(self).tracks == old(self).tracks,
    {
        if self.lpf_active == 1 && self.filter_factor >= 150 {
            self.filter_factor = self.filter_factor - 143;
        }
    }

    /// The current track's octave.
    pub fn get_current_octave(&self) -> (r: i32)
        requires
            self.wf(),
        ensures
            r == self.spec_current_track().octave,
    {
        self.tracks[self.current_track_id].octave
    }

    /// The current track, as a spec value.
    pub open spec fn spec_current_track(&self) -> Track {
        self.tracks@[self.current_track_id as int]
    }

    /// Cycles the current track's waveform one step along
    /// sine, square, triangle, sawtooth and back.
    pub fn toggle_waveform(&mut self)
        requires
            old(self).wf(),
        ensures
            final(self).wf(),
            final(self).tracks@[old(self).current_track_id as int].waveform == old(self).spec_current_track().waveform.spec_next(),
            spec_same_but_track(*old(self), *final(self), old(self).current_track_id as int),
            spec_same_transport(*old(self), *final(self)),
    {
        self.toggle_current_track_waveform();
    }

    /// Cycles the current track's waveform one step.
    pub fn toggle_current_track_waveform(&mut self)
        requires
            old(self).wf(),
        ensures
            final(self).wf(),
            final(self).tracks@[old(self).current_track_id as int] == (Track {
                waveform: old(self).spec_current_track().waveform.spec_next(),
                ..old(self).spec_current_track()
            }),
            spec_same_but_track(*old(self), *final(self), old(self).current_track_id as int),
            spec_same_transport(*old(self), *final(self)),
    {
        let id = self.current_track_id;
        let track = &mut self.tracks[id];
        track.waveform = match track.waveform {
            Waveform::SINE => Waveform::SQUARE,
            Waveform::SQUARE => Waveform::TRIANGLE,
            Waveform::TRIANGLE => Waveform::SAWTOOTH,
            Waveform::SAWTOOTH => Waveform::SINE,
        };
    }

    /// Begins recording: clears the note list and arms the clock.
    pub fn start_recording(&mut self, now_ms: u64)
        requires
            old(self).wf(),
        ensures
            final(self).wf(),
            final(self).recorded_notes@.len() == 0,
            *final(self) == (State {
                recording_state: RecordingState::Recording,
                recording_start_time: Some(now_ms),
                recorded_notes: final(self).recorded_notes,
                current_note_start: None,
                ..*old(self)
            }),
    {
        self.recording_state = RecordingState::Recording;
        self.recording_start_time = Some(now_ms);
        self.recorded_notes.clear();
        self.current_note_start = None;
    }

    /// Stops recording, closing any note still held at `now_ms`.
    pub fn stop_recording(&mut self, now_ms: u64)
        requires
            old(self).wf(),
        ensures
            final(self).wf(),
            *final(self) == (State {
                recording_state: RecordingState::Stopped,
                recording_start_time: None,
                current_note_start: None,
                recorded_notes: final(self).recorded_notes,
                ..*old(self)
            }),
            old(self).current_note_start matches Some((start, note, octave)) ==> final(self).recorded_notes@ == old(self).recorded_notes@.push(
                spec_close_held_note(
                    start,
                    note,
                    octave,
                    old(self).recording_start_time,
                    now_ms,
                ),
            ),
            old(self).current_note_start is None ==> final(self).recorded_notes@ == old(self).recorded_notes@,
    {
        if let Some((start_ms, note, octave)) = self.current_note_start {
            let duration_ms = now_ms.saturating_sub(start_ms);
            let timestamp_ms = match self.recording_start_time {
                Some(rec_start) => start_ms.saturating_sub(rec_start),
                None => 0,
            };
            self.recorded_notes.push(
                RecordedNote {
                    note,
                    octave,
                    timestamp: ms_to_ticks(timestamp_ms),
                    duration: ms_to_ticks(duration_ms),
                },
            );
            self.current_note_start = None;
        }
        self.recording_state = RecordingState::Stopped;
        self.recording_start_time = None;
    }

    /// Begins looped playback when at least one track's loop is armed
    /// and holds notes; otherwise nothing changes.
    pub fn start_playback(&mut self, now_ms: u64)
        requires
            old(self).wf(),
        ensures
            final(self).wf(),
            (exists|i: int|
                0 <= i < 4 && (#[trigger] old(self).tracks@[i]).playing && old(
                    self,
                ).tracks@[i].recorded_notes@.len() > 0) ==> *final(self) == (State {
                recording_state: RecordingState::Playing,
                playback_start_time: Some(now_ms),
                ..*old(self)
            }),
            !(exists|i: int|
                0 <= i < 4 && (#[trigger] old(self).tracks@[i]).playing && old(
                    self,
                ).tracks@[i].recorded_notes@.len() > 0) ==> *final(self) == *old(self),
    {
        if self.has_playing_tracks() {
            self.recording_state = RecordingState::Playing;
            self.playback_start_time = Some(now_ms);
        }
    }

    /// Stops playback.
    pub fn stop_playback(&mut self)
        requires
            old(self).wf(),
        ensures
            final(self).wf(),
            *final(self) == (State {
                recording_state: RecordingState::Stopped,
                playback_start_time: None,
                ..*old(self)
            }),
    {
        self.recording_state = RecordingState::Stopped;
        self.playback_start_time = None;
    }

    /// Selects a track by id; ids out of range are ignored.
    pub fn switch_to_track(&mut self, track_id: usize)
        requires
            old(self).wf(),
        ensures
            final(self).wf(),
            *final(self) == (State {
                current_track_id: if track_id < 4 {
                    track_id
                } else {
                    old(self).current_track_id
                },
                ..*old(self)
            }),
    {
        if track_id < self.tracks.len() {
            self.current_track_id = track_id;
        }
    }

    /// The currently selected track.
    pub fn current_track(&self) -> (r: &Track)
        requires
            self.wf(),
        ensures
            *r == self.spec_current_track(),
    {
        &self.tracks[self.current_track_id]
    }

    /// Flips whether the current track's loop plays.
    pub fn toggle_current_track_playback(&mut self)
        requires
            old(self).wf(),
        ensures
            final(self).wf(),
            final(self).tracks@[old(self).current_track_id as int] == (Track {
                playing: !old(self).spec_current_track().playing,
                ..old(self).spec_current_track()
            }),
            spec_same_but_track(*old(self), *final(self), old(self).current_track_id as int),
            spec_same_transport(*old(self), *final(self)),
    {
        let id = self.current_track_id;
        let track = &mut self.tracks[id];
        track.playing = !track.playing;
    }

    /// Stops every track's loop.
    pub fn stop_all_track_playback(&mut self)
        requires
            old(self).wf(),
        ensures
            final(self).wf(),
            forall|i: int| 0 <= i < 4 ==> !(#[trigger] final(self).tracks@[i]).playing,
            forall|i: int|
                0 <= i < 4 ==> #[trigger] final(self).tracks@[i] == (Track {
                    playing: false,
                    ..old(self).tracks@[i]
                }),
            *final(self) == (State { tracks: final(self).tracks, ..*old(self) }),
    {
        let mut i: usize = 0;
        while i < self.tracks.len()
            invariant
                old(self).wf(),
                self.tracks@.len() == 4,
                i <= 4,
                forall|j: int|
                    0 <= j < i ==> #[trigger] self.tracks@[j] == (Track {
                        playing: false,
                        ..old(self).tracks@[j]
                    }),
                forall|j: int|
                    i <= j < 4 ==> #[trigger] self.tracks@[j] == old(self).tracks@[j],
                *self == (State { tracks: self.tracks, ..*old(self) }),
            decreases 4 - i,
        {
            let track = &mut self.tracks[i];
            track.playing = false;
            i = i + 1;
        }
    }

    /// Moves the current track's volume by a step in thousandths; the
    /// result always stays within the unit range, however large or
    /// repeated the steps.
    pub fn adjust_current_track_volume(&mut self, delta: i64)
        requires
            old(self).wf(),
        ensures
            final(self).wf(),
            final(self).tracks@[old(self).current_track_id as int] == (Track {
                volume: spec_clamp_to(old(self).spec_current_track().volume + delta, 0, 1000) as i64,
                ..old(self).spec_current_track()
            }),
            0 <= final(self).tracks@[old(self).current_track_id as int].volume <= 1000,
            spec_same_but_track(*old(self), *final(self), old(self).current_track_id as int),
            spec_same_transport(*old(self), *final(self)),
    {
        let id = self.current_track_id;
        let track = &mut self.tracks[id];
        track.volume = if delta > 1000 {
            1000
        } else if delta < -1000 {
            0
        } else {
            let v = track.volume + delta;
            if v < 0 {
                0
            } else if v > 1000 {
                1000
            } else {
                v
            }
        };
    }

    /// Moves the current track's pan by a step in thousandths; the result
    /// always stays between hard left and hard right, however large or
    /// repeated the steps.
    pub fn adjust_current_track_pan(&mut self, delta: i64)
        requires
            old(self).wf(),
        ensures
            final(self).wf(),
            final(self).tracks@[old(self).current_track_id as int] == (Track {
                pan: spec_clamp_to(old(self).spec_current_track().pan + delta, -1000, 1000) as i64,
                ..old(self).spec_current_track()
            }),
            -1000 <= final(self).tracks@[old(self).current_track_id as int].pan <= 1000,
            spec_same_but_track(*old(self), *final(self), old(self).current_track_id as int),
            spec_same_transport(*old(self), *final(self)),
    {
        let id = self.current_track_id;
        let track = &mut self.tracks[id];
        track.pan = if delta > 2000 {
            1000
        } else if delta < -2000 {
            -1000
        } else {
            let p = track.pan + delta;
            if p < -1000 {
                -1000
            } else if p > 1000 {
                1000
            } else {
                p
            }
        };
    }

    /// Ids of the tracks whose loops are playing and hold notes, in
    /// strictly increasing order.
    pub fn playing_tracks(&self) -> (r: Vec<usize>)
        requires
            self.wf(),
        ensures
            forall|k: int|
                0 <= k < r@.len() ==> (#[trigger] r@[k]) < 4 && self.tracks@[r@[k] as int].playing
                    && self.tracks@[r@[k] as int].recorded_notes@.len() > 0,
            forall|i: int|
                0 <= i < 4 && (#[trigger] self.tracks@[i]).playing
                    && self.tracks@[i].recorded_notes@.len() > 0 ==> r@.contains(i as usize),
            forall|k1: int, k2: int| 0 <= k1 < k2 < r@.len() ==> r@[k1] < r@[k2],
    {
        let mut r: Vec<usize> = Vec::new();
        let mut i: usize = 0;
        while i < self.tracks.len()
            invariant
                self.wf(),
                i <= 4,
                self.tracks@.len() == 4,
                forall|k: int|
                    0 <= k < r@.len() ==> (#[trigger] r@[k]) < 4 && self.tracks@[r@[k] as int].playing
                        && self.tracks@[r@[k] as int].recorded_notes@.len() > 0,
                forall|j: int|
                    0 <= j < i && (#[trigger] self.tracks@[j]).playing
                        && self.tracks@[j].recorded_notes@.len() > 0 ==> r@.contains(j as usize),
                forall|k1: int, k2: int| 0 <= k1 < k2 < r@.len() ==> r@[k1] < r@[k2],
                forall|k: int| 0 <= k < r@.len() ==> (#[trigger] r@[k]) < i,
            decreases 4 - i,
        {
            let ghost pre_r = r@;
            if self.tracks[i].playing && self.tracks[i].recorded_notes.len() > 0 {
                r.push(i);
                proof {
                    assert(r@[r@.len() - 1] == i as usize);
                    assert(r@.contains(i as usize));
                }
            }
            proof {
                assert forall|j: int|
                    0 <= j < i + 1 && (#[trigger] self.tracks@[j]).playing
                        && self.tracks@[j].recorded_notes@.len() > 0 implies r@.contains(
                    j as usize,
                ) by {
                    if j < i {
                        let k = choose|k: int| 0 <= k < pre_r.len() && pre_r[k] == j as usize;
                        assert(r@[k] == j as usize);
                    } else {
                        assert(r@[r@.len() - 1] == i as usize);
                    }
                }
            }
            i = i + 1;
        }
        r
    }

    /// Whether any track's loop is playing with notes to play.
    pub fn has_playing_tracks(&self) -> (r: bool)
        requires
            self.wf(),
        ensures
            r == exists|i: int|
                0 <= i < 4 && (#[trigger] self.tracks@[i]).playing
                    && self.tracks@[i].recorded_notes@.len() > 0,
    {
        let mut i: usize = 0;
        while i < self.tracks.len()
            invariant
                self.wf(),
                i <= 4,
                self.tracks@.len() == 4,
                forall|j: int|
                    0 <= j < i ==> !((#[trigger] self.tracks@[j]).playing
                        && self.tracks@[j].recorded_notes@.len() > 0),
            decreases 4 - i,
        {
            if self.tracks[i].playing && self.tracks[i].recorded_notes.len() > 0 {
                return true;
            }
            i = i + 1;
        }
        false
    }

    /// Begins recording onto the current track, clearing its loop.
    pub fn start_track_recording(&mut self, now_ms: u64)
        requires
            old(self).wf(),
        ensures
            final(self).wf(),
            *final(self) == (State {
                recording_state: RecordingState::Recording,
                recording_start_time: Some(now_ms),
                current_note_start: None,
                tracks: final(self).tracks,
                ..*old(self)
            }),
            final(self).tracks@ == old(self).tracks@.update(
                old(self).current_track_id as int,
                (Track {
                    recorded_notes: final(self).tracks@[old(self).current_track_id as int].recorded_notes,
                    ..old(self).spec_current_track()
                }),
            ),
            final(self).tracks@[old(self).current_track_id as int].recorded_notes@.len() == 0,
            spec_same_but_track(*old(self), *final(self), old(self).current_track_id as int),
    {
        self.recording_state = RecordingState::Recording;
        self.recording_start_time = Some(now_ms);
        let id = self.current_track_id;
        let track = &mut self.tracks[id];
        track.recorded_notes.clear();
        self.current_note_start = None;
        proof {
            assert(self.tracks@ =~= old(self).tracks@.update(
                old(self).current_track_id as int,
                self.tracks@[old(self).current_track_id as int],
            ));
        }
    }

    /// Appends a note to the current track's loop.
    pub fn add_note_to_current_track(&mut self, note: RecordedNote)
        requires
            old(self).wf(),
        ensures
            final(self).wf(),
            final(self).tracks@[old(self).current_track_id as int] == (Track {
                recorded_notes: final(self).tracks@[old(self).current_track_id as int].recorded_notes,
                ..old(self).spec_current_track()
            }),
            final(self).tracks@[old(self).current_track_id as int].recorded_notes@ == old(self).spec_current_track().recorded_notes@.push(note),
            spec_same_but_track(*old(self), *final(self), old(self).current_track_id as int),
            spec_same_transport(*old(self), *final(self)),
    {
        let id = self.current_track_id;
        let track = &mut self.tracks[id];
        track.recorded_notes.push(note);
    }
}

impl State {
    /// Raises the current track's attack one step, stopping at 99.
    pub fn increase_current_track_attack(&mut self)
        requires
            old(self).wf(),
        ensures
            final(self).wf(),
            final(self).tracks@[old(self).current_track_id as int] == (Track {
                attack: spec_clamp_to(old(self).spec_current_track().attack + 1, 0, 99) as u8,
                ..old(self).spec_current_track()
            }),
            spec_same_but_track(*old(self), *final(self), old(self).current_track_id as int),
            spec_same_transport(*old(self), *final(self)),
    {
        let id = self.current_track_id;
        let track = &mut self.tracks[id];
        if track.attack < 99 {
            track.attack = track.attack + 1;
        }
    }

    /// Lowers the current track's attack one step, stopping at zero.
    pub fn decrease_current_track_attack(&mut self)
        requires
            old(self).wf(),
        ensures
            final(self).wf(),
            final(self).tracks@[old(self).current_track_id as int] == (Track {
                attack: spec_clamp_to(old(self).spec_current_track().attack - 1, 0, 99) as u8,
                ..old(self).spec_current_track()
            }),
            spec_same_but_track(*old(self), *final(self), old(self).current_track_id as int),
            spec_same_transport(*old(self), *final(self)),
    {
        let id = self.current_track_id;
        let track = &mut self.tracks[id];
        if track.attack > 0 {
            track.attack = track.attack - 1;
        }
    }

    /// Raises the current track's decay one step, stopping at 99.
    pub fn increase_current_track_decay(&mut self)
        requires
            old(self).wf(),
        ensures
            final(self).wf(),
            final(self).tracks@[old(self).current_track_id as int] == (Track {
                decay: spec_clamp_to(old(self).spec_current_track().decay + 1, 0, 99) as u8,
                ..old(self).spec_current_track()
            }),
            spec_same_but_track(*old(self), *final(self), old(self).current_track_id as int),
            spec_same_transport(*old(self), *final(self)),
    {
        let id = self.current_track_id;
        let track = &mut self.tracks[id];
        if track.decay < 99 {
            track.decay = track.decay + 1;
        }
    }

    /// Lowers the current track's decay one step, stopping at zero.
    pub fn decrease_current_track_decay(&mut self)
        requires
            old(self).wf(),
        ensures
            final(self).wf(),
            final(self).tracks@[old(self).current_track_id as int] == (Track {
                decay: spec_clamp_to(old(self).spec_current_track().decay - 1, 0, 99) as u8,
                ..old(self).spec_current_track()
            }),
            spec_same_but_track(*old(self), *final(self), old(self).current_track_id as int),
            spec_same_transport(*old(self), *final(self)),
    {
        let id = self.current_track_id;
        let track = &mut self.tracks[id];
        if track.decay > 0 {
            track.decay = track.decay - 1;
        }
    }

    /// Raises the current track's sustain one step, stopping at 99.
    pub fn increase_current_track_sustain(&mut self)
        requires
            old(self).wf(),
        ensures
            final(self).wf(),
            final(self).tracks@[old(self).current_track_id as int] == (Track {
                sustain: spec_clamp_to(old(self).spec_current_track().sustain + 1, 0, 99) as u8,
                ..old(self).spec_current_track()
            }),
            spec_same_but_track(*old(self), *final(self), old(self).current_track_id as int),
            spec_same_transport(*old(self), *final(self)),
    {
        let id = self.current_track_id;
        let track = &mut self.tracks[id];
        if track.sustain < 99 {
            track.sustain = track.sustain + 1;
        }
    }

    /// Lowers the current track's sustain one step, stopping at zero.
    pub fn decrease_current_track_sustain(&mut self)
        requires
            old(self).wf(),
        ensures
            final(self).wf(),
            final(self).tracks@[old(self).current_track_id as int] == (Track {
                sustain: spec_clamp_to(old(self).spec_current_track().sustain - 1, 0, 99) as u8,
                ..old(self).spec_current_track()
            }),
            spec_same_but_track(*old(self), *final(self), old(self).current_track_id as int),
            spec_same_transport(*old(self), *final(self)),
    {
        let id = self.current_track_id;
        let track = &mut self.tracks[id];
        if track.sustain > 0 {
            track.sustain = track.sustain - 1;
        }
    }

    /// Raises the current track's release one step, stopping at 99.
    pub fn increase_current_track_release(&mut self)
        requires
            old(self).wf(),
        ensures
            final(self).wf(),
            final(self).tracks@[old(self).current_track_id as int] == (Track {
                release: spec_clamp_to(old(self).spec_current_track().release + 1, 0, 99) as u8,
                ..old(self).spec_current_track()
            }),
            spec_same_but_track(*old(self), *final(self), old(self).current_track_id as int),
            spec_same_transport(*old(self), *final(self)),
    {
        let id = self.current_track_id;
        let track = &mut self.tracks[id];
        if track.release < 99 {
            track.release = track.release + 1;
        }
    }

    /// Lowers the current track's release one step, stopping at zero.
    pub fn decrease_current_track_release(&mut self)
        requires
            old(self).wf(),
        ensures
            final(self).wf(),
            final(self).tracks@[old(self).current_track_id as int] == (Track {
                release: spec_clamp_to(old(self).spec_current_track().release - 1, 0, 99) as u8,
                ..old(self).spec_current_track()
            }),
            spec_same_but_track(*old(self), *final(self), old(self).current_track_id as int),
            spec_same_transport(*old(self), *final(self)),
    {
        let id = self.current_track_id;
        let track = &mut self.tracks[id];
        if track.release > 0 {
            track.release = track.release - 1;
        }
    }

    /// Raises the current track's octave by one, stopping at the top.
    pub fn increase_current_track_octave(&mut self)
        requires
            old(self).wf(),
        ensures
            final(self).wf(),
            final(self).tracks@[old(self).current_track_id as int] == (Track {
                octave: if old(self).spec_current_track().octave < OCTAVE_UPPER_BOUND {
                    (old(self).spec_current_track().octave + 1) as i32
                } else {
                    old(self).spec_current_track().octave
                },
                ..old(self).spec_current_track()
            }),
            spec_same_but_track(*old(self), *final(self), old(self).current_track_id as int),
            spec_same_transport(*old(self), *final(self)),
    {
        let id = self.current_track_id;
        let track = &mut self.tracks[id];
        if track.octave < OCTAVE_UPPER_BOUND {
            track.octave = track.octave + 1;
        }
    }

    /// Lowers the current track's octave by one, stopping at the bottom.
    pub fn decrease_current_track_octave(&mut self)
        requires
            old(self).wf(),
        ensures
            final(self).wf(),
            final(self).tracks@[old(self).current_track_id as int] == (Track {
                octave: if old(self).spec_current_track().octave > OCTAVE_LOWER_BOUND {
                    (old(self).spec_current_track().octave - 1) as i32
                } else {
                    old(self).spec_current_track().octave
                },
                ..old(self).spec_current_track()
            }),
            spec_same_but_track(*old(self), *final(self), old(self).current_track_id as int),
            spec_same_transport(*old(self), *final(self)),
    {
        let id = self.current_track_id;
        let track = &mut self.tracks[id];
        if track.octave > OCTAVE_LOWER_BOUND {
            track.octave = track.octave - 1;
        }
    }

    /// Flips whether the delay runs on the current track.
    pub fn toggle_current_track_delay(&mut self)
        requires
            old(self).wf(),
        ensures
            final(self).wf(),
            final(self).tracks@[old(self).current_track_id as int] == (Track {
                delay_enabled: !old(self).spec_current_track().delay_enabled,
                ..old(self).spec_current_track()
            }),
            spec_same_but_track(*old(self), *final(self), old(self).current_track_id as int),
            spec_same_transport(*old(self), *final(self)),
    {
        let id = self.current_track_id;
        let track = &mut self.tracks[id];
        track.delay_enabled = !track.delay_enabled;
    }

    /// Flips whether the reverb runs on the current track.
    pub fn toggle_current_track_reverb(&mut self)
        requires
            old(self).wf(),
        ensures
            final(self).wf(),
            final(self).tracks@[old(self).current_track_id as int] == (Track {
                reverb_enabled: !old(self).spec_current_track().reverb_enabled,
                ..old(self).spec_current_track()
            }),
            spec_same_but_track(*old(self), *final(self), old(self).current_track_id as int),
            spec_same_transport(*old(self), *final(self)),
    {
        let id = self.current_track_id;
        let track = &mut self.tracks[id];
        track.reverb_enabled = !track.reverb_enabled;
    }

    /// Flips whether the flanger runs on the current track.
    pub fn toggle_current_track_flanger(&mut self)
        requires
            old(self).wf(),
        ensures
            final(self).wf(),
            final(self).tracks@[old(self).current_track_id as int] == (Track {
                flanger_enabled: !old(self).spec_current_track().flanger_enabled,
                ..old(self).spec_current_track()
            }),
            spec_same_but_track(*old(self), *final(self), old(self).current_track_id as int),
            spec_same_transport(*old(self), *final(self)),
    {
        let id = self.current_track_id;
        let track = &mut self.tracks[id];
        track.flanger_enabled = !track.flanger_enabled;
    }

    /// Places a fresh visual note along the drifting pattern.
    pub fn add_visual_note(&mut self, note: Note, octave: i32, now_ms: u64)
        requires
            old(self).wf(),
            old(self).visual_notes@.len() < 1000,
        ensures
            final(self).wf(),
            final(self).visual_notes@.len() == old(self).visual_notes@.len() + 1,
            final(self).visual_notes@.last() == (VisualNote {
                note,
                octave,
                spawn_time: now_ms,
                fade_start_time: None,
                x: (100 + (old(self).visual_notes@.len() * 60) % 400) as i32,
                y: (50 + (old(self).visual_notes@.len() * 30) % 150) as i32,
            }),
            final(self).tracks == old(self).tracks,
    {
        let note_index = self.visual_notes.len();
        let x: i32 = (100 + (note_index * 60) % 400) as i32;
        let y: i32 = (50 + (note_index * 30) % 150) as i32;
        self.visual_notes.push(
            VisualNote { note, octave, spawn_time: now_ms, fade_start_time: None, x, y },
        );
    }

    /// Ages the visual notes at `now_ms`: a note older than two seconds
    /// starts fading, and one that has faded for a second disappears.
    pub fn update_visual_notes(&mut self, now_ms: u64)
        requires
            old(self).wf(),
        ensures
            final(self).wf(),
            final(self).tracks == old(self).tracks,
            forall|k: int|
                0 <= k < final(self).visual_notes@.len() ==> ((#[trigger] final(self).visual_notes@[k]).fade_start_time matches Some(f) ==> now_ms < f + 1000),
    {
        let mut kept: Vec<VisualNote> = Vec::new();
        let mut i: usize = 0;
        let n = self.visual_notes.len();
        while i < n
            invariant
                i <= n,
                self.visual_notes@.len() == n,
                forall|k: int|
                    0 <= k < kept@.len() ==> ((#[trigger] kept@[k]).fade_start_time matches Some(f) ==> now_ms < f + 1000),
            decreases n - i,
        {
            let mut v = self.visual_notes[i];
            if v.fade_start_time.is_none() && now_ms > v.spawn_time.saturating_add(2000) {
                v.fade_start_time = Some(now_ms);
            }
            let keep = match v.fade_start_time {
                Some(fade_start) => now_ms < fade_start.saturating_add(1000),
                None => true,
            };
            if keep {
                proof {
                    if v.fade_start_time is Some {
                        let f = v.fade_start_time->0;
                        assert(now_ms < f + 1000);
                    }
                }
                kept.push(v);
            }
            i = i + 1;
        }
        self.visual_notes = kept;
    }
}

impl State {
    /// Raises the current track's attack one step, stopping at 99.
    pub fn increase_attack(&mut self)
        requires
            old(self).wf(),
        ensures
            final(self).wf(),
            final(self).tracks@[old(self).current_track_id as int].attack == spec_clamp_to(
                old(self).spec_current_track().attack + 1,
                0,
                99,
            ),
            spec_same_but_track(*old(self), *final(self), old(self).current_track_id as int),
            spec_same_transport(*old(self), *final(self)),
    {
        self.increase_current_track_attack();
    }

    /// Lowers the current track's attack one step, stopping at zero.
    pub fn decrease_attack(&mut self)
        requires
            old(self).wf(),
        ensures
            final(self).wf(),
            final(self).tracks@[old(self).current_track_id as int].attack == spec_clamp_to(
                old(self).spec_current_track().attack - 1,
                0,
                99,
            ),
            spec_same_but_track(*old(self), *final(self), old(self).current_track_id as int),
            spec_same_transport(*old(self), *final(self)),
    {
        self.decrease_current_track_attack();
    }

    /// Raises the current track's decay one step, stopping at 99.
    pub fn increase_decay(&mut self)
        requires
            old(self).wf(),
        ensures
            final(self).wf(),
            final(self).tracks@[old(self).current_track_id as int].decay == spec_clamp_to(
                old(self).spec_current_track().decay + 1,
                0,
                99,
            ),
            spec_same_but_track(*old(self), *final(self), old(self).current_track_id as int),
            spec_same_transport(*old(self), *final(self)),
    {
        self.increase_current_track_decay();
    }

    /// Lowers the current track's decay one step, stopping at zero.
    pub fn decrease_decay(&mut self)
        requires
            old(self).wf(),
        ensures
            final(self).wf(),
            final(self).tracks@[old(self).current_track_id as int].decay == spec_clamp_to(
                old(self).spec_current_track().decay - 1,
                0,
                99,
            ),
            spec_same_but_track(*old(self), *final(self), old(self).current_track_id as int),
            spec_same_transport(*old(self), *final(self)),
    {
        self.decrease_current_track_decay();
    }

    /// Raises the current track's sustain one step, stopping at 99.
    pub fn increase_sustain(&mut self)
        requires
            old(self).wf(),
        ensures
            final(self).wf(),
            final(self).tracks@[old(self).current_track_id as int].sustain == spec_clamp_to(
                old(self).spec_current_track().sustain + 1,
                0,
                99,
            ),
            spec_same_but_track(*old(self), *final(self), old(self).current_track_id as int),
            spec_same_transport(*old(self), *final(self)),
    {
        self.increase_current_track_sustain();
    }

    /// Lowers the current track's sustain one step, stopping at zero.
    pub fn decrease_sustain(&mut self)
        requires
            old(self).wf(),
        ensures
            final(self).wf(),
            final(self).tracks@[old(self).current_track_id as int].sustain == spec_clamp_to(
                old(self).spec_current_track().sustain - 1,
                0,
                99,
            ),
            spec_same_but_track(*old(self), *final(self), old(self).current_track_id as int),
            spec_same_transport(*old(self), *final(self)),
    {
        self.decrease_current_track_sustain();
    }

    /// Raises the current track's release one step, stopping at 99.
    pub fn increase_release(&mut self)
        requires
            old(self).wf(),
        ensures
            final(self).wf(),
            final(self).tracks@[old(self).current_track_id as int].release == spec_clamp_to(
                old(self).spec_current_track().release + 1,
                0,
                99,
            ),
            spec_same_but_track(*old(self), *final(self), old(self).current_track_id as int),
            spec_same_transport(*old(self), *final(self)),
    {
        self.increase_current_track_release();
    }

    /// Lowers the current track's release one step, stopping at zero.
    pub fn decrease_release(&mut self)
        requires
            old(self).wf(),
        ensures
            final(self).wf(),
            final(self).tracks@[old(self).current_track_id as int].release == spec_clamp_to(
                old(self).spec_current_track().release - 1,
                0,
                99,
            ),
            spec_same_but_track(*old(self), *final(self), old(self).current_track_id as int),
            spec_same_transport(*old(self), *final(self)),
    {
        self.decrease_current_track_release();
    }
}

/// How a key press changes the recording bookkeeping: while recording,
/// any note still held is closed onto the current track's loop and the
/// new note becomes the held one; otherwise nothing is recorded.
pub open spec fn spec_key_press_recorded(
    a: State,
    b: State,
    note: Note,
    octave: i32,
    now_ms: u64,
) -> bool {
    if a.recording_state == RecordingState::Recording {
        &&& b.current_note_start == Some((now_ms, note, octave))
        &&& match a.current_note_start {
            Some((st, n, o)) => b.tracks@[a.current_track_id as int].recorded_notes@
                == a.spec_current_track().recorded_notes@.push(
                spec_close_held_note(st, n, o, a.recording_start_time, now_ms),
            ),
            None => b.tracks@[a.current_track_id as int].recorded_notes@
                == a.spec_current_track().recorded_notes@,
        }
    } else {
        &&& b.current_note_start == a.current_note_start
        &&& b.tracks@[a.current_track_id as int].recorded_notes@
            == a.spec_current_track().recorded_notes@
    }
}

impl State {
    /// Registers a key press at `now_ms`: marks the note as sounding
    /// and, while recording, closes any held note onto the current
    /// track's loop and starts holding this one at the current track's
    /// octave.
    pub fn record_key_press(&mut self, note: Note, now_ms: u64)
        requires
            old(self).wf(),
        ensures
            final(self).wf(),
            final(self).pressed_note == Some(note),
            spec_key_press_recorded(
                *old(self),
                *final(self),
                note,
                old(self).spec_current_track().octave,
                now_ms,
            ),
            *final(self) == (State {
                pressed_note: Some(note),
                current_note_start: final(self).current_note_start,
                tracks: final(self).tracks,
                ..*old(self)
            }),
            final(self).tracks@ == old(self).tracks@.update(
                old(self).current_track_id as int,
                (Track {
                    recorded_notes: final(self).tracks@[old(self).current_track_id as int].recorded_notes,
                    ..old(self).spec_current_track()
                }),
            ),
    {
        self.pressed_note = Some(note);
        if !matches!(self.recording_state, RecordingState::Recording) {
            return ;
        }
        if let Some((start_ms, held_note, held_octave)) = self.current_note_start {
            let duration_ms = now_ms.saturating_sub(start_ms);
            let timestamp_ms = match self.recording_start_time {
                Some(rec_start) => start_ms.saturating_sub(rec_start),
                None => 0,
            };
            let closed = RecordedNote {
                note: held_note,
                octave: held_octave,
                timestamp: ms_to_ticks(timestamp_ms),
                duration: ms_to_ticks(duration_ms),
            };
            let id = self.current_track_id;
            let track = &mut self.tracks[id];
            track.recorded_notes.push(closed);
        }
        let octave = self.tracks[self.current_track_id].octave;
        self.current_note_start = Some((now_ms, note, octave));
    }
}

/// The frame of a per-track edit: every track but the one at `id` keeps
/// its value, and so do the master bus, the selected-track id, the
/// session note list, and the filter settings.  The transport and
/// display fields are covered separately by `spec_same_transport`.
pub open spec fn spec_same_but_track(a: State, b: State, id: int) -> bool {
    &&& b.tracks@.len() == a.tracks@.len()
    &&& forall|j: int| 0 <= j < a.tracks@.len() && j != id ==> a.tracks@[j] == #[trigger] b.tracks@[j]
    &&& b.master_track == a.master_track
    &&& b.current_track_id == a.current_track_id
    &&& b.recorded_notes == a.recorded_notes
    &&& b.filter_factor == a.filter_factor
    &&& b.lpf_active == a.lpf_active
}

/// The transport and display frame: the recording mode, its clocks, the
/// held and sounding notes, the fade and glow timers, the visual notes
/// and the pointer all keep their values.
pub open spec fn spec_same_transport(a: State, b: State) -> bool {
    &&& b.recording_state == a.recording_state
    &&& b.recording_start_time == a.recording_start_time
    &&& b.playback_start_time == a.playback_start_time
    &&& b.current_note_start == a.current_note_start
    &&& b.pressed_note == a.pressed_note
    &&& b.current_frequency == a.current_frequency
    &&& b.key_release_time == a.key_release_time
    &&& b.animation_start_time == a.animation_start_time
    &&& b.stop_button_glow_time == a.stop_button_glow_time
    &&& b.visual_notes == a.visual_notes
    &&& b.mouse == a.mouse
}

/// The note a held key stands for once it is released: held from `start`
/// until `now`, with its place in the loop measured from the start of
/// recording, both converted to ticks.
pub open spec fn spec_close_held_note(
    start_ms: u64,
    note: Note,
    octave: i32,
    recording_start: Option<u64>,
    now_ms: u64,
) -> RecordedNote {
    let duration_ms = now_ms.saturating_sub(start_ms);
    let timestamp_ms = match recording_start {
        Some(rec_start) => start_ms.saturating_sub(rec_start),
        None => 0u64,
    };
    RecordedNote {
        note,
        octave,
        timestamp: spec_ms_to_ticks(timestamp_ms),
        duration: spec_ms_to_ticks(duration_ms),
    }
}

/// Milliseconds rescaled to ticks: 960 ticks make one second.
pub open spec fn spec_ms_to_ticks(ms: u64) -> u64 {
    let t = (ms as int) * 960 / 1000;
    if t > u64::MAX {
        u64::MAX
    } else {
        t as u64
    }
}

/// Converts a millisecond count to ticks.
pub fn ms_to_ticks(ms: u64) -> (r: u64)
    ensures
        r == spec_ms_to_ticks(ms),
{
    let wide: u128 = ms as u128 * 960 / 1000;
    if wide > u64::MAX as u128 {
        u64::MAX
    } else {
        wide as u64
    }
}

/// Converts a tick count to milliseconds, rounding down and saturating
/// at the largest count.
pub fn ticks_to_ms(ticks: u64) -> (r: u64)
    ensures
        r as int == if (ticks as int) * 1000 / 960 > u64::MAX {
            u64::MAX as int
        } else {
            (ticks as int) * 1000 / 960
        },
{
    let wide: u128 = ticks as u128 * 1000 / 960;
    if wide > u64::MAX as u128 {
        u64::MAX
    } else {
        wide as u64
    }
}

fn lead_name() -> (r: String)
    ensures
        r@ =~= seq!['L', 'e', 'a', 'd'],
{
    proof {
        reveal_strlit("Lead");
    }
    "Lead".to_owned()
}

fn bass_name() -> (r: String)
    ensures
        r@ =~= seq!['B', 'a', 's', 's'],
{
    proof {
        reveal_strlit("Bass");
    }
    "Bass".to_owned()
}

fn drums_name() -> (r: String)
    ensures
        r@ =~= seq!['D', 'r', 'u', 'm', 's'],
{
    proof {
        reveal_strlit("Drums");
    }
    "Drums".to_owned()
}

fn pads_name() -> (r: String)
    ensures
        r@ =~= seq!['P', 'a', 'd', 's'],
{
    proof {
        reveal_strlit("Pads");
    }
    "Pads".to_owned()
}

} // verus!
