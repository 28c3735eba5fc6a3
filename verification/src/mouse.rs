//! Pointer dispatch over the instrument's face: hit-testing the keys,
//! tangents, faders, buttons and track rows, and carrying out the state
//! change each region stands for.
//!
//! Every region is a fixed rectangle of the 575-by-496 face.  What a hit
//! decides is returned to the caller where it needs an outside effect —
//! playing a note, stopping the audio, or a file transfer.

use vstd::prelude::*;
use crate::music_theory::Note;
use crate::state::{MouseState, RecordingState, State, spec_key_press_recorded};

verus! {

/// Whether the pointer sits inside a rectangle, borders included.
pub open spec fn spec_hit(m: MouseState, x: int, y: int, w: int, h: int) -> bool {
    x <= m.x <= x + w && y <= m.y <= y + h
}

fn hit(m: &MouseState, x: i32, y: i32, w: i32, h: i32) -> (r: bool)
    requires
        0 <= x <= 1000,
        0 <= y <= 1000,
        0 <= w <= 1000,
        0 <= h <= 1000,
    ensures
        r == spec_hit(*m, x as int, y as int, w as int, h as int),
{
    m.x >= x && m.x <= x + w && m.y >= y && m.y <= y + h
}

/// The tangent the pointer sits on, if any: five 30-by-96 rectangles
/// centred on the key boundaries of the 64-pixel-wide keys, on the key
/// row at 288.
pub open spec fn spec_tangent_hit(m: MouseState) -> Option<Note> {
    if spec_hit(m, 2int * 64 - 15, 288, 30, 96) {
        Some(Note::CSharp)
    } else if spec_hit(m, 3int * 64 - 15, 288, 30, 96) {
        Some(Note::DSharp)
    } else if spec_hit(m, 5int * 64 - 15, 288, 30, 96) {
        Some(Note::FSharp)
    } else if spec_hit(m, 6int * 64 - 15, 288, 30, 96) {
        Some(Note::GSharp)
    } else if spec_hit(m, 7int * 64 - 15, 288, 30, 96) {
        Some(Note::ASharp)
    } else {
        None
    }
}

/// A click on a tangent sounds its sharp: the note is marked pressed and
/// recorded while recording, and handed back for the caller to play.
/// Without a click on a tangent nothing changes.
pub fn handle_tangent_mouse(state: &mut State, now_ms: u64) -> (r: Option<Note>)
    requires
        old(state).wf(),
    ensures
        final(state).wf(),
        r == if old(state).mouse.left_clicked {
            spec_tangent_hit(old(state).mouse)
        } else {
            None::<Note>
        },
        r matches Some(n) ==> final(state).pressed_note == Some(n) && spec_key_press_recorded(
            *old(state),
            *final(state),
            n,
            old(state).spec_current_track().octave,
            now_ms,
        ),
        r is None ==> *final(state) == *old(state),
{
    if !state.mouse.left_clicked {
        return None;
    }
    let m = state.mouse;
    let note = if hit(&m, 2 * 64 - 15, 288, 30, 96) {
        Note::CSharp
    } else if hit(&m, 3 * 64 - 15, 288, 30, 96) {
        Note::DSharp
    } else if hit(&m, 5 * 64 - 15, 288, 30, 96) {
        Note::FSharp
    } else if hit(&m, 6 * 64 - 15, 288, 30, 96) {
        Note::GSharp
    } else if hit(&m, 7 * 64 - 15, 288, 30, 96) {
        Note::ASharp
    } else {
        return None;
    };
    state.record_key_press(note, now_ms);
    Some(note)
}

/// The white key the pointer sits on, if any: seven 64-by-144 keys from
/// position 1, on the key row at 288.
pub open spec fn spec_white_key_hit(m: MouseState) -> Option<Note> {
    if spec_hit(m, 1int * 64, 288, 64, 144) {
        Some(Note::C)
    } else if spec_hit(m, 2int * 64, 288, 64, 144) {
        Some(Note::D)
    } else if spec_hit(m, 3int * 64, 288, 64, 144) {
        Some(Note::E)
    } else if spec_hit(m, 4int * 64, 288, 64, 144) {
        Some(Note::F)
    } else if spec_hit(m, 5int * 64, 288, 64, 144) {
        Some(Note::G)
    } else if spec_hit(m, 6int * 64, 288, 64, 144) {
        Some(Note::A)
    } else if spec_hit(m, 7int * 64, 288, 64, 144) {
        Some(Note::B)
    } else {
        None
    }
}

/// A click on a white key sounds it, exactly as a tangent click does.
/// The caller must try the tangents first: they lie over the keys.
pub fn handle_keyboard_mouse(state: &mut State, now_ms: u64) -> (r: Option<Note>)
    requires
        old(state).wf(),
    ensures
        final(state).wf(),
        r == if old(state).mouse.left_clicked {
            spec_white_key_hit(old(state).mouse)
        } else {
            None::<Note>
        },
        r matches Some(n) ==> final(state).pressed_note == Some(n) && spec_key_press_recorded(
            *old(state),
            *final(state),
            n,
            old(state).spec_current_track().octave,
            now_ms,
        ),
        r is None ==> *final(state) == *old(state),
{
    if !state.mouse.left_clicked {
        return None;
    }
    let m = state.mouse;
    let note = if hit(&m, 1 * 64, 288, 64, 144) {
        Note::C
    } else if hit(&m, 2 * 64, 288, 64, 144) {
        Note::D
    } else if hit(&m, 3 * 64, 288, 64, 144) {
        Note::E
    } else if hit(&m, 4 * 64, 288, 64, 144) {
        Note::F
    } else if hit(&m, 5 * 64, 288, 64, 144) {
        Note::G
    } else if hit(&m, 6 * 64, 288, 64, 144) {
        Note::A
    } else if hit(&m, 7 * 64, 288, 64, 144) {
        Note::B
    } else {
        return None;
    };
    state.record_key_press(note, now_ms);
    Some(note)
}

/// The envelope fader under the pointer and the 0..=99 value its height
/// there stands for.  The four 25-by-50 faders start at 432, 221, thirty
/// pixels apart; the top of a fader is 99.
pub open spec fn spec_adsr_fader_hit(m: MouseState) -> Option<(int, u8)> {
    if spec_hit(m, 432, 221, 25, 50) {
        Some((0, spec_fader_value(m.y as int)))
    } else if spec_hit(m, 462, 221, 25, 50) {
        Some((1, spec_fader_value(m.y as int)))
    } else if spec_hit(m, 492, 221, 25, 50) {
        Some((2, spec_fader_value(m.y as int)))
    } else if spec_hit(m, 522, 221, 25, 50) {
        Some((3, spec_fader_value(m.y as int)))
    } else {
        None
    }
}

/// The 0..=99 value of a pointer height on a fader: full at the top edge,
/// zero at the bottom.
pub open spec fn spec_fader_value(my: int) -> u8 {
    (((271 - my) * 99) / 50) as u8
}

fn fader_value(my: i32) -> (r: u8)
    requires
        221 <= my <= 271,
    ensures
        r == spec_fader_value(my as int),
        r <= 99,
{
    (((271 - my) * 99) / 50) as u8
}

/// A click or drag on an envelope fader sets that parameter of the
/// current track to the height under the pointer; outside the faders
/// nothing changes.
pub fn handle_adsr_fader_mouse(state: &mut State)
    requires
        old(state).wf(),
    ensures
        final(state).wf(),
        ({
            let active = old(state).mouse.left_clicked || old(state).mouse.dragging;
            let t0 = old(state).spec_current_track();
            let t1 = final(state).tracks@[old(state).current_track_id as int];
            match spec_adsr_fader_hit(old(state).mouse) {
                Some((fader, value)) => if active {
                    if fader == 0 {
                        t1 == (crate::state::Track { attack: value, ..t0 })
                    } else if fader == 1 {
                        t1 == (crate::state::Track { decay: value, ..t0 })
                    } else if fader == 2 {
                        t1 == (crate::state::Track { sustain: value, ..t0 })
                    } else {
                        t1 == (crate::state::Track { release: value, ..t0 })
                    }
                } else {
                    *final(state) == *old(state)
                },
                None => *final(state) == *old(state),
            }
        }),
        crate::state::spec_same_but_track(
            *old(state),
            *final(state),
            old(state).current_track_id as int,
        ),
        crate::state::spec_same_transport(*old(state), *final(state)),
{
    if !(state.mouse.left_clicked || state.mouse.dragging) {
        return ;
    }
    let m = state.mouse;
    let id = state.current_track_id;
    if hit(&m, 432, 221, 25, 50) {
        let value = fader_value(m.y);
        let track = &mut state.tracks[id];
        track.attack = value;
    } else if hit(&m, 462, 221, 25, 50) {
        let value = fader_value(m.y);
        let track = &mut state.tracks[id];
        track.decay = value;
    } else if hit(&m, 492, 221, 25, 50) {
        let value = fader_value(m.y);
        let track = &mut state.tracks[id];
        track.sustain = value;
    } else if hit(&m, 522, 221, 25, 50) {
        let value = fader_value(m.y);
        let track = &mut state.tracks[id];
        track.release = value;
    }
}

/// A click on the octave fader, at 517, 288, 28 wide and 143 tall:
/// the upper half raises the current track's octave, the lower half
/// lowers it.
pub fn handle_octave_fader_mouse(state: &mut State)
    requires
        old(state).wf(),
    ensures
        final(state).wf(),
        ({
            let clicked = old(state).mouse.left_clicked && spec_hit(
                old(state).mouse,
                517,
                288,
                28,
                143,
            );
            let t0 = old(state).spec_current_track();
            let t1 = final(state).tracks@[old(state).current_track_id as int];
            if clicked {
                if old(state).mouse.y < 288 + 71 {
                    t1.octave == crate::effects::spec_clamp_to(
                        t0.octave + 1,
                        crate::music_theory::OCTAVE_LOWER_BOUND as int,
                        crate::music_theory::OCTAVE_UPPER_BOUND as int,
                    )
                } else {
                    t1.octave == crate::effects::spec_clamp_to(
                        t0.octave - 1,
                        crate::music_theory::OCTAVE_LOWER_BOUND as int,
                        crate::music_theory::OCTAVE_UPPER_BOUND as int,
                    )
                }
            } else {
                *final(state) == *old(state)
            }
        }),
        crate::state::spec_same_but_track(
            *old(state),
            *final(state),
            old(state).current_track_id as int,
        ),
        crate::state::spec_same_transport(*old(state), *final(state)),
{
    if !state.mouse.left_clicked {
        return ;
    }
    let m = state.mouse;
    if hit(&m, 517, 288, 28, 143) {
        if m.y < 288 + 71 {
            state.increase_current_track_octave();
        } else {
            state.decrease_current_track_octave();
        }
    }
}

/// A click on the waveform display, at 164, 221, 164 by 51, cycles the
/// current track's waveform.
pub fn handle_waveform_display_mouse(state: &mut State)
    requires
        old(state).wf(),
    ensures
        final(state).wf(),
        ({
            let clicked = old(state).mouse.left_clicked && spec_hit(
                old(state).mouse,
                164,
                221,
                164,
                51,
            );
            let t0 = old(state).spec_current_track();
            let t1 = final(state).tracks@[old(state).current_track_id as int];
            if clicked {
                t1 == (crate::state::Track { waveform: t0.waveform.spec_next(), ..t0 })
            } else {
                *final(state) == *old(state)
            }
        }),
        crate::state::spec_same_but_track(
            *old(state),
            *final(state),
            old(state).current_track_id as int,
        ),
        crate::state::spec_same_transport(*old(state), *final(state)),
{
    if !state.mouse.left_clicked {
        return ;
    }
    let m = state.mouse;
    if hit(&m, 164, 221, 164, 51) {
        state.toggle_current_track_waveform();
    }
}

/// The effect button under the pointer: three 30-by-20 buttons at 331,
/// 236, thirty-three pixels apart, for delay, reverb and flanger.
pub open spec fn spec_effect_button_hit(m: MouseState) -> Option<int> {
    if spec_hit(m, 331, 236, 30, 20) {
        Some(0)
    } else if spec_hit(m, 364, 236, 30, 20) {
        Some(1)
    } else if spec_hit(m, 397, 236, 30, 20) {
        Some(2)
    } else {
        None
    }
}

/// A click on an effect button flips that effect of the current track,
/// zeroing its stored signal when the flip disables it.
pub fn handle_effects_buttons_mouse(state: &mut State)
    requires
        old(state).wf(),
    ensures
        final(state).wf(),
        ({
            let t0 = old(state).spec_current_track();
            let t1 = final(state).tracks@[old(state).current_track_id as int];
            if old(state).mouse.left_clicked {
                match spec_effect_button_hit(old(state).mouse) {
                    Some(button) => if button == 0 {
                        t1.delay_enabled == !t0.delay_enabled && (!t1.delay_enabled
                            ==> t1.delay_effect.spec_silent())
                    } else if button == 1 {
                        t1.reverb_enabled == !t0.reverb_enabled && (!t1.reverb_enabled
                            ==> t1.reverb_effect.spec_silent())
                    } else {
                        t1.flanger_enabled == !t0.flanger_enabled && (!t1.flanger_enabled
                            ==> t1.flanger_effect.spec_silent())
                    },
                    None => *final(state) == *old(state),
                }
            } else {
                *final(state) == *old(state)
            }
        }),
        crate::state::spec_same_but_track(
            *old(state),
            *final(state),
            old(state).current_track_id as int,
        ),
        crate::state::spec_same_transport(*old(state), *final(state)),
{
    if !state.mouse.left_clicked {
        return ;
    }
    let m = state.mouse;
    if hit(&m, 331, 236, 30, 20) {
        crate::input::EffectsToggleCommand::new_delay().execute(state);
    } else if hit(&m, 364, 236, 30, 20) {
        crate::input::EffectsToggleCommand::new_reverb().execute(state);
    } else if hit(&m, 397, 236, 30, 20) {
        crate::input::EffectsToggleCommand::new_flanger().execute(state);
    }
}

/// A file transfer the interface asks the shell for.
#[derive(Debug, PartialEq, Eq, Structural, Clone, Copy)]
pub enum MidiRequest {
    ExportCurrentTrack,
    ImportCurrentTrack,
}

/// The file-transfer buttons: two 40-by-20 buttons at 552 and 602 on the
/// button row.  A click decides the request; the shell moves the bytes.
pub fn handle_midi_buttons_mouse(state: &State) -> (r: Option<MidiRequest>)
    requires
        state.wf(),
    ensures
        r == if state.mouse.left_clicked {
            if spec_hit(state.mouse, 552, 236, 40, 20) {
                Some(MidiRequest::ExportCurrentTrack)
            } else if spec_hit(state.mouse, 602, 236, 40, 20) {
                Some(MidiRequest::ImportCurrentTrack)
            } else {
                None::<MidiRequest>
            }
        } else {
            None::<MidiRequest>
        },
{
    if !state.mouse.left_clicked {
        return None;
    }
    let m = state.mouse;
    if hit(&m, 552, 236, 40, 20) {
        Some(MidiRequest::ExportCurrentTrack)
    } else if hit(&m, 602, 236, 40, 20) {
        Some(MidiRequest::ImportCurrentTrack)
    } else {
        None
    }
}

/// The region of a track row the pointer sits on: its record, play or
/// stop button, or its name.  The four rows start at 10, 10, twenty-five
/// pixels apart; the transport buttons are sixteen pixels square at 90,
/// 110 and 130, and the name area is the first 75 pixels.
#[derive(Debug, PartialEq, Eq, Structural, Clone, Copy)]
pub enum TrackRegion {
    Record,
    Play,
    Stop,
    Name,
}

/// The track row and region under the pointer, if any.
pub open spec fn spec_track_region_hit(m: MouseState, track: int) -> Option<TrackRegion> {
    let row_y = 10 + track * 25;
    if spec_hit(m, 90, row_y + 2, 16, 16) {
        Some(TrackRegion::Record)
    } else if spec_hit(m, 110, row_y + 2, 16, 16) {
        Some(TrackRegion::Play)
    } else if spec_hit(m, 130, row_y + 2, 16, 16) {
        Some(TrackRegion::Stop)
    } else if spec_hit(m, 10, row_y, 75, 20) {
        Some(TrackRegion::Name)
    } else {
        None
    }
}

fn track_region_hit(m: &MouseState, track: usize) -> (r: Option<TrackRegion>)
    requires
        track < 4,
    ensures
        r == spec_track_region_hit(*m, track as int),
{
    let row_y = 10 + track as i32 * 25;
    if hit(m, 90, row_y + 2, 16, 16) {
        Some(TrackRegion::Record)
    } else if hit(m, 110, row_y + 2, 16, 16) {
        Some(TrackRegion::Play)
    } else if hit(m, 130, row_y + 2, 16, 16) {
        Some(TrackRegion::Stop)
    } else if hit(m, 10, row_y, 75, 20) {
        Some(TrackRegion::Name)
    } else {
        None
    }
}

/// The first track row and region the pointer hits, scanning the four
/// rows top to bottom.
pub open spec fn spec_track_row_hit(m: MouseState) -> Option<(int, TrackRegion)> {
    if spec_track_region_hit(m, 0) is Some {
        Some((0int, spec_track_region_hit(m, 0)->0))
    } else if spec_track_region_hit(m, 1) is Some {
        Some((1int, spec_track_region_hit(m, 1)->0))
    } else if spec_track_region_hit(m, 2) is Some {
        Some((2int, spec_track_region_hit(m, 2)->0))
    } else if spec_track_region_hit(m, 3) is Some {
        Some((3int, spec_track_region_hit(m, 3)->0))
    } else {
        None
    }
}

/// What a click on track `t`'s record button does: the track is
/// selected; from Stopped the track's loop is cleared and recording onto
/// it begins; from Recording the session stops, closing any held note
/// onto the session list; from Playing playback stops and recording onto
/// the cleared track begins.
pub open spec fn spec_record_click(a: State, b: State, t: int, now_ms: u64) -> bool {
    match a.recording_state {
        RecordingState::Stopped => {
            &&& b == (State {
                current_track_id: t as usize,
                recording_state: RecordingState::Recording,
                recording_start_time: Some(now_ms),
                current_note_start: None,
                tracks: b.tracks,
                ..a
            })
            &&& b.tracks@ == a.tracks@.update(
                t,
                (crate::state::Track { recorded_notes: b.tracks@[t].recorded_notes, ..a.tracks@[t] }),
            )
            &&& b.tracks@[t].recorded_notes@.len() == 0
        },
        RecordingState::Recording => {
            &&& b == (State {
                current_track_id: t as usize,
                recording_state: RecordingState::Stopped,
                recording_start_time: None,
                current_note_start: None,
                recorded_notes: b.recorded_notes,
                ..a
            })
            &&& (a.current_note_start matches Some((st, n, o)) ==> b.recorded_notes@
                == a.recorded_notes@.push(
                crate::state::spec_close_held_note(st, n, o, a.recording_start_time, now_ms),
            ))
            &&& (a.current_note_start is None ==> b.recorded_notes@ == a.recorded_notes@)
        },
        RecordingState::Playing => {
            &&& b == (State {
                current_track_id: t as usize,
                recording_state: RecordingState::Recording,
                recording_start_time: Some(now_ms),
                playback_start_time: None,
                current_note_start: None,
                tracks: b.tracks,
                ..a
            })
            &&& b.tracks@ == a.tracks@.update(
                t,
                (crate::state::Track { recorded_notes: b.tracks@[t].recorded_notes, ..a.tracks@[t] }),
            )
            &&& b.tracks@[t].recorded_notes@.len() == 0
        },
    }
}

/// What a click on track `t`'s play button does: with notes in the loop
/// the track's playing flag flips; the session enters playing mode when
/// any loop is then armed with notes and was not already playing, and
/// leaves it when none is.  An empty track changes nothing.
/// The track list with track `t`'s playing flag flipped.
pub open spec fn spec_play_flipped(a: State, t: int) -> Seq<crate::state::Track> {
    a.tracks@.update(
        t,
        (crate::state::Track { playing: !a.tracks@[t].playing, ..a.tracks@[t] }),
    )
}

/// Whether any of the four tracks is armed to play and holds notes.
pub open spec fn spec_any_armed(tracks: Seq<crate::state::Track>) -> bool {
    exists|j: int|
        0 <= j < 4 && (#[trigger] tracks[j]).playing && tracks[j].recorded_notes@.len() > 0
}

pub open spec fn spec_play_click(a: State, b: State, t: int, now_ms: u64) -> bool {
    if a.tracks@[t].recorded_notes@.len() == 0 {
        b == a
    } else {
        &&& b.tracks@ == spec_play_flipped(a, t)
        &&& if spec_any_armed(spec_play_flipped(a, t)) {
            if a.recording_state == RecordingState::Playing {
                b == (State { tracks: b.tracks, ..a })
            } else {
                b == (State {
                    tracks: b.tracks,
                    recording_state: RecordingState::Playing,
                    playback_start_time: Some(now_ms),
                    ..a
                })
            }
        } else {
            b == (State {
                tracks: b.tracks,
                recording_state: RecordingState::Stopped,
                playback_start_time: None,
                ..a
            })
        }
    }
}

/// What a click on a stop button does: recording and playback stop (a
/// held note is closed onto the session list), every track's loop stops,
/// the sounding note and its fade are cleared, and the stop button
/// lights up.
pub open spec fn spec_stop_click(a: State, b: State, now_ms: u64) -> bool {
    &&& b == (State {
        recording_state: RecordingState::Stopped,
        recording_start_time: None,
        playback_start_time: None,
        current_note_start: None,
        recorded_notes: b.recorded_notes,
        tracks: b.tracks,
        pressed_note: None,
        current_frequency: None,
        key_release_time: None,
        stop_button_glow_time: Some(now_ms),
        ..a
    })
    &&& b.tracks@.len() == 4
    &&& forall|j: int|
        0 <= j < 4 ==> #[trigger] b.tracks@[j] == (crate::state::Track {
            playing: false,
            ..a.tracks@[j]
        })
    &&& (a.current_note_start matches Some((st, n, o)) ==> b.recorded_notes@
        == a.recorded_notes@.push(
        crate::state::spec_close_held_note(st, n, o, a.recording_start_time, now_ms),
    ))
    &&& (a.current_note_start is None ==> b.recorded_notes@ == a.recorded_notes@)
}

/// A click on a track row drives that track's transport.  The record
/// button selects the track and toggles recording onto it; the play
/// button toggles the track's loop when it has notes, entering or
/// leaving playing mode as loops start and stop; the stop button halts
/// everything; the name selects the track.  The result says whether the
/// shell must silence the audio device, which holds exactly for a stop
/// button.
pub fn handle_track_selection_mouse(state: &mut State, now_ms: u64) -> (stop_audio: bool)
    requires
        old(state).wf(),
    ensures
        final(state).wf(),
        !old(state).mouse.left_clicked ==> *final(state) == *old(state) && !stop_audio,
        old(state).mouse.left_clicked ==> match spec_track_row_hit(old(state).mouse) {
            None => *final(state) == *old(state) && !stop_audio,
            Some((t, region)) => match region {
                TrackRegion::Record => spec_record_click(*old(state), *final(state), t, now_ms)
                    && !stop_audio,
                TrackRegion::Play => spec_play_click(*old(state), *final(state), t, now_ms)
                    && !stop_audio,
                TrackRegion::Stop => spec_stop_click(*old(state), *final(state), now_ms)
                    && stop_audio,
                TrackRegion::Name => *final(state) == (State {
                    current_track_id: t as usize,
                    ..*old(state)
                }) && !stop_audio,
            },
        },
{
    if !state.mouse.left_clicked {
        return false;
    }
    let m = state.mouse;
    let mut i: usize = 0;
    while i < 4
        invariant
            state.wf(),
            old(state).mouse.left_clicked,
            *state == *old(state),
            m == old(state).mouse,
            i <= 4,
            forall|j: int| 0 <= j < i ==> spec_track_region_hit(m, j) is None,
        decreases 4 - i,
    {
        let region = track_region_hit(&m, i);
        proof {
            if region is Some {
                assert(spec_track_row_hit(m) == Some((i as int, region->0)));
            }
        }
        match region {
            Some(TrackRegion::Record) => {
                state.switch_to_track(i);
                match state.recording_state {
                    RecordingState::Stopped => {
                        state.start_track_recording(now_ms);
                    },
                    RecordingState::Recording => {
                        state.stop_recording(now_ms);
                    },
                    RecordingState::Playing => {
                        state.stop_playback();
                        state.start_track_recording(now_ms);
                    },
                }
                return false;
            },
            Some(TrackRegion::Play) => {
                if state.tracks[i].recorded_notes.len() > 0 {
                    let ghost before = *state;
                    proof {
                        assert(old(state).tracks@[i as int].recorded_notes@.len() > 0);
                    }
                    let track = &mut state.tracks[i];
                    track.playing = !track.playing;
                    proof {
                        assert(state.tracks@ =~= before.tracks@.update(
                            i as int,
                            (crate::state::Track {
                                playing: !before.tracks@[i as int].playing,
                                ..before.tracks@[i as int]
                            }),
                        ));
                    }
                    let any = state.has_playing_tracks();
                    proof {
                        let flipped = spec_play_flipped(*old(state), i as int);
                        assert(state.tracks@ == flipped);
                        if any {
                            let j = choose|j: int|
                                0 <= j < 4 && (#[trigger] state.tracks@[j]).playing
                                    && state.tracks@[j].recorded_notes@.len() > 0;
                            assert(flipped[j] == state.tracks@[j]);
                            assert(spec_any_armed(flipped));
                        }
                        if spec_any_armed(flipped) {
                            let j = choose|j: int|
                                0 <= j < 4 && (#[trigger] flipped[j]).playing
                                    && flipped[j].recorded_notes@.len() > 0;
                            assert(state.tracks@[j] == flipped[j]);
                            assert(any);
                        }
                    }
                    if any {
                        if !matches!(state.recording_state, RecordingState::Playing) {
                            state.recording_state = RecordingState::Playing;
                            state.playback_start_time = Some(now_ms);
                        }
                    } else {
                        state.stop_playback();
                    }
                    proof {
                        let a = *old(state);
                        let flipped = spec_play_flipped(a, i as int);
                        assert(state.tracks@ == flipped);
                        if spec_any_armed(flipped) {
                            if a.recording_state == RecordingState::Playing {
                                assert(*state == (State { tracks: state.tracks, ..a }));
                            } else {
                                assert(*state == (State {
                                    tracks: state.tracks,
                                    recording_state: RecordingState::Playing,
                                    playback_start_time: Some(now_ms),
                                    ..a
                                }));
                            }
                        } else {
                            assert(*state == (State {
                                tracks: state.tracks,
                                recording_state: RecordingState::Stopped,
                                playback_start_time: None,
                                ..a
                            }));
                        }
                        assert(spec_play_click(a, *state, i as int, now_ms));
                    }
                }
                return false;
            },
            Some(TrackRegion::Stop) => {
                state.stop_recording(now_ms);
                state.stop_playback();
                state.stop_all_track_playback();
                state.pressed_note = None;
                state.current_frequency = None;
                state.key_release_time = None;
                state.stop_button_glow_time = Some(now_ms);
                return true;
            },
            Some(TrackRegion::Name) => {
                state.switch_to_track(i);
                return false;
            },
            None => {},
        }
        i = i + 1;
    }
    false
}

} // verus!
