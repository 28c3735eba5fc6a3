//! Input handling: the commands the keys and the pointer dispatch, the
//! keyboard layout tables, and the per-frame state updaters.
//!
//! The window and pointer plumbing lives outside; the commands here take
//! the decoded values — which key, where the pointer is, the time in
//! milliseconds — and carry out the state change they stand for.

use vstd::prelude::*;
use vstd::string::StringSliceAdditionalSpecFns;
use crate::music_theory::Note;
use crate::state::{State, RecordingState, spec_same_but_track};
use crate::effects::spec_clamp_to;

verus! {

/// Sprite index of each pitch class in the note sheet.
pub const NOTE_A: usize = 0;

pub const NOTE_A_SHARP: usize = 1;

pub const NOTE_B: usize = 2;

pub const NOTE_C: usize = 3;

pub const NOTE_C_SHARP: usize = 4;

pub const NOTE_D: usize = 5;

pub const NOTE_D_SHARP: usize = 6;

pub const NOTE_E: usize = 7;

pub const NOTE_F: usize = 8;

pub const NOTE_F_SHARP: usize = 9;

pub const NOTE_G: usize = 10;

pub const NOTE_G_SHARP: usize = 11;

/// The sprite index of a pitch class in the note sheet.
pub open spec fn spec_note_sprite_index(note: Note) -> usize {
    match note {
        Note::A => 0,
        Note::ASharp => 1,
        Note::B => 2,
        Note::C => 3,
        Note::CSharp => 4,
        Note::D => 5,
        Note::DSharp => 6,
        Note::E => 7,
        Note::F => 8,
        Note::FSharp => 9,
        Note::G => 10,
        Note::GSharp => 11,
    }
}

/// The keyboard position of a pitch class: the white key it sounds on,
/// or, for a sharp, the white key its tangent sits left of.
pub open spec fn spec_key_position(note: Note) -> usize {
    match note {
        Note::C => 1,
        Note::CSharp => 1,
        Note::D => 2,
        Note::DSharp => 2,
        Note::E => 3,
        Note::F => 4,
        Note::FSharp => 4,
        Note::G => 5,
        Note::GSharp => 5,
        Note::A => 6,
        Note::ASharp => 6,
        Note::B => 7,
    }
}

/// The position of a musical note on the keyboard.
pub fn get_key_position(note: &Note) -> (r: Option<usize>)
    ensures
        r == Some(spec_key_position(*note)),
{
    Some(
        match note {
            Note::C => 1,
            Note::CSharp => 1,
            Note::D => 2,
            Note::DSharp => 2,
            Note::E => 3,
            Note::F => 4,
            Note::FSharp => 4,
            Note::G => 5,
            Note::GSharp => 5,
            Note::A => 6,
            Note::ASharp => 6,
            Note::B => 7,
        },
    )
}

/// The sprite index for a musical note.
pub fn get_note_sprite_index(note: &Note) -> (r: Option<usize>)
    ensures
        r == Some(spec_note_sprite_index(*note)),
{
    Some(
        match note {
            Note::A => 0,
            Note::ASharp => 1,
            Note::B => 2,
            Note::C => 3,
            Note::CSharp => 4,
            Note::D => 5,
            Note::DSharp => 6,
            Note::E => 7,
            Note::F => 8,
            Note::FSharp => 9,
            Note::G => 10,
            Note::GSharp => 11,
        },
    )
}

/// Builds the map from tangent keyboard positions to the note sprite
/// indices of the sharps that sit there.
pub fn create_tangent_map() -> (r: std::collections::HashMap<i32, usize>)
    ensures
        r@ == map![2i32 => 4usize, 3i32 => 6usize, 5i32 => 9usize, 6i32 => 11usize, 7i32 => 1usize],
{
    broadcast use vstd::std_specs::hash::group_hash_axioms;

    let mut tangent_map: std::collections::HashMap<i32, usize> =
        std::collections::HashMap::new();
    tangent_map.insert(2, NOTE_C_SHARP);
    tangent_map.insert(3, NOTE_D_SHARP);
    tangent_map.insert(5, NOTE_F_SHARP);
    tangent_map.insert(6, NOTE_G_SHARP);
    tangent_map.insert(7, NOTE_A_SHARP);
    proof {
        assert(tangent_map@ =~= map![
            2i32 => 4usize,
            3i32 => 6usize,
            5i32 => 9usize,
            6i32 => 11usize,
            7i32 => 1usize,
        ]);
    }
    tangent_map
}

/// A command that nudges one envelope parameter of the current track up
/// or down.
#[derive(Debug, PartialEq, Eq, Structural, Clone, Copy)]
pub struct ADSRControlCommand {
    pub parameter: ADSRParameter,
    pub increase: bool,
}

/// The envelope parameter a control command acts on.
#[derive(Debug, PartialEq, Eq, Structural, Clone, Copy)]
pub enum ADSRParameter {
    Attack,
    Decay,
    Sustain,
    Release,
}

impl ADSRControlCommand {
    /// A command on the attack parameter.
    pub fn new_attack(increase: bool) -> (r: ADSRControlCommand)
        ensures
            r == (ADSRControlCommand { parameter: ADSRParameter::Attack, increase }),
    {
        ADSRControlCommand { parameter: ADSRParameter::Attack, increase }
    }

    /// A command on the decay parameter.
    pub fn new_decay(increase: bool) -> (r: ADSRControlCommand)
        ensures
            r == (ADSRControlCommand { parameter: ADSRParameter::Decay, increase }),
    {
        ADSRControlCommand { parameter: ADSRParameter::Decay, increase }
    }

    /// A command on the sustain parameter.
    pub fn new_sustain(increase: bool) -> (r: ADSRControlCommand)
        ensures
            r == (ADSRControlCommand { parameter: ADSRParameter::Sustain, increase }),
    {
        ADSRControlCommand { parameter: ADSRParameter::Sustain, increase }
    }

    /// A command on the release parameter.
    pub fn new_release(increase: bool) -> (r: ADSRControlCommand)
        ensures
            r == (ADSRControlCommand { parameter: ADSRParameter::Release, increase }),
    {
        ADSRControlCommand { parameter: ADSRParameter::Release, increase }
    }

    /// Carries the command out: the chosen parameter of the current
    /// track moves one step, stopping at the ends of 0..=99.
    pub fn execute(&self, state: &mut State)
        requires
            old(state).wf(),
        ensures
            final(state).wf(),
            ({
                let t0 = old(state).spec_current_track();
                let t1 = final(state).tracks@[old(state).current_track_id as int];
                let step: int = if self.increase {
                    1
                } else {
                    -1
                };
                match self.parameter {
                    ADSRParameter::Attack => t1 == (crate::state::Track {
                        attack: spec_clamp_to(t0.attack + step, 0, 99) as u8,
                        ..t0
                    }),
                    ADSRParameter::Decay => t1 == (crate::state::Track {
                        decay: spec_clamp_to(t0.decay + step, 0, 99) as u8,
                        ..t0
                    }),
                    ADSRParameter::Sustain => t1 == (crate::state::Track {
                        sustain: spec_clamp_to(t0.sustain + step, 0, 99) as u8,
                        ..t0
                    }),
                    ADSRParameter::Release => t1 == (crate::state::Track {
                        release: spec_clamp_to(t0.release + step, 0, 99) as u8,
                        ..t0
                    }),
                }
            }),
            spec_same_but_track(*old(state), *final(state), old(state).current_track_id as int),
            crate::state::spec_same_transport(*old(state), *final(state)),
    {
        match (self.parameter, self.increase) {
            (ADSRParameter::Attack, true) => state.increase_current_track_attack(),
            (ADSRParameter::Attack, false) => state.decrease_current_track_attack(),
            (ADSRParameter::Decay, true) => state.increase_current_track_decay(),
            (ADSRParameter::Decay, false) => state.decrease_current_track_decay(),
            (ADSRParameter::Sustain, true) => state.increase_current_track_sustain(),
            (ADSRParameter::Sustain, false) => state.decrease_current_track_sustain(),
            (ADSRParameter::Release, true) => state.increase_current_track_release(),
            (ADSRParameter::Release, false) => state.decrease_current_track_release(),
        }
    }
}

/// A command that switches one effect of the current track on or off,
/// resetting the effect's stored signal whenever it switches off.
#[derive(Debug, PartialEq, Eq, Structural, Clone, Copy)]
pub struct EffectsToggleCommand {
    pub effect_type: EffectType,
}

/// The effect a toggle command acts on.
#[derive(Debug, PartialEq, Eq, Structural, Clone, Copy)]
pub enum EffectType {
    Delay,
    Reverb,
    Flanger,
}

impl EffectsToggleCommand {
    /// A command on the delay.
    pub fn new_delay() -> (r: EffectsToggleCommand)
        ensures
            r.effect_type == EffectType::Delay,
    {
        EffectsToggleCommand { effect_type: EffectType::Delay }
    }

    /// A command on the reverb.
    pub fn new_reverb() -> (r: EffectsToggleCommand)
        ensures
            r.effect_type == EffectType::Reverb,
    {
        EffectsToggleCommand { effect_type: EffectType::Reverb }
    }

    /// A command on the flanger.
    pub fn new_flanger() -> (r: EffectsToggleCommand)
        ensures
            r.effect_type == EffectType::Flanger,
    {
        EffectsToggleCommand { effect_type: EffectType::Flanger }
    }

    /// Carries the command out: the chosen effect's enabled flag flips,
    /// and when the flip disables the effect its stored signal is
    /// zeroed, so no stale tail leaks into a later re-enable.
    pub fn execute(&self, state: &mut State)
        requires
            old(state).wf(),
        ensures
            final(state).wf(),
            ({
                let t0 = old(state).spec_current_track();
                let t1 = final(state).tracks@[old(state).current_track_id as int];
                match self.effect_type {
                    EffectType::Delay => t1 == (crate::state::Track {
                        delay_enabled: !t0.delay_enabled,
                        delay_effect: t1.delay_effect,
                        ..t0
                    }) && (!t1.delay_enabled ==> t1.delay_effect.spec_silent()) && (t1.delay_enabled
                        ==> t1.delay_effect == t0.delay_effect),
                    EffectType::Reverb => t1 == (crate::state::Track {
                        reverb_enabled: !t0.reverb_enabled,
                        reverb_effect: t1.reverb_effect,
                        ..t0
                    }) && (!t1.reverb_enabled ==> t1.reverb_effect.spec_silent()) && (
                    t1.reverb_enabled ==> t1.reverb_effect == t0.reverb_effect),
                    EffectType::Flanger => t1 == (crate::state::Track {
                        flanger_enabled: !t0.flanger_enabled,
                        flanger_effect: t1.flanger_effect,
                        ..t0
                    }) && (!t1.flanger_enabled ==> t1.flanger_effect.spec_silent()) && (
                    t1.flanger_enabled ==> t1.flanger_effect == t0.flanger_effect),
                }
            }),
            spec_same_but_track(*old(state), *final(state), old(state).current_track_id as int),
            crate::state::spec_same_transport(*old(state), *final(state)),
    {
        let id = state.current_track_id;
        match self.effect_type {
            EffectType::Delay => {
                state.toggle_current_track_delay();
                let track = &mut state.tracks[id];
                if !track.delay_enabled {
                    track.delay_effect.reset();
                }
            },
            EffectType::Reverb => {
                state.toggle_current_track_reverb();
                let track = &mut state.tracks[id];
                if !track.reverb_enabled {
                    track.reverb_effect.reset();
                }
            },
            EffectType::Flanger => {
                state.toggle_current_track_flanger();
                let track = &mut state.tracks[id];
                if !track.flanger_enabled {
                    track.flanger_effect.reset();
                }
            },
        }
    }
}

/// A command that moves the current track's octave one step.
#[derive(Debug, PartialEq, Eq, Structural, Clone, Copy)]
pub struct OctaveAdjustCommand {
    pub increase: bool,
}

impl OctaveAdjustCommand {
    /// A command raising or lowering the octave.
    pub fn new(increase: bool) -> (r: OctaveAdjustCommand)
        ensures
            r.increase == increase,
    {
        OctaveAdjustCommand { increase }
    }

    /// Carries the command out, stopping at the octave bounds.
    pub fn execute(&self, state: &mut State)
        requires
            old(state).wf(),
        ensures
            final(state).wf(),
            ({
                let t0 = old(state).spec_current_track();
                let t1 = final(state).tracks@[old(state).current_track_id as int];
                t1 == (crate::state::Track {
                    octave: spec_clamp_to(
                        t0.octave + if self.increase {
                            1int
                        } else {
                            -1
                        },
                        crate::music_theory::OCTAVE_LOWER_BOUND as int,
                        crate::music_theory::OCTAVE_UPPER_BOUND as int,
                    ) as i32,
                    ..t0
                })
            }),
            spec_same_but_track(*old(state), *final(state), old(state).current_track_id as int),
            crate::state::spec_same_transport(*old(state), *final(state)),
    {
        if self.increase {
            state.increase_current_track_octave();
        } else {
            state.decrease_current_track_octave();
        }
    }
}

/// What a track control command does.
#[derive(Debug, PartialEq, Eq, Structural, Clone, Copy)]
pub enum TrackAction {
    SwitchToTrack(usize),
    ToggleMute,
    ToggleSolo,
    VolumeUp,
    VolumeDown,
    PanLeft,
    PanRight,
}

/// A command that selects a track or nudges its volume or pan.
#[derive(Debug, PartialEq, Eq, Structural, Clone, Copy)]
pub struct TrackControlCommand {
    pub action: TrackAction,
}

impl TrackControlCommand {
    /// A command carrying the given action.
    pub fn new(action: TrackAction) -> (r: TrackControlCommand)
        ensures
            r.action == action,
    {
        TrackControlCommand { action }
    }

    /// Carries the action out: selection switches the current track;
    /// the volume moves a tenth and the pan a fifth per step, both
    /// clamped to their ranges; mute and solo do nothing.
    pub fn execute(&self, state: &mut State)
        requires
            old(state).wf(),
        ensures
            final(state).wf(),
            ({
                let t0 = old(state).spec_current_track();
                let t1 = final(state).tracks@[old(state).current_track_id as int];
                match self.action {
                    TrackAction::SwitchToTrack(id) => *final(state) == (State {
                        current_track_id: if id < 4 {
                            id
                        } else {
                            old(state).current_track_id
                        },
                        ..*old(state)
                    }),
                    TrackAction::ToggleMute => *final(state) == *old(state),
                    TrackAction::ToggleSolo => *final(state) == *old(state),
                    TrackAction::VolumeUp => t1 == (crate::state::Track {
                        volume: spec_clamp_to(t0.volume + 100, 0, 1000) as i64,
                        ..t0
                    }),
                    TrackAction::VolumeDown => t1 == (crate::state::Track {
                        volume: spec_clamp_to(t0.volume - 100, 0, 1000) as i64,
                        ..t0
                    }),
                    TrackAction::PanLeft => t1 == (crate::state::Track {
                        pan: spec_clamp_to(t0.pan - 200, -1000, 1000) as i64,
                        ..t0
                    }),
                    TrackAction::PanRight => t1 == (crate::state::Track {
                        pan: spec_clamp_to(t0.pan + 200, -1000, 1000) as i64,
                        ..t0
                    }),
                }
            }),
            !(self.action is SwitchToTrack) ==> spec_same_but_track(
                *old(state),
                *final(state),
                old(state).current_track_id as int,
            ) && crate::state::spec_same_transport(*old(state), *final(state)),
    {
        match self.action {
            TrackAction::SwitchToTrack(track_id) => state.switch_to_track(track_id),
            TrackAction::ToggleMute => (),
            TrackAction::ToggleSolo => (),
            TrackAction::VolumeUp => state.adjust_current_track_volume(100),
            TrackAction::VolumeDown => state.adjust_current_track_volume(-100),
            TrackAction::PanLeft => state.adjust_current_track_pan(-200),
            TrackAction::PanRight => state.adjust_current_track_pan(200),
        }
    }
}

/// A command that cycles the current track's waveform.
#[derive(Debug, PartialEq, Eq, Structural, Clone, Copy)]
pub struct WaveformToggleCommand;

impl WaveformToggleCommand {
    /// Carries the command out: the waveform steps one place along the
    /// cycling order.
    pub fn execute(&self, state: &mut State)
        requires
            old(state).wf(),
        ensures
            final(state).wf(),
            final(state).tracks@[old(state).current_track_id as int].waveform == old(state).spec_current_track().waveform.spec_next(),
            spec_same_but_track(*old(state), *final(state), old(state).current_track_id as int),
            crate::state::spec_same_transport(*old(state), *final(state)),
    {
        state.toggle_current_track_waveform();
    }
}

/// The command behind transport input: it closes held notes when the
/// keys go quiet and ages the key-release fade.
#[derive(Debug, PartialEq, Eq, Structural, Clone, Copy)]
pub struct RecordingControlCommand;

impl RecordingControlCommand {
    /// Registers that no musical key is held at `now_ms`: a sounding
    /// note begins its release fade, and a fade older than the release
    /// time clears the display.  Returns whether the voice must stop at
    /// once, which holds exactly for release settings of ten or less.
    pub fn execute(&self, state: &mut State, any_key_down: bool, now_ms: u64) -> (stop_now: bool)
        requires
            old(state).wf(),
        ensures
            final(state).wf(),
            final(state).tracks == old(state).tracks,
            stop_now == (!any_key_down && old(state).pressed_note is Some && old(state).key_release_time is None && old(state).spec_current_track().release <= 10),
            (!any_key_down && old(state).pressed_note is Some && old(state).key_release_time
                is None) ==> final(state).key_release_time == Some(now_ms),
    {
        let mut stop_now = false;
        if !any_key_down && state.pressed_note.is_some() && state.key_release_time.is_none() {
            if state.tracks[state.current_track_id].release <= 10 {
                stop_now = true;
            }
            self.set_release_time(state, now_ms);
        }
        if let Some(release_time) = state.key_release_time {
            let release = state.tracks[state.current_track_id].release;
            let visual_clear_ms: u64 = {
                let scaled = (release as u64) * 2000 / 99;
                if scaled >= 100 {
                    scaled
                } else {
                    100
                }
            };
            if now_ms > release_time.saturating_add(visual_clear_ms) {
                state.current_frequency = None;
                state.key_release_time = None;
            }
        }
        stop_now
    }

    fn set_release_time(&self, state: &mut State, now_ms: u64)
        requires
            old(state).wf(),
        ensures
            final(state).wf(),
            *final(state) == (State { key_release_time: Some(now_ms), ..*old(state) }),
    {
        state.key_release_time = Some(now_ms);
    }
}

/// The command that folds a pointer report into the session's pointer
/// state: position, click edge, and drag detection.
#[derive(Debug, PartialEq, Eq, Structural, Clone, Copy)]
pub struct MouseInputCommand;

impl MouseInputCommand {
    /// Updates the pointer state from one report: a click is the
    /// pressed edge; a press that began at a drag origin becomes a drag
    /// once the pointer has moved more than three pixels from it; and
    /// releasing the button ends any drag.
    pub fn execute(&self, state: &mut State, x: i32, y: i32, pressed: bool)
        requires
            old(state).wf(),
            -100_000 <= x <= 100_000,
            -100_000 <= y <= 100_000,
            old(state).mouse.drag_start matches Some((sx, sy)) ==> -100_000 <= sx <= 100_000
                && -100_000 <= sy <= 100_000,
        ensures
            final(state).wf(),
            final(state).tracks == old(state).tracks,
            final(state).mouse.x == x,
            final(state).mouse.y == y,
            final(state).mouse.left_pressed == pressed,
            final(state).mouse.left_clicked == (pressed && !old(state).mouse.left_pressed),
            (pressed && !old(state).mouse.left_pressed) ==> final(state).mouse.drag_start == Some(
                (x, y),
            ) && !final(state).mouse.dragging,
            (!pressed) ==> final(state).mouse.drag_start is None && !final(state).mouse.dragging,
            (pressed && old(state).mouse.left_pressed) ==> (old(state).mouse.drag_start matches Some((sx, sy)) ==> final(state).mouse.drag_start == Some(
                (sx, sy),
            ) && final(state).mouse.dragging == (old(state).mouse.dragging || (x - sx) * (x - sx) + (
            y - sy) * (y - sy) > 9)),
    {
        let clicked = pressed && !state.mouse.left_pressed;
        state.mouse.x = x;
        state.mouse.y = y;
        state.mouse.left_clicked = clicked;
        state.mouse.left_pressed = pressed;
        if clicked {
            state.mouse.drag_start = Some((x, y));
            state.mouse.dragging = false;
        } else if pressed {
            if let Some((sx, sy)) = state.mouse.drag_start {
                let dx = x as i64 - sx as i64;
                let dy = y as i64 - sy as i64;
                proof {
                    assert(dx * dx <= 200_000 * 200_000 && dx * dx >= 0) by (nonlinear_arith)
                        requires
                            -200_000 <= dx <= 200_000,
                    ;
                    assert(dy * dy <= 200_000 * 200_000 && dy * dy >= 0) by (nonlinear_arith)
                        requires
                            -200_000 <= dy <= 200_000,
                    ;
                }
                if dx * dx + dy * dy > 9 {
                    state.mouse.dragging = true;
                }
            }
        } else {
            state.mouse.drag_start = None;
            state.mouse.dragging = false;
        }
    }
}

/// A handler that maps browser key codes to note names.
#[derive(Debug, PartialEq, Eq, Structural, Clone, Copy)]
pub struct WasmInputHandler;

impl WasmInputHandler {
    /// A fresh handler.
    pub fn new() -> (r: WasmInputHandler)
        ensures
            r == WasmInputHandler,
    {
        WasmInputHandler
    }

    /// The note name a browser key code plays, for the home-row layout:
    /// the white keys on the letter row and the sharps above them.
    pub fn map_key_to_note(key_code: &str) -> (r: Option<&'static str>)
        ensures
            r is Some <==> spec_key_code_note(key_code.spec_bytes()) is Some,
            r matches Some(name) ==> Note::spec_from_bytes(name.spec_bytes())
                == spec_key_code_note(key_code.spec_bytes()),
    {
        let b = key_code.as_bytes();
        if b.len() != 4 || b[0] != 75 || b[1] != 101 || b[2] != 121 {
            return None;
        }
        let note_names = NoteNames::new();
        match b[3] {
            65 => Some(note_names.c),
            87 => Some(note_names.c_sharp),
            83 => Some(note_names.d),
            69 => Some(note_names.d_sharp),
            68 => Some(note_names.e),
            70 => Some(note_names.f),
            84 => Some(note_names.f_sharp),
            71 => Some(note_names.g),
            89 => Some(note_names.g_sharp),
            72 => Some(note_names.a),
            85 => Some(note_names.a_sharp),
            74 => Some(note_names.b),
            _ => None,
        }
    }
}

/// The pitch class a browser key code stands for, by its bytes: codes
/// "KeyA" through "KeyJ" along the home row, with the sharps on the row
/// above.
pub open spec fn spec_key_code_note(bs: Seq<u8>) -> Option<Note> {
    if bs.len() == 4 && bs[0] == 75 && bs[1] == 101 && bs[2] == 121 {
        match bs[3] {
            65u8 => Some(Note::C),
            87u8 => Some(Note::CSharp),
            83u8 => Some(Note::D),
            69u8 => Some(Note::DSharp),
            68u8 => Some(Note::E),
            70u8 => Some(Note::F),
            84u8 => Some(Note::FSharp),
            71u8 => Some(Note::G),
            89u8 => Some(Note::GSharp),
            72u8 => Some(Note::A),
            85u8 => Some(Note::ASharp),
            74u8 => Some(Note::B),
            _ => None,
        }
    } else {
        None
    }
}

struct NoteNames {
    c: &'static str,
    c_sharp: &'static str,
    d: &'static str,
    d_sharp: &'static str,
    e: &'static str,
    f: &'static str,
    f_sharp: &'static str,
    g: &'static str,
    g_sharp: &'static str,
    a: &'static str,
    a_sharp: &'static str,
    b: &'static str,
}

impl NoteNames {
    fn new() -> (r: NoteNames)
        ensures
            Note::spec_from_bytes(r.c.spec_bytes()) == Some(Note::C),
            Note::spec_from_bytes(r.c_sharp.spec_bytes()) == Some(Note::CSharp),
            Note::spec_from_bytes(r.d.spec_bytes()) == Some(Note::D),
            Note::spec_from_bytes(r.d_sharp.spec_bytes()) == Some(Note::DSharp),
            Note::spec_from_bytes(r.e.spec_bytes()) == Some(Note::E),
            Note::spec_from_bytes(r.f.spec_bytes()) == Some(Note::F),
            Note::spec_from_bytes(r.f_sharp.spec_bytes()) == Some(Note::FSharp),
            Note::spec_from_bytes(r.g.spec_bytes()) == Some(Note::G),
            Note::spec_from_bytes(r.g_sharp.spec_bytes()) == Some(Note::GSharp),
            Note::spec_from_bytes(r.a.spec_bytes()) == Some(Note::A),
            Note::spec_from_bytes(r.a_sharp.spec_bytes()) == Some(Note::ASharp),
            Note::spec_from_bytes(r.b.spec_bytes()) == Some(Note::B),
    {
        proof {
            broadcast use vstd::string::is_ascii_spec_bytes;

            reveal_strlit("C");
            reveal_strlit("C#");
            reveal_strlit("D");
            reveal_strlit("D#");
            reveal_strlit("E");
            reveal_strlit("F");
            reveal_strlit("F#");
            reveal_strlit("G");
            reveal_strlit("G#");
            reveal_strlit("A");
            reveal_strlit("A#");
            reveal_strlit("B");
            assert(vstd::string::is_ascii("C"));
            assert("C".spec_bytes() =~= seq![67u8]);
            assert(vstd::string::is_ascii("C#"));
            assert("C#".spec_bytes() =~= seq![67u8, 35u8]);
            assert(vstd::string::is_ascii("D"));
            assert("D".spec_bytes() =~= seq![68u8]);
            assert(vstd::string::is_ascii("D#"));
            assert("D#".spec_bytes() =~= seq![68u8, 35u8]);
            assert(vstd::string::is_ascii("E"));
            assert("E".spec_bytes() =~= seq![69u8]);
            assert(vstd::string::is_ascii("F"));
            assert("F".spec_bytes() =~= seq![70u8]);
            assert(vstd::string::is_ascii("F#"));
            assert("F#".spec_bytes() =~= seq![70u8, 35u8]);
            assert(vstd::string::is_ascii("G"));
            assert("G".spec_bytes() =~= seq![71u8]);
            assert(vstd::string::is_ascii("G#"));
            assert("G#".spec_bytes() =~= seq![71u8, 35u8]);
            assert(vstd::string::is_ascii("A"));
            assert("A".spec_bytes() =~= seq![65u8]);
            assert(vstd::string::is_ascii("A#"));
            assert("A#".spec_bytes() =~= seq![65u8, 35u8]);
            assert(vstd::string::is_ascii("B"));
            assert("B".spec_bytes() =~= seq![66u8]);
        }
        NoteNames {
            c: "C",
            c_sharp: "C#",
            d: "D",
            d_sharp: "D#",
            e: "E",
            f: "F",
            f_sharp: "F#",
            g: "G",
            g_sharp: "G#",
            a: "A",
            a_sharp: "A#",
            b: "B",
        }
    }
}

/// The per-frame updater of audio display state.
#[derive(Debug, PartialEq, Eq, Structural, Clone, Copy)]
pub struct AudioStateUpdater;

impl AudioStateUpdater {
    /// A fresh updater.
    pub fn new() -> (r: AudioStateUpdater)
        ensures
            r == AudioStateUpdater,
    {
        AudioStateUpdater
    }

    /// Clears the sounding frequency once a release fade is two seconds
    /// old.
    pub fn update(&self, state: &mut State, now_ms: u64)
        requires
            old(state).wf(),
        ensures
            final(state).wf(),
            final(state).tracks == old(state).tracks,
            (old(state).key_release_time matches Some(rt) && now_ms > rt + 2000) ==> final(state).current_frequency is None && final(state).key_release_time is None,
    {
        if let Some(release_time) = state.key_release_time {
            if now_ms > release_time.saturating_add(2000) {
                state.current_frequency = None;
                state.key_release_time = None;
            }
        }
    }
}

/// The per-frame updater of pointer state.
#[derive(Debug, PartialEq, Eq, Structural, Clone, Copy)]
pub struct MouseStateUpdater;

impl MouseStateUpdater {
    /// A fresh updater.
    pub fn new() -> (r: MouseStateUpdater)
        ensures
            r == MouseStateUpdater,
    {
        MouseStateUpdater
    }

    /// Keeps the drag state consistent: with the button up there is no
    /// drag and no drag origin.
    pub fn update(&self, state: &mut State)
        requires
            old(state).wf(),
        ensures
            final(state).wf(),
            final(state).tracks == old(state).tracks,
            !old(state).mouse.left_pressed ==> !final(state).mouse.dragging && final(state).mouse.drag_start is None,
            old(state).mouse.left_pressed ==> final(state).mouse == old(state).mouse,
    {
        if !state.mouse.left_pressed {
            state.mouse.dragging = false;
            state.mouse.drag_start = None;
        }
    }
}

/// The per-frame updater of recording state.
#[derive(Debug, PartialEq, Eq, Structural, Clone, Copy)]
pub struct RecordingStateUpdater;

impl RecordingStateUpdater {
    /// A fresh updater.
    pub fn new() -> (r: RecordingStateUpdater)
        ensures
            r == RecordingStateUpdater,
    {
        RecordingStateUpdater
    }

    /// Closes a note still marked held after recording has stopped,
    /// appending it to the session note list at `now_ms`.
    pub fn update(&self, state: &mut State, now_ms: u64)
        requires
            old(state).wf(),
        ensures
            final(state).wf(),
            final(state).tracks == old(state).tracks,
            old(state).recording_state == RecordingState::Stopped ==> (old(state).current_note_start matches Some((st, n, o)) ==> final(state).recorded_notes@ == old(state).recorded_notes@.push(
                crate::state::spec_close_held_note(
                    st,
                    n,
                    o,
                    old(state).recording_start_time,
                    now_ms,
                ),
            ) && final(state).current_note_start is None),
            !(old(state).recording_state == RecordingState::Stopped && old(state).current_note_start is Some) ==> final(state).recorded_notes == old(state).recorded_notes && final(state).current_note_start == old(state).current_note_start,
    {
        if matches!(state.recording_state, RecordingState::Stopped)
            && state.current_note_start.is_some() {
            if let Some((start_ms, note, octave)) = state.current_note_start {
                let duration_ms = now_ms.saturating_sub(start_ms);
                let timestamp_ms = match state.recording_start_time {
                    Some(rec_start) => start_ms.saturating_sub(rec_start),
                    None => 0,
                };
                state.recorded_notes.push(
                    crate::state::RecordedNote {
                        note,
                        octave,
                        timestamp: crate::state::ms_to_ticks(timestamp_ms),
                        duration: crate::state::ms_to_ticks(duration_ms),
                    },
                );
                state.current_note_start = None;
            }
        }
    }
}

/// The per-frame updater of visual state.
#[derive(Debug, PartialEq, Eq, Structural, Clone, Copy)]
pub struct VisualStateUpdater;

impl VisualStateUpdater {
    /// A fresh updater.
    pub fn new() -> (r: VisualStateUpdater)
        ensures
            r == VisualStateUpdater,
    {
        VisualStateUpdater
    }

    /// Ages the drifting visual notes.
    pub fn update(&self, state: &mut State, now_ms: u64)
        requires
            old(state).wf(),
        ensures
            final(state).wf(),
            final(state).tracks == old(state).tracks,
    {
        state.update_visual_notes(now_ms);
    }
}

} // verus!
