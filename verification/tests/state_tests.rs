use synthesizer::input::{
    create_tangent_map, get_key_position, get_note_sprite_index, ADSRControlCommand,
    EffectsToggleCommand, MouseInputCommand, OctaveAdjustCommand, RecordingStateUpdater,
    TrackAction, TrackControlCommand, WasmInputHandler, WaveformToggleCommand,
};
use synthesizer::mouse::{
    handle_adsr_fader_mouse, handle_keyboard_mouse, handle_midi_buttons_mouse,
    handle_tangent_mouse, handle_track_selection_mouse, handle_waveform_display_mouse,
    MidiRequest,
};
use synthesizer::music_theory::Note;
use synthesizer::scheduler::PlaybackScheduler;
use synthesizer::state::{ms_to_ticks, ticks_to_ms, RecordedNote, RecordingState, State};
use synthesizer::waveforms::Waveform;

fn note(n: Note, octave: i32, timestamp: u64, duration: u64) -> RecordedNote {
    RecordedNote { note: n, octave, timestamp, duration }
}

#[test]
fn volume_clamps_under_repeated_large_steps() {
    let mut state = State::new();
    state.adjust_current_track_volume(i64::MAX);
    assert_eq!(state.current_track().volume, 1000);
    state.adjust_current_track_volume(i64::MIN);
    assert_eq!(state.current_track().volume, 0);
    for _ in 0..5 {
        state.adjust_current_track_volume(100_000);
    }
    assert_eq!(state.current_track().volume, 1000);
    for _ in 0..7 {
        state.adjust_current_track_volume(-100_000);
    }
    assert_eq!(state.current_track().volume, 0);
}

#[test]
fn pan_clamps_under_repeated_large_steps() {
    let mut state = State::new();
    state.adjust_current_track_pan(i64::MAX);
    assert_eq!(state.current_track().pan, 1000);
    state.adjust_current_track_pan(i64::MIN);
    assert_eq!(state.current_track().pan, -1000);
    for _ in 0..5 {
        state.adjust_current_track_pan(100_000);
    }
    assert_eq!(state.current_track().pan, 1000);
    for _ in 0..9 {
        state.adjust_current_track_pan(-100_000);
    }
    assert_eq!(state.current_track().pan, -1000);
}

#[test]
fn octave_stops_at_its_bounds() {
    let mut state = State::new();
    for _ in 0..20 {
        state.increase_current_track_octave();
    }
    assert_eq!(state.current_track().octave, 8);
    for _ in 0..20 {
        state.decrease_current_track_octave();
    }
    assert_eq!(state.current_track().octave, 1);
}

#[test]
fn waveform_cycles_through_all_four() {
    let mut state = State::new();
    assert_eq!(state.current_track().waveform, Waveform::SQUARE);
    state.toggle_current_track_waveform();
    assert_eq!(state.current_track().waveform, Waveform::TRIANGLE);
    state.toggle_current_track_waveform();
    assert_eq!(state.current_track().waveform, Waveform::SAWTOOTH);
    state.toggle_current_track_waveform();
    assert_eq!(state.current_track().waveform, Waveform::SINE);
    state.toggle_current_track_waveform();
    assert_eq!(state.current_track().waveform, Waveform::SQUARE);
}

#[test]
fn recording_clears_notes_and_stop_closes_the_held_note() {
    let mut state = State::new();
    state.recorded_notes.push(note(Note::C, 4, 0, 480));
    state.start_recording(10_000);
    assert_eq!(state.recording_state, RecordingState::Recording);
    assert_eq!(state.recorded_notes.len(), 0);
    state.record_key_press(Note::E, 10_500);
    state.stop_recording(11_500);
    assert_eq!(state.recording_state, RecordingState::Stopped);
    let closed = state.recorded_notes.last().unwrap();
    assert_eq!(closed.note, Note::E);
    assert_eq!(closed.timestamp, ms_to_ticks(500));
    assert_eq!(closed.duration, ms_to_ticks(1000));
}

#[test]
fn playback_needs_an_armed_track_with_notes_to_start() {
    let mut state = State::new();
    // No track armed: nothing happens.
    state.start_playback(0);
    assert_eq!(state.recording_state, RecordingState::Stopped);
    // An armed but empty track is not enough.
    state.tracks[1].playing = true;
    state.start_playback(50);
    assert_eq!(state.recording_state, RecordingState::Stopped);
    // An armed track with notes starts playback.
    state.tracks[1].recorded_notes.push(note(Note::C, 4, 0, 480));
    state.start_playback(123);
    assert_eq!(state.recording_state, RecordingState::Playing);
    assert_eq!(state.playback_start_time, Some(123));
    state.stop_playback();
    assert_eq!(state.recording_state, RecordingState::Stopped);
    assert_eq!(state.playback_start_time, None);
}

#[test]
fn track_recording_records_onto_the_current_track() {
    let mut state = State::new();
    state.switch_to_track(2);
    state.start_track_recording(1000);
    state.record_key_press(Note::G, 1000);
    state.record_key_press(Note::A, 2000);
    let track = &state.tracks[2];
    assert_eq!(track.recorded_notes.len(), 1);
    assert_eq!(track.recorded_notes[0].note, Note::G);
    assert_eq!(track.recorded_notes[0].timestamp, 0);
    assert_eq!(track.recorded_notes[0].duration, ms_to_ticks(1000));
    state.record_key_press(Note::B, 2500);
    let track = &state.tracks[2];
    assert_eq!(track.recorded_notes.len(), 2);
    assert_eq!(track.recorded_notes[1].note, Note::A);
    assert_eq!(track.recorded_notes[1].timestamp, ms_to_ticks(1000));
    assert_eq!(track.recorded_notes[1].duration, ms_to_ticks(500));
    assert!(state.tracks[0].recorded_notes.is_empty());
}

#[test]
fn scheduler_triggers_notes_in_the_loop_window() {
    // Two notes: C4 at 0.0 s for 0.5 s, E4 at 0.6 s for 0.3 s; the loop
    // runs 0.9 s (864 ticks).
    let mut state = State::new();
    state.tracks[0].recorded_notes.push(note(Note::C, 4, 0, 480));
    state.tracks[0].recorded_notes.push(note(Note::E, 4, 576, 288));
    state.tracks[0].playing = true;
    state.recording_state = RecordingState::Playing;
    let mut scheduler = PlaybackScheduler::new();
    assert_eq!(scheduler.loop_duration(&state), 864);
    // First tick at 0.0 s: the first note fires inside the tolerance
    // window.
    let fired = scheduler.tick(&state, 0);
    assert_eq!(fired, vec![(0, 0)]);
    // At 0.05 s nothing new has started.
    let fired = scheduler.tick(&state, 48);
    assert!(fired.is_empty());
    // At 0.65 s the position has passed the second note's start.
    let fired = scheduler.tick(&state, 624);
    assert_eq!(fired, vec![(0, 1)]);
    // Wrapping past 0.9 s re-triggers the note at the loop start.
    let fired = scheduler.tick(&state, 880);
    assert_eq!(fired, vec![(0, 0)]);
}

#[test]
fn scheduler_without_loop_uses_absolute_time() {
    let mut state = State::new();
    state.tracks[1].recorded_notes.push(note(Note::D, 3, 960, 480));
    state.tracks[1].playing = true;
    let mut scheduler = PlaybackScheduler::new();
    // Loop length is the note's end: 1440 ticks.
    assert_eq!(scheduler.loop_duration(&state), 1440);
    let fired = scheduler.tick(&state, 500);
    assert!(fired.is_empty());
    let fired = scheduler.tick(&state, 1000);
    assert_eq!(fired, vec![(1, 0)]);
}

#[test]
fn commands_drive_the_current_track() {
    let mut state = State::new();
    ADSRControlCommand::new_attack(true).execute(&mut state);
    assert_eq!(state.current_track().attack, 1);
    ADSRControlCommand::new_sustain(false).execute(&mut state);
    assert_eq!(state.current_track().sustain, 49);
    OctaveAdjustCommand::new(true).execute(&mut state);
    assert_eq!(state.current_track().octave, 5);
    WaveformToggleCommand.execute(&mut state);
    assert_eq!(state.current_track().waveform, Waveform::TRIANGLE);
    TrackControlCommand::new(TrackAction::VolumeDown).execute(&mut state);
    assert_eq!(state.current_track().volume, 700);
    TrackControlCommand::new(TrackAction::PanRight).execute(&mut state);
    assert_eq!(state.current_track().pan, 200);
    TrackControlCommand::new(TrackAction::SwitchToTrack(3)).execute(&mut state);
    assert_eq!(state.current_track_id, 3);
}

#[test]
fn disabling_an_effect_resets_its_tail() {
    let mut state = State::new();
    EffectsToggleCommand::new_delay().execute(&mut state);
    assert!(state.current_track().delay_enabled);
    // Put some signal into the enabled delay line.
    let id = state.current_track_id;
    state.tracks[id].delay_effect.process_sample(123_456);
    EffectsToggleCommand::new_delay().execute(&mut state);
    assert!(!state.current_track().delay_enabled);
    assert!(state.current_track().delay_effect.buffer.iter().all(|&s| s == 0));
}

#[test]
fn mouse_command_tracks_clicks_and_drags() {
    let mut state = State::new();
    let mouse = MouseInputCommand;
    mouse.execute(&mut state, 10, 20, true);
    assert!(state.mouse.left_clicked);
    assert_eq!(state.mouse.drag_start, Some((10, 20)));
    assert!(!state.mouse.dragging);
    mouse.execute(&mut state, 12, 21, true);
    assert!(!state.mouse.left_clicked);
    assert!(!state.mouse.dragging);
    mouse.execute(&mut state, 20, 30, true);
    assert!(state.mouse.dragging);
    mouse.execute(&mut state, 20, 30, false);
    assert!(!state.mouse.dragging);
    assert_eq!(state.mouse.drag_start, None);
}

#[test]
fn key_layout_maps_notes_to_positions_and_sprites() {
    assert_eq!(get_key_position(&Note::C), Some(1));
    assert_eq!(get_key_position(&Note::B), Some(7));
    assert_eq!(get_note_sprite_index(&Note::A), Some(0));
    assert_eq!(get_note_sprite_index(&Note::GSharp), Some(11));
    let tangent_map = create_tangent_map();
    assert_eq!(tangent_map.len(), 5);
    assert_eq!(tangent_map.get(&2), Some(&4));
    assert_eq!(tangent_map.get(&7), Some(&1));
    assert_eq!(tangent_map.get(&4), None);
}

#[test]
fn browser_key_codes_map_to_note_names() {
    assert_eq!(WasmInputHandler::map_key_to_note("KeyA"), Some("C"));
    assert_eq!(WasmInputHandler::map_key_to_note("KeyW"), Some("C#"));
    assert_eq!(WasmInputHandler::map_key_to_note("KeyJ"), Some("B"));
    assert_eq!(WasmInputHandler::map_key_to_note("KeyZ"), None);
    assert_eq!(WasmInputHandler::map_key_to_note("Escape"), None);
}

#[test]
fn stopped_recording_updater_closes_a_stale_held_note() {
    let mut state = State::new();
    state.recording_start_time = Some(1000);
    state.current_note_start = Some((1500, Note::F, 3));
    state.recording_state = RecordingState::Stopped;
    RecordingStateUpdater::new().update(&mut state, 2000);
    assert_eq!(state.current_note_start, None);
    let closed = state.recorded_notes.last().unwrap();
    assert_eq!(closed.note, Note::F);
    assert_eq!(closed.octave, 3);
    assert_eq!(closed.timestamp, ms_to_ticks(500));
    assert_eq!(closed.duration, ms_to_ticks(500));
}

#[test]
fn milliseconds_and_ticks_convert_consistently() {
    assert_eq!(ms_to_ticks(1000), 960);
    assert_eq!(ms_to_ticks(500), 480);
    assert_eq!(ticks_to_ms(960), 1000);
    assert_eq!(ticks_to_ms(48), 50);
}

#[test]
fn playing_tracks_lists_only_tracks_with_content() {
    let mut state = State::new();
    state.tracks[0].playing = true;
    state.tracks[2].playing = true;
    state.tracks[2].recorded_notes.push(note(Note::C, 4, 0, 480));
    assert_eq!(state.playing_tracks(), vec![2]);
    assert!(state.has_playing_tracks());
    state.stop_all_track_playback();
    assert!(!state.has_playing_tracks());
}

#[test]
fn mouse_clicks_on_the_face_hit_their_regions() {
    let mut state = State::new();
    // A click in the middle of the first white key sounds C.
    state.mouse.x = 64 + 32;
    state.mouse.y = 300;
    state.mouse.left_clicked = true;
    assert_eq!(handle_tangent_mouse(&mut state, 0), None);
    assert_eq!(handle_keyboard_mouse(&mut state, 0), Some(Note::C));
    assert_eq!(state.pressed_note, Some(Note::C));
    // A click on the first tangent sounds C sharp.
    state.mouse.x = 2 * 64 - 10;
    state.mouse.y = 300;
    assert_eq!(handle_tangent_mouse(&mut state, 0), Some(Note::CSharp));
    // The top of the attack fader sets attack to 99.
    state.mouse.x = 440;
    state.mouse.y = 221;
    handle_adsr_fader_mouse(&mut state);
    assert_eq!(state.current_track().attack, 99);
    // The middle of the display cycles the waveform.
    state.mouse.x = 200;
    state.mouse.y = 240;
    handle_waveform_display_mouse(&mut state);
    assert_eq!(state.current_track().waveform, Waveform::TRIANGLE);
    // The export button asks for a file transfer.
    state.mouse.x = 560;
    state.mouse.y = 240;
    assert_eq!(
        handle_midi_buttons_mouse(&state),
        Some(MidiRequest::ExportCurrentTrack)
    );
    // The third track's name selects it.
    state.mouse.x = 30;
    state.mouse.y = 65;
    assert!(!handle_track_selection_mouse(&mut state, 0));
    assert_eq!(state.current_track_id, 2);
}
