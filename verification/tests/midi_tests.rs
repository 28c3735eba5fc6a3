use synthesizer::midi::{
    export_multitrack_midi, export_track_to_midi, import_midi_to_synthesizer_track,
    import_midi_to_track, midi_number_to_note, note_to_midi_number, read_variable_length,
    sort_notes_by_timestamp, write_variable_length, MidiError,
};
use synthesizer::music_theory::Note;
use synthesizer::state::{RecordedNote, State, Track};

fn note(n: Note, octave: i32, timestamp: u64, duration: u64) -> RecordedNote {
    RecordedNote { note: n, octave, timestamp, duration }
}

#[test]
fn note_number_of_c4_is_60() {
    assert_eq!(note_to_midi_number(Note::C, 4), 60);
    assert_eq!(note_to_midi_number(Note::A, 4), 69);
    assert_eq!(note_to_midi_number(Note::B, 8), 119);
}

#[test]
fn note_number_clamps_outside_the_key_range() {
    assert_eq!(note_to_midi_number(Note::C, -5), 0);
    assert_eq!(note_to_midi_number(Note::B, 20), 127);
}

#[test]
fn note_number_round_trips_within_range() {
    for octave in 1..=8 {
        for n in [
            Note::C,
            Note::CSharp,
            Note::D,
            Note::DSharp,
            Note::E,
            Note::F,
            Note::FSharp,
            Note::G,
            Note::GSharp,
            Note::A,
            Note::ASharp,
            Note::B,
        ] {
            let (back, oct_back) = midi_number_to_note(note_to_midi_number(n, octave));
            assert_eq!(back, n);
            assert_eq!(oct_back, octave);
        }
    }
}

#[test]
fn variable_length_quantities_round_trip() {
    for v in [0u32, 1, 127, 128, 200, 16383, 16384, 0x0FFF_FFFF] {
        let mut bytes: Vec<u8> = Vec::new();
        write_variable_length(v, &mut bytes);
        let (value, used) = read_variable_length(bytes.as_slice()).unwrap();
        assert_eq!(value, v);
        assert_eq!(used, bytes.len());
    }
}

#[test]
fn variable_length_reads_known_encodings() {
    assert_eq!(read_variable_length(&[0x00]).unwrap(), (0, 1));
    assert_eq!(read_variable_length(&[0x7F]).unwrap(), (127, 1));
    assert_eq!(read_variable_length(&[0x81, 0x48]).unwrap(), (200, 2));
    assert!(read_variable_length(&[]).is_err());
}

#[test]
fn midi_export_import_round_trips_exactly() {
    let notes = vec![note(Note::C, 4, 0, 480), note(Note::E, 4, 576, 288)];
    let bytes = export_track_to_midi(notes.as_slice(), "Lead");
    let back = import_midi_to_track(bytes.as_slice()).unwrap();
    assert_eq!(back, notes);
}

#[test]
fn midi_round_trip_keeps_many_notes() {
    let mut notes = Vec::new();
    for k in 0u64..20 {
        let n = midi_number_to_note((40 + k) as u8).0;
        notes.push(note(n, 4, k * 1000, 500));
    }
    let bytes = export_track_to_midi(notes.as_slice(), "Sweep");
    let back = import_midi_to_track(bytes.as_slice()).unwrap();
    assert_eq!(back, notes);
}

#[test]
fn exported_bytes_parse_with_an_independent_reader() {
    let notes = vec![note(Note::C, 4, 0, 480), note(Note::E, 4, 576, 288)];
    let bytes = export_track_to_midi(notes.as_slice(), "Lead");
    let smf = midly::Smf::parse(&bytes).unwrap();
    assert_eq!(smf.header.format, midly::Format::SingleTrack);
    assert_eq!(smf.tracks.len(), 1);
    let mut note_ons = 0;
    let mut note_offs = 0;
    for event in &smf.tracks[0] {
        match event.kind {
            midly::TrackEventKind::Midi {
                message: midly::MidiMessage::NoteOn { key, vel },
                ..
            } => {
                assert!(key.as_int() == 60 || key.as_int() == 64);
                assert_eq!(vel.as_int(), 100);
                note_ons += 1;
            }
            midly::TrackEventKind::Midi {
                message: midly::MidiMessage::NoteOff { key, .. },
                ..
            } => {
                assert!(key.as_int() == 60 || key.as_int() == 64);
                note_offs += 1;
            }
            _ => {}
        }
    }
    assert_eq!(note_ons, 2);
    assert_eq!(note_offs, 2);
}

#[test]
fn multitrack_export_parses_with_an_independent_reader() {
    let mut lead = Track::new(0, "Lead".to_owned());
    lead.recorded_notes.push(note(Note::C, 4, 0, 480));
    let mut bass = Track::new(1, "Bass".to_owned());
    bass.recorded_notes.push(note(Note::G, 2, 96, 384));
    let empty = Track::new(2, "Drums".to_owned());
    let tracks = vec![lead, bass, empty];
    let bytes = export_multitrack_midi(&tracks);
    let smf = midly::Smf::parse(&bytes).unwrap();
    assert_eq!(smf.header.format, midly::Format::Parallel);
    assert_eq!(smf.tracks.len(), 2);
}

#[test]
fn import_rejects_malformed_streams() {
    assert_eq!(import_midi_to_track(&[]).unwrap_err(), MidiError::MalformedFile);
    assert_eq!(
        import_midi_to_track(b"MThx\x00\x00\x00\x06\x00\x00\x00\x01\x01\xe0").unwrap_err(),
        MidiError::MalformedFile
    );
    let bad_header_len = b"MThd\x00\x00\x00\x07\x00\x00\x00\x01\x01\xe0";
    assert_eq!(
        import_midi_to_track(bad_header_len).unwrap_err(),
        MidiError::MalformedFile
    );
    // A track chunk cut short of its declared length is malformed too.
    let mut truncated: Vec<u8> = Vec::new();
    truncated.extend_from_slice(b"MThd\x00\x00\x00\x06\x00\x00\x00\x01\x01\xe0");
    truncated.extend_from_slice(b"MTrk\x00\x00\x00\x10\x00\x90");
    assert_eq!(
        import_midi_to_track(truncated.as_slice()).unwrap_err(),
        MidiError::MalformedFile
    );
    // A header that promises more chunks than the stream holds as well.
    let missing_chunk = b"MThd\x00\x00\x00\x06\x00\x00\x00\x02\x01\xe0";
    assert_eq!(
        import_midi_to_track(missing_chunk).unwrap_err(),
        MidiError::MalformedFile
    );
}

#[test]
fn import_sorts_notes_by_start_tick() {
    let notes = vec![note(Note::E, 4, 576, 288), note(Note::C, 4, 0, 480)];
    let sorted = sort_notes_by_timestamp(notes.as_slice());
    assert_eq!(sorted[0].timestamp, 0);
    assert_eq!(sorted[1].timestamp, 576);
}

#[test]
fn import_rescales_foreign_resolutions() {
    // A file at 240 ticks per quarter: 240 ticks become 480 native ticks.
    let mut bytes: Vec<u8> = Vec::new();
    bytes.extend_from_slice(b"MThd\x00\x00\x00\x06\x00\x00\x00\x01\x00\xf0");
    let mut track: Vec<u8> = Vec::new();
    track.extend_from_slice(&[0x00, 0x90, 60, 100]);
    track.extend_from_slice(&[0x81, 0x70, 0x80, 60, 0]);
    bytes.extend_from_slice(b"MTrk");
    bytes.extend_from_slice(&(track.len() as u32).to_be_bytes());
    bytes.extend_from_slice(&track);
    let back = import_midi_to_track(bytes.as_slice()).unwrap();
    assert_eq!(back.len(), 1);
    assert_eq!(back[0].timestamp, 0);
    assert_eq!(back[0].duration, 480);
    assert_eq!(back[0].note, Note::C);
    assert_eq!(back[0].octave, 4);
}

#[test]
fn from_str_accepts_the_twelve_names() {
    assert_eq!(Note::from_str("C").unwrap(), Note::C);
    assert_eq!(Note::from_str("C#").unwrap(), Note::CSharp);
    assert_eq!(Note::from_str("A#").unwrap(), Note::ASharp);
    assert!(Note::from_str("H").is_err());
    assert!(Note::from_str("").is_err());
    assert!(Note::from_str("C##").is_err());
}

#[test]
fn import_to_a_session_track_checks_the_track_id() {
    let mut state = State::new();
    let notes = vec![note(Note::C, 4, 0, 480)];
    let bytes = export_track_to_midi(notes.as_slice(), "Lead");
    assert_eq!(
        import_midi_to_synthesizer_track(&mut state, 9, bytes.as_slice()).unwrap_err(),
        MidiError::InvalidInput
    );
    import_midi_to_synthesizer_track(&mut state, 1, bytes.as_slice()).unwrap();
    assert_eq!(state.tracks[1].recorded_notes, notes);
    assert_eq!(
        import_midi_to_synthesizer_track(&mut state, 1, &[1, 2, 3]).unwrap_err(),
        MidiError::MalformedFile
    );
    assert_eq!(state.tracks[1].recorded_notes, notes);
}
