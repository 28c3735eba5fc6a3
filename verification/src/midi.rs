//! MIDI interchange: note-number conversion and the standard-MIDI-file
//! byte codec for recorded note lists.
//!
//! Files are written at 480 ticks per quarter note and a fixed tempo of 120
//! beats per minute, with every note-on at velocity 100.  Recorded notes
//! keep their times in ticks of that same resolution, so a written file
//! read back reproduces them exactly.

use vstd::prelude::*;
use vstd::string::StringSliceAdditionalSpecFns;
use crate::music_theory::Note;
use crate::state::RecordedNote;

verus! {

/// Resolution of written files, in ticks per quarter note.
pub const TICKS_PER_QUARTER: u16 = 480;

/// Largest value a variable-length quantity can encode.
pub const VLQ_MAX: u32 = 0x0FFF_FFFF;

/// Error kinds of the MIDI subsystem.
#[derive(Debug, PartialEq, Eq, Structural, Clone, Copy)]
pub enum MidiError {
    /// A note name or note number outside the understood range.
    InvalidInput,
    /// A byte stream that is not a well-formed MIDI file.
    MalformedFile,
}

/// MIDI key number of a pitch class and octave, clamped into 0..=127.
/// Key 60 is C4.
pub open spec fn spec_midi_number(note: Note, octave: int) -> int {
    let v = (octave + 1) * 12 + note.spec_semitone();
    if v < 0 {
        0
    } else if v > 127 {
        127
    } else {
        v
    }
}

/// Pitch class with the given semitone index; indices outside 0..=11 fall
/// back to C.
pub open spec fn spec_note_for_semitone(s: int) -> Note {
    if s == 0 {
        Note::C
    } else if s == 1 {
        Note::CSharp
    } else if s == 2 {
        Note::D
    } else if s == 3 {
        Note::DSharp
    } else if s == 4 {
        Note::E
    } else if s == 5 {
        Note::F
    } else if s == 6 {
        Note::FSharp
    } else if s == 7 {
        Note::G
    } else if s == 8 {
        Note::GSharp
    } else if s == 9 {
        Note::A
    } else if s == 10 {
        Note::ASharp
    } else if s == 11 {
        Note::B
    } else {
        Note::C
    }
}

/// Converts a pitch class and octave to the MIDI key number, clamping the
/// result into the 0..=127 key range.
pub fn note_to_midi_number(note: Note, octave: i32) -> (r: u8)
    ensures
        r as int == spec_midi_number(note, octave as int),
{
    let base: i64 = match note {
        Note::C => 0,
        Note::CSharp => 1,
        Note::D => 2,
        Note::DSharp => 3,
        Note::E => 4,
        Note::F => 5,
        Note::FSharp => 6,
        Note::G => 7,
        Note::GSharp => 8,
        Note::A => 9,
        Note::ASharp => 10,
        Note::B => 11,
    };
    let v: i64 = (octave as i64 + 1) * 12 + base;
    if v < 0 {
        0
    } else if v > 127 {
        127
    } else {
        v as u8
    }
}

/// Converts a MIDI key number back to a pitch class and octave.
pub fn midi_number_to_note(midi_note: u8) -> (r: (Note, i32))
    ensures
        r.0 == spec_note_for_semitone((midi_note as int) % 12),
        r.1 as int == (midi_note as int) / 12 - 1,
{
    let note_in_octave: u8 = midi_note % 12;
    let octave: i32 = (midi_note / 12) as i32 - 1;
    let note = match note_in_octave {
        0 => Note::C,
        1 => Note::CSharp,
        2 => Note::D,
        3 => Note::DSharp,
        4 => Note::E,
        5 => Note::F,
        6 => Note::FSharp,
        7 => Note::G,
        8 => Note::GSharp,
        9 => Note::A,
        10 => Note::ASharp,
        11 => Note::B,
        _ => Note::C,
    };
    (note, octave)
}

/// Converting a note to its MIDI key number and back is the identity
/// whenever the key number does not clamp, which holds for every octave
/// the instrument can reach.
pub proof fn lemma_midi_number_round_trip(note: Note, octave: int)
    requires
        0 <= (octave + 1) * 12 + note.spec_semitone() <= 127,
    ensures
        spec_note_for_semitone(spec_midi_number(note, octave) % 12) == note,
        spec_midi_number(note, octave) / 12 - 1 == octave,
{
    let s = note.spec_semitone();
    let m = spec_midi_number(note, octave);
    assert(m == (octave + 1) * 12 + s);
    assert(m % 12 == s && m / 12 == octave + 1) by (nonlinear_arith)
        requires
            m == (octave + 1) * 12 + s,
            0 <= s < 12,
            0 <= m,
    ;
}

/// Bytes of a variable-length quantity other than its final byte: the
/// higher seven-bit groups of the value, each with the continuation bit set.
pub open spec fn spec_vlq_high(v: int) -> Seq<u8>
    decreases v,
{
    if v <= 0 {
        seq![]
    } else {
        spec_vlq_high(v / 128).push((v % 128 + 128) as u8)
    }
}

/// Byte encoding of a variable-length quantity: seven-bit groups, highest
/// first, with the continuation bit set on all but the last byte.
pub open spec fn spec_vlq(v: int) -> Seq<u8> {
    spec_vlq_high(v / 128).push((v % 128) as u8)
}

/// Value of a variable-length quantity read from the given bytes: each
/// byte contributes its low seven bits.
pub open spec fn spec_vlq_value(bs: Seq<u8>) -> int
    decreases bs.len(),
{
    if bs.len() == 0 {
        0
    } else {
        spec_vlq_value(bs.drop_last()) * 128 + (bs.last() as int) % 128
    }
}

proof fn lemma_vlq_high_value(v: int)
    requires
        0 <= v,
    ensures
        spec_vlq_value(spec_vlq_high(v)) == v,
        forall|j: int| 0 <= j < spec_vlq_high(v).len() ==> spec_vlq_high(v)[j] >= 128,
    decreases v,
{
    if v > 0 {
        lemma_vlq_high_value(v / 128);
        let s = spec_vlq_high(v);
        assert(s.drop_last() == spec_vlq_high(v / 128));
        assert(s.last() == (v % 128 + 128) as u8);
        assert((v % 128 + 128) % 128 == v % 128);
    }
}

proof fn lemma_vlq_high_len(v: int, k: nat)
    requires
        0 <= v < pow128(k),
    ensures
        spec_vlq_high(v).len() <= k,
    decreases v,
{
    if v > 0 {
        assert(k >= 1) by {
            if k == 0 {
                assert(pow128(0) == 1);
            }
        }
        assert(v / 128 < pow128((k - 1) as nat)) by (nonlinear_arith)
            requires
                v < pow128(k),
                k >= 1,
                pow128(k) == 128 * pow128((k - 1) as nat),
                v >= 0,
        ;
        lemma_vlq_high_len(v / 128, (k - 1) as nat);
    }
}

/// 128 raised to the given power.
pub open spec fn pow128(k: nat) -> int
    decreases k,
{
    if k == 0 {
        1
    } else {
        128 * pow128((k - 1) as nat)
    }
}

proof fn lemma_pow128_small()
    ensures
        pow128(0) == 1,
        pow128(1) == 128,
        pow128(2) == 0x4000,
        pow128(3) == 0x200000,
        pow128(4) == 0x10000000,
{
    assert(pow128(0) == 1);
    assert(pow128(1) == 128);
    assert(pow128(2) == 0x4000);
    assert(pow128(3) == 0x200000);
    assert(pow128(4) == 0x10000000);
}

/// Shape and value of the encoding of any quantity in range: at most four
/// bytes, continuation bits on all but the final byte, and reading the low
/// seven-bit groups back yields the value.
pub proof fn lemma_vlq_round_trip(v: int)
    requires
        0 <= v <= VLQ_MAX,
    ensures
        1 <= spec_vlq(v).len() <= 4,
        spec_vlq_value(spec_vlq(v)) == v,
        forall|j: int| 0 <= j < spec_vlq(v).len() - 1 ==> spec_vlq(v)[j] >= 128,
        spec_vlq(v).last() < 128,
{
    let s = spec_vlq(v);
    lemma_vlq_high_value(v / 128);
    lemma_pow128_small();
    lemma_vlq_high_len(v / 128, 3);
    assert(s.drop_last() == spec_vlq_high(v / 128));
    assert(spec_vlq_value(s) == (v / 128) * 128 + v % 128);
    assert((v / 128) * 128 + v % 128 == v) by (nonlinear_arith)
        requires
            v >= 0,
    ;
}

/// Appends the variable-length encoding of `v` to `out`.
pub fn write_variable_length(v: u32, out: &mut Vec<u8>)
    requires
        v <= VLQ_MAX,
    ensures
        final(out)@ == old(out)@ + spec_vlq(v as int),
{
    let ghost pre = out@;
    if v >= 0x200000 {
        out.push((v / 0x200000 % 128 + 128) as u8);
    }
    if v >= 0x4000 {
        out.push((v / 0x4000 % 128 + 128) as u8);
    }
    if v >= 0x80 {
        out.push((v / 0x80 % 128 + 128) as u8);
    }
    out.push((v % 128) as u8);
    proof {
        let vi = v as int;
        let u1 = vi / 128;
        let u2 = vi / 0x4000;
        let u3 = vi / 0x200000;
        assert(u1 / 128 == u2 && u2 / 128 == u3 && u3 / 128 == 0) by (nonlinear_arith)
            requires
                0 <= vi <= 0x0FFF_FFFF,
                u1 == vi / 128,
                u2 == vi / 0x4000,
                u3 == vi / 0x200000,
        ;
        assert(spec_vlq_high(0) =~= Seq::<u8>::empty());
        if vi < 0x80 {
            assert(u1 == 0);
            assert(spec_vlq_high(u1) =~= Seq::<u8>::empty());
        } else if vi < 0x4000 {
            assert(u2 == 0);
            assert(spec_vlq_high(u2) =~= Seq::<u8>::empty());
            assert(spec_vlq_high(u1) =~= seq![(u1 % 128 + 128) as u8]);
        } else if vi < 0x200000 {
            assert(u3 == 0);
            assert(spec_vlq_high(u3) =~= Seq::<u8>::empty());
            assert(spec_vlq_high(u2) =~= seq![(u2 % 128 + 128) as u8]);
            assert(spec_vlq_high(u1) =~= seq![(u2 % 128 + 128) as u8, (u1 % 128 + 128) as u8]);
        } else {
            assert(u3 >= 1);
            assert(spec_vlq_high(u3) =~= seq![(u3 % 128 + 128) as u8]);
            assert(spec_vlq_high(u2) =~= seq![(u3 % 128 + 128) as u8, (u2 % 128 + 128) as u8]);
            assert(spec_vlq_high(u1) =~= seq![
                (u3 % 128 + 128) as u8,
                (u2 % 128 + 128) as u8,
                (u1 % 128 + 128) as u8,
            ]);
        }
        assert(final(out)@ =~= pre + spec_vlq(vi));
    }
}

/// Reads a variable-length quantity from the head of `data`, taking at
/// most four bytes and stopping at the first byte without its
/// continuation bit.  Fails exactly on an empty slice.
pub fn read_variable_length(data: &[u8]) -> (r: Result<(u32, usize), MidiError>)
    ensures
        r is Err <==> data@.len() == 0,
        r matches Err(e) ==> e == MidiError::MalformedFile,
        r matches Ok((v, n)) ==> {
            &&& 1 <= n <= 4
            &&& n <= data@.len()
            &&& n as int == spec_vlq_stop(data@)
            &&& v as int == spec_vlq_value(data@.subrange(0, n as int))
        },
{
    if data.len() == 0 {
        return Err(MidiError::MalformedFile);
    }
    let mut value: u32 = 0;
    let mut bytes_read: usize = 0;
    let limit: usize = if data.len() < 4 {
        data.len()
    } else {
        4
    };
    while bytes_read < limit
        invariant
            0 <= bytes_read <= limit,
            limit == if data@.len() < 4 {
                data@.len() as int
            } else {
                4
            },
            data@.len() > 0,
            value as int == spec_vlq_value(data@.subrange(0, bytes_read as int)),
            forall|j: int| 0 <= j < bytes_read ==> data@[j] >= 128,
            spec_vlq_stop(data@) == spec_vlq_stop_from(data@, bytes_read as int),
        decreases limit - bytes_read,
    {
        let byte = data[bytes_read];
        proof {
            assert(data@.subrange(0, bytes_read + 1).drop_last() == data@.subrange(
                0,
                bytes_read as int,
            ));
            lemma_vlq_value_bound(data@.subrange(0, bytes_read as int));
            lemma_pow128_small();
            if bytes_read == 0 {
                assert(pow128(bytes_read as nat) == 1);
            } else if bytes_read == 1 {
                assert(pow128(bytes_read as nat) == 128);
            } else if bytes_read == 2 {
                assert(pow128(bytes_read as nat) == 0x4000);
            } else {
                assert(bytes_read == 3);
                assert(pow128(bytes_read as nat) == 0x200000);
            }
            assert(value < 0x200000);
        }
        value = value * 128 + (byte % 128) as u32;
        bytes_read = bytes_read + 1;
        if byte < 128 {
            return Ok((value, bytes_read));
        }
    }
    Ok((value, bytes_read))
}

proof fn lemma_vlq_value_bound(bs: Seq<u8>)
    ensures
        0 <= spec_vlq_value(bs) < pow128(bs.len()),
    decreases bs.len(),
{
    if bs.len() > 0 {
        lemma_vlq_value_bound(bs.drop_last());
        assert(spec_vlq_value(bs) == spec_vlq_value(bs.drop_last()) * 128 + (bs.last() as int)
            % 128);
        assert(spec_vlq_value(bs.drop_last()) * 128 <= (pow128((bs.len() - 1) as nat) - 1) * 128)
            by (nonlinear_arith)
            requires
                spec_vlq_value(bs.drop_last()) <= pow128((bs.len() - 1) as nat) - 1,
        ;
    }
}

/// Position just past the variable-length quantity that starts at index
/// `i`: the scan stops after the first byte without its continuation bit,
/// after four bytes, or at the end of the data.
pub open spec fn spec_vlq_stop_from(bs: Seq<u8>, i: int) -> int
    decreases 4 - i,
{
    if i < 0 {
        0
    } else if i >= bs.len() || i >= 4 {
        i
    } else if bs[i] < 128 {
        i + 1
    } else {
        spec_vlq_stop_from(bs, i + 1)
    }
}

/// Number of bytes the variable-length quantity at the head of the data
/// occupies.
pub open spec fn spec_vlq_stop(bs: Seq<u8>) -> int {
    spec_vlq_stop_from(bs, 0)
}

proof fn lemma_vlq_stop_from_bounds(bs: Seq<u8>, i: int)
    requires
        0 <= i <= 4,
        i <= bs.len(),
    ensures
        i <= spec_vlq_stop_from(bs, i) <= 4,
        spec_vlq_stop_from(bs, i) <= bs.len(),
        i < 4 && i < bs.len() ==> spec_vlq_stop_from(bs, i) >= i + 1,
    decreases 4 - i,
{
    if i < bs.len() && i < 4 && bs[i] >= 128 {
        lemma_vlq_stop_from_bounds(bs, i + 1);
    }
}

/// The scan of a variable-length quantity covers at least one byte and at
/// most four, and never runs past the data.
pub proof fn lemma_vlq_stop_bounds(bs: Seq<u8>)
    requires
        bs.len() > 0,
    ensures
        1 <= spec_vlq_stop(bs) <= 4,
        spec_vlq_stop(bs) <= bs.len(),
{
    lemma_vlq_stop_from_bounds(bs, 0);
}

/// Ticks of a foreign resolution rescaled onto the native 480-per-quarter
/// grid, saturating at the largest representable tick.
pub open spec fn spec_rescale_ticks(t: u64, tpq: u16) -> u64 {
    let v = (t as int) * 480 / (tpq as int);
    if v > u64::MAX {
        u64::MAX
    } else {
        v as u64
    }
}

/// Rescales a tick count read from a file to the native resolution.
pub fn rescale_ticks(t: u64, tpq: u16) -> (r: u64)
    requires
        tpq >= 1,
    ensures
        r == spec_rescale_ticks(t, tpq),
{
    let wide: u128 = (t as u128) * 480 / (tpq as u128);
    if wide > u64::MAX as u128 {
        u64::MAX
    } else {
        wide as u64
    }
}

/// The note that ends when a key held since tick `start` is released at
/// tick `now`.
pub open spec fn spec_closed_note(key: int, start: u64, now: u64) -> RecordedNote {
    RecordedNote {
        note: spec_note_for_semitone(key % 12),
        octave: (key / 12 - 1) as i32,
        timestamp: start,
        duration: now.saturating_sub(start),
    }
}

/// A key table with no key held down.
pub open spec fn spec_no_active() -> Seq<Option<u64>> {
    Seq::new(128, |i: int| None::<u64>)
}

/// One pass of the track-event scan, from byte `pos` to the end of the
/// data.  The state is the list of finished notes, the start tick of every
/// key currently held, the running status byte, and the tick counter; the
/// result is the state the scan ends in.  Note-on and note-off events open
/// and close notes; a note-on at velocity zero closes; every other event
/// is skipped by its length; the scan stops at truncated data.
pub open spec fn spec_scan(
    bs: Seq<u8>,
    pos: int,
    ticks: u64,
    running: u8,
    active: Seq<Option<u64>>,
    notes: Seq<RecordedNote>,
    tpq: u16,
) -> (Seq<RecordedNote>, Seq<Option<u64>>, u64)
    decreases bs.len() - pos,
    when 0 <= pos && active.len() == 128 && tpq >= 1
    via spec_scan_decreases
{
    if pos >= bs.len() {
        (notes, active, ticks)
    } else {
        let tail = bs.subrange(pos, bs.len() as int);
        let dn = spec_vlq_stop(tail);
        let delta = spec_vlq_value(tail.subrange(0, dn));
        let ticks1 = ticks.saturating_add(delta as u64);
        let p1 = pos + dn;
        if p1 >= bs.len() {
            (notes, active, ticks1)
        } else {
            let raw = bs[p1];
            let status = if raw >= 128 {
                raw
            } else {
                running
            };
            let running1 = if raw >= 128 {
                raw
            } else {
                running
            };
            let p2 = if raw >= 128 {
                p1 + 1
            } else {
                p1
            };
            let hi = status / 16;
            if hi == 8 || hi == 9 {
                if p2 + 1 >= bs.len() {
                    (notes, active, ticks1)
                } else {
                    let key = bs[p2] as int;
                    let vel = bs[p2 + 1];
                    let now = spec_rescale_ticks(ticks1, tpq);
                    if hi == 8 || vel == 0 {
                        match active[key % 128] {
                            Some(start) => spec_scan(
                                bs,
                                p2 + 2,
                                ticks1,
                                running1,
                                active.update(key % 128, None),
                                notes.push(spec_closed_note(key % 128, start, now)),
                                tpq,
                            ),
                            None => spec_scan(bs, p2 + 2, ticks1, running1, active, notes, tpq),
                        }
                    } else {
                        spec_scan(
                            bs,
                            p2 + 2,
                            ticks1,
                            running1,
                            active.update(key % 128, Some(now)),
                            notes,
                            tpq,
                        )
                    }
                }
            } else if hi == 10 || hi == 11 || hi == 14 {
                if p2 + 1 >= bs.len() {
                    (notes, active, ticks1)
                } else {
                    spec_scan(bs, p2 + 2, ticks1, running1, active, notes, tpq)
                }
            } else if hi == 12 || hi == 13 {
                if p2 >= bs.len() {
                    (notes, active, ticks1)
                } else {
                    spec_scan(bs, p2 + 1, ticks1, running1, active, notes, tpq)
                }
            } else if hi == 15 {
                if status == 255 {
                    if p2 + 1 >= bs.len() {
                        (notes, active, ticks1)
                    } else {
                        let p3 = p2 + 1;
                        let tail3 = bs.subrange(p3, bs.len() as int);
                        let ln = spec_vlq_stop(tail3);
                        let len_val = spec_vlq_value(tail3.subrange(0, ln));
                        let p4 = p3 + ln;
                        let p5 = if len_val <= bs.len() - p4 {
                            p4 + len_val
                        } else {
                            bs.len() as int
                        };
                        spec_scan(bs, p5, ticks1, running1, active, notes, tpq)
                    }
                } else {
                    let pn = if p2 + 1 <= bs.len() {
                        p2 + 1
                    } else {
                        bs.len() as int
                    };
                    spec_scan(bs, pn, ticks1, running1, active, notes, tpq)
                }
            } else {
                let pn = if p2 + 1 <= bs.len() {
                    p2 + 1
                } else {
                    bs.len() as int
                };
                spec_scan(bs, pn, ticks1, running1, active, notes, tpq)
            }
        }
    }
}

#[via_fn]
proof fn spec_scan_decreases(
    bs: Seq<u8>,
    pos: int,
    ticks: u64,
    running: u8,
    active: Seq<Option<u64>>,
    notes: Seq<RecordedNote>,
    tpq: u16,
) {
    if pos < bs.len() {
        let tail = bs.subrange(pos, bs.len() as int);
        lemma_vlq_stop_bounds(tail);
        let p1 = pos + spec_vlq_stop(tail);
        if p1 < bs.len() {
            let raw = bs[p1];
            let status = if raw >= 128 {
                raw
            } else {
                running
            };
            let p2 = if raw >= 128 {
                p1 + 1
            } else {
                p1
            };
            if status / 16 == 15 && status == 255 && p2 + 1 < bs.len() {
                let p3 = p2 + 1;
                let tail3 = bs.subrange(p3, bs.len() as int);
                lemma_vlq_stop_bounds(tail3);
                lemma_vlq_value_bound(tail3.subrange(0, spec_vlq_stop(tail3)));
            }
        }
    }
}

/// Closes every key still held when the scan ends, at tick `now`, walking
/// the key table upward from key `k`.
pub open spec fn spec_flush(
    active: Seq<Option<u64>>,
    k: int,
    now: u64,
    notes: Seq<RecordedNote>,
) -> Seq<RecordedNote>
    decreases active.len() - k,
{
    if k < 0 || k >= active.len() {
        notes
    } else {
        match active[k] {
            Some(start) => spec_flush(active, k + 1, now, notes.push(spec_closed_note(k, start, now))),
            None => spec_flush(active, k + 1, now, notes),
        }
    }
}

/// The full result of scanning one track chunk: the notes the scan closed,
/// followed by the notes still open at the end, closed at the final tick.
pub open spec fn spec_track_notes(bs: Seq<u8>, tpq: u16) -> Seq<RecordedNote> {
    let s = spec_scan(bs, 0, 0, 0, spec_no_active(), Seq::empty(), tpq);
    spec_flush(s.1, 0, spec_rescale_ticks(s.2, tpq), s.0)
}

/// Scans the events of one MIDI track chunk and returns the notes it
/// records, pairing each note-on with its note-off and closing any note
/// still open when the chunk ends.  Events other than note-on and
/// note-off are skipped.
pub fn parse_track_events(data: &[u8], ticks_per_quarter: u16) -> (r: Result<
    Vec<RecordedNote>,
    MidiError,
>)
    requires
        ticks_per_quarter >= 1,
    ensures
        r is Ok,
        r matches Ok(v) ==> v@ == spec_track_notes(data@, ticks_per_quarter),
{
    let ghost bs = data@;
    let ghost tpq = ticks_per_quarter;
    let mut notes: Vec<RecordedNote> = Vec::new();
    let mut active: Vec<Option<u64>> = Vec::new();
    let mut k0: usize = 0;
    while k0 < 128
        invariant
            active@.len() == k0,
            k0 <= 128,
            forall|j: int| 0 <= j < k0 ==> active@[j] is None,
        decreases 128 - k0,
    {
        active.push(None);
        k0 = k0 + 1;
    }
    proof {
        assert(active@ =~= spec_no_active());
    }
    let mut pos: usize = 0;
    let mut current_ticks: u64 = 0;
    let mut running_status: u8 = 0;
    while pos < data.len()
        invariant_except_break
            spec_scan(bs, pos as int, current_ticks, running_status, active@, notes@, tpq)
                == spec_scan(bs, 0, 0, 0, spec_no_active(), Seq::empty(), tpq),
        invariant
            active@.len() == 128,
            pos <= bs.len(),
            bs == data@,
            tpq == ticks_per_quarter,
            tpq >= 1,
        ensures
            spec_scan(bs, 0, 0, 0, spec_no_active(), Seq::empty(), tpq) == (
                notes@,
                active@,
                current_ticks,
            ),
        decreases bs.len() - pos,
    {
        let ghost pos0 = pos as int;
        let ghost ticks0 = current_ticks;
        let ghost running0 = running_status;
        let ghost active0 = active@;
        let ghost notes0 = notes@;
        let tail = &data[pos..data.len()];
        let (delta, dn) = match read_variable_length(tail) {
            Ok(p) => p,
            Err(e) => {
                return Err(e);
            },
        };
        current_ticks = current_ticks.saturating_add(delta as u64);
        pos = pos + dn;
        proof {
            assert(tail@ == bs.subrange(pos0, bs.len() as int));
            assert(tail@.subrange(0, dn as int) == bs.subrange(pos0, bs.len() as int).subrange(
                0,
                spec_vlq_stop(bs.subrange(pos0, bs.len() as int)),
            ));
        }
        if pos >= data.len() {
            break;
        }
        let raw = data[pos];
        let status: u8;
        if raw >= 128 {
            status = raw;
            running_status = raw;
            pos = pos + 1;
        } else {
            status = running_status;
        }
        let hi = status / 16;
        if hi == 8 || hi == 9 {
            if pos >= data.len() - 1 {
                break;
            }
            let key = data[pos];
            let vel = data[pos + 1];
            pos = pos + 2;
            let now = rescale_ticks(current_ticks, ticks_per_quarter);
            if hi == 8 || vel == 0 {
                if let Some(start) = active[(key % 128) as usize] {
                    let duration = now.saturating_sub(start);
                    let (note, octave) = midi_number_to_note(key % 128);
                    active[(key % 128) as usize] = None;
                    notes.push(
                        RecordedNote { note, octave, timestamp: start, duration },
                    );
                }
            } else {
                active[(key % 128) as usize] = Some(now);
            }
        } else if hi == 10 || hi == 11 || hi == 14 {
            if pos >= data.len() - 1 {
                break;
            }
            pos = pos + 2;
        } else if hi == 12 || hi == 13 {
            if pos >= data.len() {
                break;
            }
            pos = pos + 1;
        } else if hi == 15 {
            if status == 255 {
                if pos >= data.len() - 1 {
                    break;
                }
                pos = pos + 1;
                let meta_tail = &data[pos..data.len()];
                let (len_val, ln) = match read_variable_length(meta_tail) {
                    Ok(p) => p,
                    Err(e) => {
                        return Err(e);
                    },
                };
                proof {
                    assert(meta_tail@ == bs.subrange(pos as int, bs.len() as int));
                    assert(meta_tail@.subrange(0, ln as int) == bs.subrange(
                        pos as int,
                        bs.len() as int,
                    ).subrange(0, spec_vlq_stop(bs.subrange(pos as int, bs.len() as int))));
                }
                pos = pos + ln;
                if len_val as usize <= data.len() - pos {
                    pos = pos + len_val as usize;
                } else {
                    pos = data.len();
                }
            } else {
                if pos < data.len() {
                    pos = pos + 1;
                }
            }
        } else {
            if pos < data.len() {
                pos = pos + 1;
            }
        }
        proof {
            assert(spec_scan(bs, pos as int, current_ticks, running_status, active@, notes@, tpq)
                == spec_scan(bs, pos0, ticks0, running0, active0, notes0, tpq));
        }
    }
    let now = rescale_ticks(current_ticks, ticks_per_quarter);
    let ghost notes_scanned = notes@;
    let mut k: usize = 0;
    while k < 128
        invariant
            active@.len() == 128,
            k <= 128,
            spec_flush(active@, k as int, now, notes@) == spec_flush(active@, 0, now, notes_scanned),
            now == spec_rescale_ticks(current_ticks, tpq),
            tpq == ticks_per_quarter,
        decreases 128 - k,
    {
        if let Some(start) = active[k] {
            let duration = now.saturating_sub(start);
            let (note, octave) = midi_number_to_note(k as u8);
            notes.push(RecordedNote { note, octave, timestamp: start, duration });
            proof {
                assert(k < 128);
                assert((k as u8) as int == k as int);
            }
        }
        k = k + 1;
    }
    Ok(notes)
}

/// Result of walking the track chunks of a file from byte `pos`, with
/// `remaining` chunks still expected: the notes of every chunk, appended
/// in chunk order onto `acc`.  A chunk that is missing, carries the
/// wrong tag, or is cut short of its declared length makes the stream
/// malformed.
pub open spec fn spec_file_tracks(
    bs: Seq<u8>,
    pos: int,
    remaining: int,
    tpq: u16,
    acc: Seq<RecordedNote>,
) -> Result<Seq<RecordedNote>, MidiError>
    decreases remaining,
{
    if remaining <= 0 {
        Ok(acc)
    } else if pos < 0 || pos + 8 > bs.len() {
        Err(MidiError::MalformedFile)
    } else if !(bs[pos] == 77 && bs[pos + 1] == 84 && bs[pos + 2] == 114 && bs[pos + 3] == 107) {
        Err(MidiError::MalformedFile)
    } else {
        let tlen = spec_be32_value(bs[pos + 4], bs[pos + 5], bs[pos + 6], bs[pos + 7]);
        if tlen > bs.len() - (pos + 8) {
            Err(MidiError::MalformedFile)
        } else {
            let chunk = bs.subrange(pos + 8, pos + 8 + tlen);
            spec_file_tracks(
                bs,
                pos + 8 + tlen,
                remaining - 1,
                tpq,
                acc + spec_track_notes(chunk, tpq),
            )
        }
    }
}

/// The note list a whole file stands for: after the header checks, the
/// notes of every track chunk, sorted by start tick.
pub open spec fn spec_import(bs: Seq<u8>) -> Result<Seq<RecordedNote>, MidiError> {
    if bs.len() < 14 {
        Err(MidiError::MalformedFile)
    } else if !(bs[0] == 77 && bs[1] == 84 && bs[2] == 104 && bs[3] == 100) {
        Err(MidiError::MalformedFile)
    } else if spec_be32_value(bs[4], bs[5], bs[6], bs[7]) != 6 {
        Err(MidiError::MalformedFile)
    } else {
        let ntracks = (bs[10] as int) * 256 + bs[11] as int;
        let tpq = ((bs[12] as int) * 256 + bs[13] as int) as u16;
        if tpq == 0 {
            Err(MidiError::MalformedFile)
        } else {
            match spec_file_tracks(bs, 14, ntracks, tpq, Seq::empty()) {
                Ok(acc) => Ok(spec_sort_by_timestamp(acc)),
                Err(e) => Err(e),
            }
        }
    }
}

/// Reads a MIDI byte stream and returns every note it records, sorted by
/// start tick and rescaled to the native 480-per-quarter resolution.
/// Fails exactly on a stream whose header or chunk framing is malformed,
/// a truncated track chunk included.
pub fn import_midi_to_track(data: &[u8]) -> (r: Result<Vec<RecordedNote>, MidiError>)
    ensures
        r is Ok <==> spec_import(data@) is Ok,
        r matches Ok(v) ==> Ok::<_, MidiError>(v@) == spec_import(data@),
        r matches Err(e) ==> Err::<Seq<RecordedNote>, _>(e) == spec_import(data@),
{
    let ghost bs = data@;
    if data.len() < 14 {
        return Err(MidiError::MalformedFile);
    }
    if !(data[0] == 77 && data[1] == 84 && data[2] == 104 && data[3] == 100) {
        return Err(MidiError::MalformedFile);
    }
    let header_length: u32 = ((data[4] as u32 * 256 + data[5] as u32) * 256 + data[6] as u32) * 256
        + data[7] as u32;
    if header_length != 6 {
        return Err(MidiError::MalformedFile);
    }
    let num_tracks: u16 = data[10] as u16 * 256 + data[11] as u16;
    let ticks_per_quarter: u16 = data[12] as u16 * 256 + data[13] as u16;
    if ticks_per_quarter == 0 {
        return Err(MidiError::MalformedFile);
    }
    let mut notes: Vec<RecordedNote> = Vec::new();
    let mut pos: usize = 14;
    let mut t: u16 = 0;
    while t < num_tracks
        invariant_except_break
            spec_file_tracks(bs, pos as int, num_tracks - t, ticks_per_quarter, notes@)
                == spec_file_tracks(bs, 14, num_tracks as int, ticks_per_quarter, Seq::empty()),
        invariant
            t <= num_tracks,
            pos <= bs.len(),
            bs == data@,
            bs.len() >= 14,
            ticks_per_quarter >= 1,
            spec_import(bs) == match spec_file_tracks(
                bs,
                14,
                num_tracks as int,
                ticks_per_quarter,
                Seq::empty(),
            ) {
                Ok(acc) => Ok::<_, MidiError>(spec_sort_by_timestamp(acc)),
                Err(e) => Err::<Seq<RecordedNote>, _>(e),
            },
        ensures
            spec_file_tracks(bs, 14, num_tracks as int, ticks_per_quarter, Seq::empty())
                == Ok::<_, MidiError>(notes@),
        decreases num_tracks - t,
    {
        if pos > data.len() - 8 {
            return Err(MidiError::MalformedFile);
        }
        if !(data[pos] == 77 && data[pos + 1] == 84 && data[pos + 2] == 114 && data[pos + 3]
            == 107) {
            proof {
                assert(spec_file_tracks(bs, pos as int, num_tracks - t, ticks_per_quarter, notes@)
                    == Err::<Seq<RecordedNote>, MidiError>(MidiError::MalformedFile));
            }
            return Err(MidiError::MalformedFile);
        }
        let track_length: u32 = ((data[pos + 4] as u32 * 256 + data[pos + 5] as u32) * 256
            + data[pos + 6] as u32) * 256 + data[pos + 7] as u32;
        if track_length as u64 > (data.len() - (pos + 8)) as u64 {
            return Err(MidiError::MalformedFile);
        }
        let track_end = pos + 8 + track_length as usize;
        let chunk = &data[pos + 8..track_end];
        let mut track_notes = match parse_track_events(chunk, ticks_per_quarter) {
            Ok(v) => v,
            Err(e) => {
                return Err(e);
            },
        };
        proof {
            assert(chunk@ == bs.subrange(pos + 8, pos + 8 + track_length as int));
        }
        notes.append(&mut track_notes);
        pos = track_end;
        t = t + 1;
    }
    let sorted = sort_notes_by_timestamp(notes.as_slice());
    Ok(sorted)
}

/// Reads a MIDI byte stream into one track of the session, replacing
/// that track's loop.  A track id outside the session is invalid input;
/// a bad byte stream is a malformed file and leaves every track as it
/// was.
pub fn import_midi_to_synthesizer_track(
    state: &mut crate::state::State,
    track_id: usize,
    data: &[u8],
) -> (r: Result<(), MidiError>)
    requires
        old(state).wf(),
    ensures
        final(state).wf(),
        track_id >= 4 ==> r == Err::<(), MidiError>(MidiError::InvalidInput) && *final(state)
            == *old(state),
        track_id < 4 ==> {
            &&& (r is Ok <==> spec_import(data@) is Ok)
            &&& (r is Err ==> *final(state) == *old(state))
            &&& (spec_import(data@) matches Ok(notes) ==> final(state).tracks@[track_id as int].recorded_notes@ == notes && final(state).tracks@[track_id as int] == (crate::state::Track {
                recorded_notes: final(state).tracks@[track_id as int].recorded_notes,
                ..old(state).tracks@[track_id as int]
            }))
        },
        crate::state::spec_same_but_track(*old(state), *final(state), track_id as int),
        final(state).current_track_id == old(state).current_track_id,
        final(state).recording_state == old(state).recording_state,
{
    if track_id >= state.tracks.len() {
        return Err(MidiError::InvalidInput);
    }
    let recorded_notes = match import_midi_to_track(data) {
        Ok(notes) => notes,
        Err(e) => {
            return Err(e);
        },
    };
    let track = &mut state.tracks[track_id];
    track.recorded_notes = recorded_notes;
    Ok(())
}

/// Stable insertion of a note into a list ordered by start tick: the note
/// goes after every note that starts no later than it.
pub open spec fn spec_insert_by_timestamp(s: Seq<RecordedNote>, n: RecordedNote) -> Seq<
    RecordedNote,
>
    decreases s.len(),
{
    if s.len() == 0 {
        seq![n]
    } else if s.last().timestamp <= n.timestamp {
        s.push(n)
    } else {
        spec_insert_by_timestamp(s.drop_last(), n).push(s.last())
    }
}

/// Stable sort of a note list by start tick.
pub open spec fn spec_sort_by_timestamp(s: Seq<RecordedNote>) -> Seq<RecordedNote>
    decreases s.len(),
{
    if s.len() == 0 {
        Seq::empty()
    } else {
        spec_insert_by_timestamp(spec_sort_by_timestamp(s.drop_last()), s.last())
    }
}

proof fn lemma_insert_at_point(s: Seq<RecordedNote>, n: RecordedNote, j: int)
    requires
        0 <= j <= s.len(),
        forall|k: int| j <= k < s.len() ==> s[k].timestamp > n.timestamp,
        j > 0 ==> s[j - 1].timestamp <= n.timestamp,
    ensures
        spec_insert_by_timestamp(s, n) == s.insert(j, n),
    decreases s.len(),
{
    if s.len() == 0 {
        assert(spec_insert_by_timestamp(s, n) =~= s.insert(0, n));
    } else if s.last().timestamp <= n.timestamp {
        assert(j == s.len());
        assert(s.push(n) =~= s.insert(s.len() as int, n));
    } else {
        assert(j < s.len());
        lemma_insert_at_point(s.drop_last(), n, j);
        assert(spec_insert_by_timestamp(s.drop_last(), n).push(s.last()) =~= s.insert(j, n));
    }
}

proof fn lemma_insert_by_timestamp_sorted(s: Seq<RecordedNote>, n: RecordedNote)
    requires
        crate::state::spec_sorted_by_timestamp(s),
    ensures
        crate::state::spec_sorted_by_timestamp(spec_insert_by_timestamp(s, n)),
        spec_insert_by_timestamp(s, n).to_multiset() == s.to_multiset().insert(n),
        spec_insert_by_timestamp(s, n).len() == s.len() + 1,
    decreases s.len(),
{
    broadcast use vstd::seq_lib::group_to_multiset_ensures;

    if s.len() == 0 {
        assert(seq![n].drop_last() =~= Seq::<RecordedNote>::empty());
        assert(seq![n] =~= Seq::<RecordedNote>::empty().push(n));
    } else if s.last().timestamp <= n.timestamp {
    } else {
        lemma_insert_by_timestamp_sorted(s.drop_last(), n);
        let t = spec_insert_by_timestamp(s.drop_last(), n);
        assert forall|i: int, j: int|
            0 <= i < j < t.push(s.last()).len() implies t.push(s.last())[i].timestamp <= t.push(
            s.last(),
        )[j].timestamp by {
            if j < t.len() {
            } else {
                assert(t.to_multiset() == s.drop_last().to_multiset().insert(n));
                assert(t.to_multiset().contains(t[i]));
                if t[i] == n {
                } else {
                    assert(s.drop_last().to_multiset().contains(t[i]));
                    assert(s.drop_last().contains(t[i]));
                }
            }
        }
        assert(s.drop_last().to_multiset().insert(s.last()) =~= s.to_multiset()) by {
            assert(s.drop_last().push(s.last()) =~= s);
        }
        assert(t.push(s.last()).to_multiset() =~= s.to_multiset().insert(n));
    }
}

/// The sort orders its result, keeps exactly the notes it was given, and
/// leaves a list that is already ordered unchanged.
pub proof fn lemma_sort_by_timestamp_ensures(s: Seq<RecordedNote>)
    ensures
        crate::state::spec_sorted_by_timestamp(spec_sort_by_timestamp(s)),
        spec_sort_by_timestamp(s).to_multiset() == s.to_multiset(),
        spec_sort_by_timestamp(s).len() == s.len(),
        crate::state::spec_sorted_by_timestamp(s) ==> spec_sort_by_timestamp(s) == s,
    decreases s.len(),
{
    broadcast use vstd::seq_lib::group_to_multiset_ensures;

    if s.len() == 0 {
        assert(spec_sort_by_timestamp(s) =~= s);
    } else {
        lemma_sort_by_timestamp_ensures(s.drop_last());
        lemma_insert_by_timestamp_sorted(spec_sort_by_timestamp(s.drop_last()), s.last());
        assert(s.drop_last().push(s.last()) =~= s);
        assert(s.drop_last().to_multiset().insert(s.last()) =~= s.to_multiset());
        if crate::state::spec_sorted_by_timestamp(s) {
            assert(crate::state::spec_sorted_by_timestamp(s.drop_last()));
            let t = spec_sort_by_timestamp(s.drop_last());
            assert(t == s.drop_last());
            if t.len() > 0 {
                assert(t.last().timestamp <= s.last().timestamp);
            }
            assert(spec_insert_by_timestamp(t, s.last()) == s);
        }
    }
}

/// Sorts notes by start tick, stably: notes that start together keep
/// their relative order, and an already ordered list comes back as it is.
pub fn sort_notes_by_timestamp(notes: &[RecordedNote]) -> (r: Vec<RecordedNote>)
    ensures
        r@ == spec_sort_by_timestamp(notes@),
{
    let mut out: Vec<RecordedNote> = Vec::new();
    let mut i: usize = 0;
    proof {
        assert(notes@.subrange(0, 0) =~= Seq::<RecordedNote>::empty());
    }
    while i < notes.len()
        invariant
            i <= notes@.len(),
            out@ == spec_sort_by_timestamp(notes@.subrange(0, i as int)),
        decreases notes@.len() - i,
    {
        let n = notes[i];
        let mut j: usize = out.len();
        while j > 0 && out[j - 1].timestamp > n.timestamp
            invariant
                j <= out@.len(),
                forall|k: int| j <= k < out@.len() ==> out@[k].timestamp > n.timestamp,
            decreases j,
        {
            j = j - 1;
        }
        proof {
            lemma_insert_at_point(out@, n, j as int);
        }
        out.insert(j, n);
        proof {
            assert(notes@.subrange(0, i + 1).drop_last() =~= notes@.subrange(0, i as int));
            assert(notes@.subrange(0, i + 1).last() == notes@[i as int]);
        }
        i = i + 1;
    }
    proof {
        assert(notes@.subrange(0, notes@.len() as int) =~= notes@);
    }
    out
}

/// Big-endian bytes of a 32-bit value.
pub open spec fn spec_be32(v: int) -> Seq<u8> {
    seq![
        (v / 0x1000000 % 256) as u8,
        (v / 0x10000 % 256) as u8,
        (v / 0x100 % 256) as u8,
        (v % 256) as u8,
    ]
}

/// Big-endian bytes of a 16-bit value.
pub open spec fn spec_be16(v: int) -> Seq<u8> {
    seq![(v / 256 % 256) as u8, (v % 256) as u8]
}

/// Value of four big-endian bytes.
pub open spec fn spec_be32_value(b0: u8, b1: u8, b2: u8, b3: u8) -> int {
    ((b0 as int * 256 + b1 as int) * 256 + b2 as int) * 256 + b3 as int
}

fn push_be32(out: &mut Vec<u8>, v: u32)
    ensures
        final(out)@ == old(out)@ + spec_be32(v as int),
{
    let ghost pre = out@;
    out.push((v / 0x1000000 % 256) as u8);
    out.push((v / 0x10000 % 256) as u8);
    out.push((v / 0x100 % 256) as u8);
    out.push((v % 256) as u8);
    proof {
        assert(final(out)@ =~= pre + spec_be32(v as int));
    }
}

fn push_be16(out: &mut Vec<u8>, v: u16)
    ensures
        final(out)@ == old(out)@ + spec_be16(v as int),
{
    let ghost pre = out@;
    out.push((v / 256 % 256) as u8);
    out.push((v % 256) as u8);
    proof {
        assert(final(out)@ =~= pre + spec_be16(v as int));
    }
}

/// Four big-endian bytes of a 32-bit value read back give the value.
pub proof fn lemma_be32_round_trip(v: int)
    requires
        0 <= v <= u32::MAX,
    ensures
        ({
            let b = spec_be32(v);
            spec_be32_value(b[0], b[1], b[2], b[3]) == v
        }),
{
    let b = spec_be32(v);
    assert(((v / 0x1000000 % 256) * 256 + v / 0x10000 % 256) * 256 * 256 + (v / 0x100 % 256) * 256
        + v % 256 == v) by (nonlinear_arith)
        requires
            0 <= v <= 0xFFFF_FFFF,
    ;
}

/// Whether a note can be written to a file: its end tick must fit in a
/// variable-length quantity.
pub open spec fn spec_note_exportable(n: RecordedNote) -> bool {
    n.timestamp + n.duration <= VLQ_MAX
}

/// The track-name meta event that opens each written track.
pub open spec fn spec_track_name_meta(name: Seq<u8>) -> Seq<u8> {
    seq![0u8, 255u8, 3u8] + spec_vlq(name.len() as int) + name
}

/// The end-of-track meta event.
pub open spec fn spec_end_of_track() -> Seq<u8> {
    seq![0u8, 255u8, 47u8, 0u8]
}

/// Events of the notes from index `i` on: each note becomes a note-on at
/// velocity 100 and a note-off, with delta times running from `last`, and
/// the end-of-track event closes the list.  A note that starts before
/// `last` gets a zero delta.
pub open spec fn spec_note_events_from(notes: Seq<RecordedNote>, i: int, last: int) -> Seq<u8>
    decreases notes.len() - i,
{
    if i < 0 || i >= notes.len() {
        spec_end_of_track()
    } else {
        let n = notes[i];
        let on = n.timestamp as int;
        let off = n.timestamp + n.duration;
        let key = spec_midi_number(n.note, n.octave as int) as u8;
        let delta_on = if on >= last {
            on - last
        } else {
            0
        };
        spec_vlq(delta_on) + seq![144u8, key, 100u8] + spec_vlq(n.duration as int) + seq![
            128u8,
            key,
            0u8,
        ] + spec_note_events_from(notes, i + 1, off)
    }
}

/// One whole track chunk: the chunk tag and byte length framing the name
/// meta event, the note events, and the end-of-track marker.
pub open spec fn spec_track_chunk(name: Seq<u8>, notes: Seq<RecordedNote>) -> Seq<u8> {
    let body = spec_track_name_meta(name) + spec_note_events_from(notes, 0, 0);
    seq![77u8, 84u8, 114u8, 107u8] + spec_be32(body.len() as int) + body
}

/// The header chunk: format, track count, and 480 ticks per quarter.
pub open spec fn spec_header_chunk(format: int, ntracks: int) -> Seq<u8> {
    seq![77u8, 84u8, 104u8, 100u8] + spec_be32(6) + spec_be16(format) + spec_be16(ntracks)
        + spec_be16(480)
}

/// A whole single-track file for the given notes, in the order given.
#[verifier::opaque]
pub open spec fn spec_single_track_file(name: Seq<u8>, notes: Seq<RecordedNote>) -> Seq<u8> {
    spec_header_chunk(0, 1) + spec_track_chunk(name, notes)
}

proof fn lemma_note_events_len(notes: Seq<RecordedNote>, i: int, last: int)
    requires
        last >= 0,
        0 <= i <= notes.len(),
        forall|k: int| i <= k < notes.len() ==> spec_note_exportable(#[trigger] notes[k]),
    ensures
        spec_note_events_from(notes, i, last).len() <= 14 * (notes.len() - i) + 4,
        spec_note_events_from(notes, i, last).len() >= 4,
    decreases notes.len() - i,
{
    if 0 <= i < notes.len() {
        let n = notes[i];
        let on = n.timestamp as int;
        let delta_on = if on >= last {
            on - last
        } else {
            0
        };
        lemma_vlq_round_trip(delta_on);
        lemma_vlq_round_trip(n.duration as int);
        lemma_note_events_len(notes, i + 1, n.timestamp + n.duration);
        let key = spec_midi_number(n.note, n.octave as int) as u8;
        assert(spec_note_events_from(notes, i, last).len() == spec_vlq(delta_on).len() + 3
            + spec_vlq(n.duration as int).len() + 3 + spec_note_events_from(
            notes,
            i + 1,
            n.timestamp + n.duration,
        ).len());
    }
}

/// Encodes the notes of one track as a complete single-track MIDI file,
/// in time order.  The name labels the track; velocity is fixed at 100.
pub fn export_track_to_midi(track_notes: &[RecordedNote], track_name: &str) -> (r: Vec<u8>)
    requires
        forall|k: int| 0 <= k < track_notes@.len() ==> spec_note_exportable(#[trigger] track_notes@[k]),
        track_name.spec_bytes().len() <= VLQ_MAX,
        track_notes@.len() <= 0x0010_0000,
    ensures
        r@ == spec_single_track_file(
            track_name.spec_bytes(),
            spec_sort_by_timestamp(track_notes@),
        ),
{
    let sorted = sort_notes_by_timestamp(track_notes);
    proof {
        lemma_sort_by_timestamp_ensures(track_notes@);
        broadcast use vstd::seq_lib::group_to_multiset_ensures;

        assert forall|k: int|
            0 <= k < sorted@.len() implies spec_note_exportable(#[trigger] sorted@[k]) by {
            assert(sorted@.to_multiset().contains(sorted@[k]));
            assert(track_notes@.to_multiset().contains(sorted@[k]));
            assert(track_notes@.contains(sorted@[k]));
        }
    }
    let body = encode_track_body(&sorted, track_name);
    let mut out: Vec<u8> = Vec::new();
    out.push(77);
    out.push(84);
    out.push(104);
    out.push(100);
    push_be32(&mut out, 6);
    push_be16(&mut out, 0);
    push_be16(&mut out, 1);
    push_be16(&mut out, 480);
    out.push(77);
    out.push(84);
    out.push(114);
    out.push(107);
    proof {
        lemma_note_events_len(sorted@, 0, 0);
        lemma_vlq_round_trip(track_name.spec_bytes().len() as int);
    }
    push_be32(&mut out, body.len() as u32);
    let mut body = body;
    out.append(&mut body);
    proof {
        reveal(spec_single_track_file);
        assert(out@ =~= spec_single_track_file(
            track_name.spec_bytes(),
            spec_sort_by_timestamp(track_notes@),
        ));
    }
    out
}

/// Builds the byte body of one track chunk: the name meta event, the note
/// events of the already sorted notes, and the end-of-track marker.
#[verifier::rlimit(40)]
fn encode_track_body(sorted: &Vec<RecordedNote>, track_name: &str) -> (r: Vec<u8>)
    requires
        forall|k: int| 0 <= k < sorted@.len() ==> spec_note_exportable(#[trigger] sorted@[k]),
        track_name.spec_bytes().len() <= VLQ_MAX,
        sorted@.len() <= 0x0010_0000,
    ensures
        r@ == spec_track_name_meta(track_name.spec_bytes()) + spec_note_events_from(sorted@, 0, 0),
{
    let ghost name = track_name.spec_bytes();
    let mut body: Vec<u8> = Vec::new();
    body.push(0);
    body.push(255);
    body.push(3);
    let name_bytes = track_name.as_bytes();
    write_variable_length(name_bytes.len() as u32, &mut body);
    body.extend_from_slice(name_bytes);
    proof {
        assert(body@ =~= spec_track_name_meta(name));
    }
    let ghost meta = body@;
    let mut last: u64 = 0;
    let mut i: usize = 0;
    while i < sorted.len()
        invariant
            i <= sorted@.len(),
            forall|k: int| 0 <= k < sorted@.len() ==> spec_note_exportable(#[trigger] sorted@[k]),
            last <= VLQ_MAX,
            i > 0 ==> last == sorted@[i - 1].timestamp + sorted@[i - 1].duration,
            i == 0 ==> last == 0,
            meta + spec_note_events_from(sorted@, 0, 0) == body@ + spec_note_events_from(
                sorted@,
                i as int,
                last as int,
            ),
        decreases sorted@.len() - i,
    {
        let n = sorted[i];
        let key = note_to_midi_number(n.note, n.octave);
        let delta_on: u64 = if n.timestamp >= last {
            n.timestamp - last
        } else {
            0
        };
        write_variable_length(delta_on as u32, &mut body);
        body.push(144);
        body.push(key);
        body.push(100);
        write_variable_length(n.duration as u32, &mut body);
        body.push(128);
        body.push(key);
        body.push(0);
        proof {
            assert(spec_note_events_from(sorted@, i as int, last as int) == spec_vlq(
                delta_on as int,
            ) + seq![144u8, key, 100u8] + spec_vlq(n.duration as int) + seq![128u8, key, 0u8]
                + spec_note_events_from(sorted@, i + 1, n.timestamp + n.duration));
            assert(meta + spec_note_events_from(sorted@, 0, 0) == body@ + spec_note_events_from(
                sorted@,
                i + 1,
                (n.timestamp + n.duration) as int,
            ));
        }
        last = n.timestamp + n.duration;
        i = i + 1;
    }
    body.push(0);
    body.push(255);
    body.push(47);
    body.push(0);
    proof {
        assert(spec_note_events_from(sorted@, sorted@.len() as int, last as int)
            == spec_end_of_track());
        assert(body@ =~= meta + spec_note_events_from(sorted@, 0, 0));
    }
    body
}

/// Number of tracks from index `i` on that hold notes.
pub open spec fn spec_nonempty_count(tracks: Seq<crate::state::Track>, i: int) -> int
    decreases tracks.len() - i,
{
    if i < 0 || i >= tracks.len() {
        0
    } else if tracks[i].recorded_notes@.len() > 0 {
        1 + spec_nonempty_count(tracks, i + 1)
    } else {
        spec_nonempty_count(tracks, i + 1)
    }
}

/// The chunks of the tracks from index `i` on that hold notes, each a
/// track chunk of its name and its notes sorted by start tick.
pub open spec fn spec_multitrack_chunks(tracks: Seq<crate::state::Track>, i: int) -> Seq<u8>
    decreases tracks.len() - i,
{
    if i < 0 || i >= tracks.len() {
        Seq::empty()
    } else if tracks[i].recorded_notes@.len() > 0 {
        spec_track_chunk(
            vstd::utf8::encode_utf8(tracks[i].name@),
            spec_sort_by_timestamp(tracks[i].recorded_notes@),
        ) + spec_multitrack_chunks(tracks, i + 1)
    } else {
        spec_multitrack_chunks(tracks, i + 1)
    }
}

/// A whole multi-track file: a format-1 header counting the tracks that
/// hold notes, then one chunk for each of them in track order.
pub open spec fn spec_multitrack_file(tracks: Seq<crate::state::Track>) -> Seq<u8> {
    spec_header_chunk(1, spec_nonempty_count(tracks, 0)) + spec_multitrack_chunks(tracks, 0)
}

/// Encodes every track that holds notes into one multi-track MIDI file,
/// each track's notes in time order under its name.
pub fn export_multitrack_midi(tracks: &Vec<crate::state::Track>) -> (r: Vec<u8>)
    requires
        tracks@.len() <= 0xFFFF,
        forall|i: int, k: int|
            0 <= i < tracks@.len() && 0 <= k < (#[trigger] tracks@[i]).recorded_notes@.len()
                ==> spec_note_exportable(#[trigger] tracks@[i].recorded_notes@[k]),
        forall|i: int|
            0 <= i < tracks@.len() ==> vstd::utf8::encode_utf8(
                (#[trigger] tracks@[i]).name@,
            ).len() <= VLQ_MAX,
        forall|i: int|
            0 <= i < tracks@.len() ==> (#[trigger] tracks@[i]).recorded_notes@.len()
                <= 0x0010_0000,
    ensures
        r@ == spec_multitrack_file(tracks@),
{
    let n = tracks.len();
    let mut count: u16 = 0;
    let mut i: usize = 0;
    while i < n
        invariant
            i <= n,
            tracks@.len() == n,
            n <= u16::MAX,
            count as int + spec_nonempty_count(tracks@, i as int) == spec_nonempty_count(
                tracks@,
                0,
            ),
            count <= i,
        decreases n - i,
    {
        proof {
            lemma_nonempty_count_bound(tracks@, i as int);
        }
        if tracks[i].recorded_notes.len() > 0 {
            count = count + 1;
        }
        i = i + 1;
    }
    let mut out: Vec<u8> = Vec::new();
    out.push(77);
    out.push(84);
    out.push(104);
    out.push(100);
    push_be32(&mut out, 6);
    push_be16(&mut out, 1);
    push_be16(&mut out, count);
    push_be16(&mut out, 480);
    proof {
        assert(out@ =~= spec_header_chunk(1, spec_nonempty_count(tracks@, 0)));
    }
    let mut i: usize = 0;
    while i < n
        invariant
            i <= n,
            tracks@.len() == n,
            forall|ii: int, k: int|
                0 <= ii < tracks@.len() && 0 <= k < (#[trigger] tracks@[ii]).recorded_notes@.len()
                    ==> spec_note_exportable(#[trigger] tracks@[ii].recorded_notes@[k]),
            forall|ii: int|
                0 <= ii < tracks@.len() ==> vstd::utf8::encode_utf8(
                    (#[trigger] tracks@[ii]).name@,
                ).len() <= VLQ_MAX,
            forall|ii: int|
                0 <= ii < tracks@.len() ==> (#[trigger] tracks@[ii]).recorded_notes@.len()
                    <= 0x0010_0000,
            out@ + spec_multitrack_chunks(tracks@, i as int) == spec_multitrack_file(tracks@),
        decreases n - i,
    {
        let track = &tracks[i];
        if track.recorded_notes.len() > 0 {
            let sorted = sort_notes_by_timestamp(track.recorded_notes.as_slice());
            proof {
                lemma_sort_by_timestamp_ensures(track.recorded_notes@);
                broadcast use vstd::seq_lib::group_to_multiset_ensures;

                assert forall|k: int|
                    0 <= k < sorted@.len() implies spec_note_exportable(
                    #[trigger] sorted@[k],
                ) by {
                    assert(sorted@.to_multiset().contains(sorted@[k]));
                    assert(track.recorded_notes@.to_multiset().contains(sorted@[k]));
                    assert(track.recorded_notes@.contains(sorted@[k]));
                }
            }
            let mut body = encode_track_body(&sorted, track.name.as_str());
            let ghost pre_out = out@;
            out.push(77);
            out.push(84);
            out.push(114);
            out.push(107);
            proof {
                lemma_note_events_len(sorted@, 0, 0);
                lemma_vlq_round_trip(vstd::utf8::encode_utf8(track.name@).len() as int);
            }
            push_be32(&mut out, body.len() as u32);
            out.append(&mut body);
            proof {
                assert(out@ =~= pre_out + spec_track_chunk(
                    vstd::utf8::encode_utf8(tracks@[i as int].name@),
                    spec_sort_by_timestamp(tracks@[i as int].recorded_notes@),
                ));
                assert(out@ + spec_multitrack_chunks(tracks@, i + 1) =~= spec_multitrack_file(
                    tracks@,
                ));
            }
        }
        i = i + 1;
    }
    proof {
        assert(out@ =~= spec_multitrack_file(tracks@));
    }
    out
}

proof fn lemma_nonempty_count_bound(tracks: Seq<crate::state::Track>, i: int)
    requires
        0 <= i <= tracks.len(),
    ensures
        0 <= spec_nonempty_count(tracks, i) <= tracks.len() - i,
    decreases tracks.len() - i,
{
    if i < tracks.len() {
        lemma_nonempty_count_bound(tracks, i + 1);
    }
}

proof fn lemma_vlq_scan_of_write(v: int, rest: Seq<u8>)
    requires
        0 <= v <= VLQ_MAX,
    ensures
        ({
            let enc = spec_vlq(v);
            let bs = enc + rest;
            &&& spec_vlq_stop(bs) == enc.len()
            &&& spec_vlq_value(bs.subrange(0, enc.len() as int)) == v
        }),
{
    lemma_vlq_round_trip(v);
    let enc = spec_vlq(v);
    let bs = enc + rest;
    assert(bs.subrange(0, enc.len() as int) =~= enc);
    let n = enc.len() as int;
    assert(forall|j: int| 0 <= j < n - 1 ==> bs[j] >= 128);
    assert(bs[n - 1] < 128);
    if n == 1 {
        assert(spec_vlq_stop_from(bs, 0) == 1);
    } else if n == 2 {
        assert(spec_vlq_stop_from(bs, 0) == spec_vlq_stop_from(bs, 1));
        assert(spec_vlq_stop_from(bs, 1) == 2);
    } else if n == 3 {
        assert(spec_vlq_stop_from(bs, 0) == spec_vlq_stop_from(bs, 1));
        assert(spec_vlq_stop_from(bs, 1) == spec_vlq_stop_from(bs, 2));
        assert(spec_vlq_stop_from(bs, 2) == 3);
    } else {
        assert(n == 4);
        assert(spec_vlq_stop_from(bs, 0) == spec_vlq_stop_from(bs, 1));
        assert(spec_vlq_stop_from(bs, 1) == spec_vlq_stop_from(bs, 2));
        assert(spec_vlq_stop_from(bs, 2) == spec_vlq_stop_from(bs, 3));
        assert(spec_vlq_stop_from(bs, 3) == 4);
    }
}

proof fn lemma_flush_no_active(k: int, now: u64, notes: Seq<RecordedNote>)
    requires
        0 <= k <= 128,
    ensures
        spec_flush(spec_no_active(), k, now, notes) == notes,
    decreases 128 - k,
{
    if k < 128 {
        assert(spec_no_active()[k] is None);
        lemma_flush_no_active(k + 1, now, notes);
    }
}

proof fn lemma_rescale_identity(t: u64)
    requires
        t <= VLQ_MAX,
    ensures
        spec_rescale_ticks(t, 480) == t,
{
    assert((t as int) * 480 / 480 == t as int) by (nonlinear_arith);
}

/// Whether the key number of a note neither clamps at the bottom nor at
/// the top of the MIDI range, so that the key determines the note and
/// octave again.
pub open spec fn spec_note_in_midi_range(n: RecordedNote) -> bool {
    0 <= (n.octave + 1) * 12 + n.note.spec_semitone() <= 127
}

#[verifier::rlimit(80)]
proof fn lemma_scan_note_events(
    bs: Seq<u8>,
    notes: Seq<RecordedNote>,
    i: int,
    pos: int,
    running: u8,
    ticks: u64,
    acc: Seq<RecordedNote>,
)
    requires
        0 <= i <= notes.len(),
        0 <= pos <= bs.len(),
        bs.subrange(pos, bs.len() as int) == spec_note_events_from(notes, i, ticks as int),
        ticks <= VLQ_MAX,
        i < notes.len() ==> ticks <= notes[i].timestamp,
        crate::state::spec_non_overlapping(notes),
        forall|j: int| i <= j < notes.len() ==> spec_note_exportable(#[trigger] notes[j]),
        forall|j: int| i <= j < notes.len() ==> spec_note_in_midi_range(#[trigger] notes[j]),
    ensures
        spec_scan(bs, pos, ticks, running, spec_no_active(), acc, 480).0 == acc + notes.subrange(
            i,
            notes.len() as int,
        ),
        spec_scan(bs, pos, ticks, running, spec_no_active(), acc, 480).1 == spec_no_active(),
    decreases notes.len() - i,
{
    let len = bs.len() as int;
    let suffix = spec_note_events_from(notes, i, ticks as int);
    if i == notes.len() {
        assert(suffix == spec_end_of_track());
        assert(suffix =~= seq![0u8, 255u8, 47u8, 0u8]);
        assert(bs.subrange(pos, len).len() == len - pos);
        assert(len - pos == 4);
        assert(bs[pos] == 0 && bs[pos + 1] == 255 && bs[pos + 2] == 47 && bs[pos + 3] == 0);
        let tail = bs.subrange(pos, len);
        assert(spec_vlq_stop(tail) == 1);
        assert(tail.subrange(0, 1) =~= seq![0u8]);
        assert(seq![0u8].drop_last() =~= Seq::<u8>::empty());
        assert(spec_vlq_value(Seq::<u8>::empty()) == 0);
        assert(spec_vlq_value(seq![0u8]) == 0);
        let tail3 = bs.subrange(pos + 3, len);
        assert(tail3 =~= seq![0u8]);
        assert(spec_vlq_stop(tail3) == 1);
        assert(tail3.subrange(0, 1) =~= seq![0u8]);
        assert(spec_vlq_value(tail3.subrange(0, 1)) == 0);
        assert(spec_scan(bs, pos, ticks, running, spec_no_active(), acc, 480) == spec_scan(
            bs,
            len,
            ticks,
            255u8,
            spec_no_active(),
            acc,
            480,
        ));
        assert(spec_scan(bs, len, ticks, 255u8, spec_no_active(), acc, 480) == (
            acc,
            spec_no_active(),
            ticks,
        ));
        assert(acc + notes.subrange(i, notes.len() as int) =~= acc);
    } else {
        let n = notes[i];
        let on = n.timestamp;
        let off: u64 = (n.timestamp + n.duration) as u64;
        assert(off == n.timestamp + n.duration);
        let key = spec_midi_number(n.note, n.octave as int) as u8;
        let d_on: u64 = (on - ticks) as u64;
        assert(d_on == on - ticks);
        let enc_on = spec_vlq(d_on as int);
        let enc_dur = spec_vlq(n.duration as int);
        let rest1 = seq![144u8, key, 100u8] + enc_dur + seq![128u8, key, 0u8]
            + spec_note_events_from(notes, i + 1, off as int);
        assert(suffix == enc_on + rest1) by {
            assert(suffix =~= spec_vlq(d_on as int) + (seq![144u8, key, 100u8] + enc_dur + seq![
                128u8,
                key,
                0u8,
            ] + spec_note_events_from(notes, i + 1, off as int)));
        }
        lemma_vlq_scan_of_write(d_on as int, rest1);
        lemma_note_events_len(notes, i + 1, off as int);
        let tail = bs.subrange(pos, len);
        assert(tail == suffix);
        let n_on = enc_on.len() as int;
        assert(spec_vlq_stop(tail) == n_on);
        assert(spec_vlq_value(tail.subrange(0, n_on)) == d_on);
        let ticks1 = ticks.saturating_add(d_on);
        assert(ticks1 == on);
        let p1 = pos + n_on;
        assert(p1 < len) by {
            assert(rest1.len() >= 3 + 1 + 3 + 4);
        }
        assert(bs[p1] == 144) by {
            assert(suffix[n_on] == rest1[0]);
        }
        assert(bs[p1 + 1] == key && bs[p1 + 2] == 100) by {
            assert(suffix[n_on + 1] == rest1[1] && suffix[n_on + 2] == rest1[2]);
        }
        let p2 = p1 + 1;
        assert(p2 + 1 < len) by {
            assert(rest1.len() >= 11);
        }
        assert(0 <= key < 128);
        let now1 = spec_rescale_ticks(on, 480);
        lemma_rescale_identity(on);
        assert(now1 == on);
        let active1 = spec_no_active().update(key as int, Some(on));
        assert(spec_scan(bs, pos, ticks, running, spec_no_active(), acc, 480) == spec_scan(
            bs,
            p2 + 2,
            on,
            144u8,
            active1,
            acc,
            480,
        ));
        // the note-off event
        let pos2 = p2 + 2;
        let tail2 = bs.subrange(pos2, len);
        let rest2 = seq![128u8, key, 0u8] + spec_note_events_from(notes, i + 1, off as int);
        assert(tail2 == enc_dur + rest2) by {
            assert(tail2 =~= suffix.subrange(n_on + 3, suffix.len() as int));
            assert(suffix.subrange(n_on + 3, suffix.len() as int) =~= enc_dur + rest2);
        }
        lemma_vlq_scan_of_write(n.duration as int, rest2);
        let n_dur = enc_dur.len() as int;
        assert(spec_vlq_stop(tail2) == n_dur);
        assert(spec_vlq_value(tail2.subrange(0, n_dur)) == n.duration);
        let ticks2 = on.saturating_add(n.duration);
        assert(ticks2 == off);
        let q1 = pos2 + n_dur;
        assert(q1 < len) by {
            assert(rest2.len() >= 7);
        }
        assert(bs[q1] == 128 && bs[q1 + 1] == key && bs[q1 + 2] == 0) by {
            assert(tail2[n_dur] == rest2[0] && tail2[n_dur + 1] == rest2[1] && tail2[n_dur + 2]
                == rest2[2]);
        }
        let q2 = q1 + 1;
        assert(q2 + 1 < len) by {
            assert(rest2.len() >= 7);
        }
        let now2 = spec_rescale_ticks(off, 480);
        lemma_rescale_identity(off);
        assert(now2 == off);
        assert(active1[key as int] == Some(on));
        let closed = spec_closed_note(key as int, on, off);
        lemma_midi_number_round_trip(n.note, n.octave as int);
        assert(closed == n) by {
            assert(closed.note == n.note);
            assert(closed.octave == n.octave);
            assert(closed.duration == off.saturating_sub(on));
            assert(off.saturating_sub(on) == n.duration);
        }
        let active2 = active1.update(key as int, None);
        assert(active2 =~= spec_no_active());
        assert(spec_scan(bs, pos2, on, 144u8, active1, acc, 480) == spec_scan(
            bs,
            q2 + 2,
            off,
            128u8,
            active2,
            acc.push(n),
            480,
        ));
        // the remaining notes
        assert(bs.subrange(q2 + 2, len) == spec_note_events_from(notes, i + 1, off as int)) by {
            assert(bs.subrange(q2 + 2, len) =~= tail2.subrange(n_dur + 3, tail2.len() as int));
            assert(tail2.subrange(n_dur + 3, tail2.len() as int) =~= spec_note_events_from(
                notes,
                i + 1,
                off as int,
            ));
        }
        lemma_scan_note_events(bs, notes, i + 1, q2 + 2, 128u8, off, acc.push(n));
        assert(spec_scan(bs, q2 + 2, off, 128u8, spec_no_active(), acc.push(n), 480).0 == acc.push(
            n,
        ) + notes.subrange(i + 1, notes.len() as int));
        assert(acc.push(n) + notes.subrange(i + 1, notes.len() as int) =~= acc + notes.subrange(
            i,
            notes.len() as int,
        ));
    }
}

#[verifier::rlimit(100)]
proof fn lemma_single_file_layout(notes: Seq<RecordedNote>, name: Seq<u8>)
    requires
        forall|j: int| 0 <= j < notes.len() ==> spec_note_exportable(#[trigger] notes[j]),
        name.len() <= VLQ_MAX,
        notes.len() <= 0x0010_0000,
    ensures
        ({
            let file = spec_single_track_file(name, notes);
            let body = spec_track_name_meta(name) + spec_note_events_from(notes, 0, 0);
            let l = body.len() as int;
            &&& l <= u32::MAX
            &&& file.len() == 22 + l
            &&& file[0] == 77 && file[1] == 84 && file[2] == 104 && file[3] == 100
            &&& spec_be32_value(file[4], file[5], file[6], file[7]) == 6
            &&& file[10] == 0 && file[11] == 1 && file[12] == 1 && file[13] == 224
            &&& file[14] == 77 && file[15] == 84 && file[16] == 114 && file[17] == 107
            &&& spec_be32_value(file[18], file[19], file[20], file[21]) == l
            &&& file.subrange(22, 22 + l) == body
        }),
{
    reveal(spec_single_track_file);
    let file = spec_single_track_file(name, notes);
    let body = spec_track_name_meta(name) + spec_note_events_from(notes, 0, 0);
    let header = spec_header_chunk(0, 1);
    let chunk = spec_track_chunk(name, notes);
    assert(header =~= seq![
        77u8, 84u8, 104u8, 100u8, 0u8, 0u8, 0u8, 6u8, 0u8, 0u8, 0u8, 1u8, 1u8, 224u8,
    ]);
    let l = body.len() as int;
    lemma_vlq_round_trip(name.len() as int);
    lemma_note_events_len(notes, 0, 0);
    assert(l <= 3 + 4 + name.len() + 14 * notes.len() + 4);
    assert(l <= u32::MAX);
    assert(chunk == seq![77u8, 84u8, 114u8, 107u8] + spec_be32(l) + body);
    assert(file.len() == 14 + 8 + l);
    assert(file[0] == 77 && file[1] == 84 && file[2] == 104 && file[3] == 100);
    assert(file[4] == 0 && file[5] == 0 && file[6] == 0 && file[7] == 6);
    assert(spec_be32_value(file[4], file[5], file[6], file[7]) == 6);
    assert(file[10] == 0 && file[11] == 1 && file[12] == 1 && file[13] == 224);
    assert(file[14] == 77 && file[15] == 84 && file[16] == 114 && file[17] == 107);
    let b = spec_be32(l);
    assert(file[18] == b[0] && file[19] == b[1] && file[20] == b[2] && file[21] == b[3]);
    lemma_be32_round_trip(l);
    assert(spec_be32_value(file[18], file[19], file[20], file[21]) == l);
    assert(file.subrange(22, 22 + l) =~= body);
}

proof fn lemma_file_tracks_of_layout(file: Seq<u8>, body: Seq<u8>, notes: Seq<RecordedNote>)
    requires
        file.len() == 22 + body.len(),
        body.len() <= u32::MAX,
        file[14] == 77 && file[15] == 84 && file[16] == 114 && file[17] == 107,
        spec_be32_value(file[18], file[19], file[20], file[21]) == body.len(),
        file.subrange(22, 22 + body.len() as int) == body,
        spec_track_notes(body, 480u16) == notes,
    ensures
        spec_file_tracks(file, 14, 1, 480u16, Seq::empty()) == Ok::<_, MidiError>(notes),
{
    let l = body.len() as int;
    assert(spec_file_tracks(file, 14, 1, 480u16, Seq::empty()) == spec_file_tracks(
        file,
        22 + l,
        0,
        480u16,
        Seq::empty() + notes,
    ));
    assert(Seq::empty() + notes =~= notes);
}

proof fn lemma_import_of_header(file: Seq<u8>, notes: Seq<RecordedNote>)
    requires
        file.len() >= 14,
        file[0] == 77 && file[1] == 84 && file[2] == 104 && file[3] == 100,
        spec_be32_value(file[4], file[5], file[6], file[7]) == 6,
        (file[10] as int) * 256 + file[11] as int == 1,
        (file[12] as int) * 256 + file[13] as int == 480,
        spec_file_tracks(file, 14, 1, 480u16, Seq::empty()) == Ok::<_, MidiError>(notes),
        crate::state::spec_sorted_by_timestamp(notes),
    ensures
        spec_import(file) == Ok::<_, MidiError>(notes),
{
    assert((((file[12] as int) * 256 + file[13] as int) as u16) == 480u16);
    lemma_sort_by_timestamp_ensures(notes);
}

/// Round trip through the file format: a list of notes that is ordered by
/// start tick, free of overlaps between one note and the next, within the
/// tick range a file can carry, and within the octave range whose key
/// numbers do not clamp, is reproduced exactly — pitch class, octave,
/// start tick and duration — by writing it to a single-track file and
/// reading that file back.
#[verifier::rlimit(100)]
pub proof fn lemma_midi_round_trip(notes: Seq<RecordedNote>, name: Seq<u8>)
    requires
        crate::state::spec_non_overlapping(notes),
        forall|j: int| 0 <= j < notes.len() ==> spec_note_exportable(#[trigger] notes[j]),
        forall|j: int| 0 <= j < notes.len() ==> spec_note_in_midi_range(#[trigger] notes[j]),
        name.len() <= VLQ_MAX,
        notes.len() <= 0x0010_0000,
    ensures
        spec_import(spec_single_track_file(name, notes)) == Ok::<_, MidiError>(notes),
{
    let file = spec_single_track_file(name, notes);
    let body = spec_track_name_meta(name) + spec_note_events_from(notes, 0, 0);
    lemma_single_file_layout(notes, name);
    lemma_track_notes_of_encoding(name, notes);
    lemma_file_tracks_of_layout(file, body, notes);
    lemma_nonoverlap_sorted(notes);
    lemma_import_of_header(file, notes);
}

proof fn lemma_nonoverlap_sorted(notes: Seq<RecordedNote>)
    requires
        crate::state::spec_non_overlapping(notes),
    ensures
        crate::state::spec_sorted_by_timestamp(notes),
{
    assert forall|i: int, j: int|
        0 <= i < j < notes.len() implies notes[i].timestamp <= notes[j].timestamp by {
        lemma_timestamps_ordered(notes, i, j);
    }
}

proof fn lemma_timestamps_ordered(notes: Seq<RecordedNote>, i: int, j: int)
    requires
        crate::state::spec_non_overlapping(notes),
        0 <= i < j < notes.len(),
    ensures
        notes[i].timestamp <= notes[j].timestamp,
    decreases j - i,
{
    assert(notes[i].timestamp + notes[i].duration <= notes[i + 1].timestamp);
    if i + 1 < j {
        lemma_timestamps_ordered(notes, i + 1, j);
    }
}

#[verifier::rlimit(100)]
proof fn lemma_track_notes_of_encoding(name: Seq<u8>, notes: Seq<RecordedNote>)
    requires
        crate::state::spec_non_overlapping(notes),
        forall|j: int| 0 <= j < notes.len() ==> spec_note_exportable(#[trigger] notes[j]),
        forall|j: int| 0 <= j < notes.len() ==> spec_note_in_midi_range(#[trigger] notes[j]),
        name.len() <= VLQ_MAX,
    ensures
        spec_track_notes(spec_track_name_meta(name) + spec_note_events_from(notes, 0, 0), 480u16)
            == notes,
{
    let body = spec_track_name_meta(name) + spec_note_events_from(notes, 0, 0);
    let len = body.len() as int;
    let events = spec_note_events_from(notes, 0, 0);
    lemma_note_events_len(notes, 0, 0);
    lemma_vlq_round_trip(name.len() as int);
    let enc_n = spec_vlq(name.len() as int);
    let nn = enc_n.len() as int;
    assert(body[0] == 0 && body[1] == 255 && body[2] == 3);
    let tail = body.subrange(0, len);
    assert(tail =~= body);
    assert(spec_vlq_stop(body) == 1) by {
        assert(body[0] < 128);
    }
    assert(body.subrange(0, 1) =~= seq![0u8]);
    assert(seq![0u8].drop_last() =~= Seq::<u8>::empty());
    assert(spec_vlq_value(Seq::<u8>::empty()) == 0);
    assert(spec_vlq_value(seq![0u8]) == 0);
    assert(spec_vlq_value(body.subrange(0, 1)) == 0);
    // the meta event that names the track
    let tail3 = body.subrange(3, len);
    assert(tail3 =~= enc_n + (name + events));
    lemma_vlq_scan_of_write(name.len() as int, name + events);
    assert(spec_vlq_stop(tail3) == nn);
    assert(spec_vlq_value(tail3.subrange(0, nn)) == name.len());
    let p4 = 3 + nn;
    let pe = p4 + name.len() as int;
    assert(name.len() <= len - p4);
    assert(spec_scan(body, 0, 0, 0, spec_no_active(), Seq::empty(), 480u16) == spec_scan(
        body,
        pe,
        0,
        255u8,
        spec_no_active(),
        Seq::empty(),
        480u16,
    ));
    // the note events
    assert(body.subrange(pe, len) == spec_note_events_from(notes, 0, 0)) by {
        assert(body.subrange(pe, len) =~= events);
    }
    lemma_scan_note_events(body, notes, 0, pe, 255u8, 0, Seq::empty());
    let s = spec_scan(body, 0, 0, 0, spec_no_active(), Seq::empty(), 480u16);
    assert(s.0 =~= notes);
    lemma_flush_no_active(0, spec_rescale_ticks(s.2, 480u16), s.0);
}

} // verus!
