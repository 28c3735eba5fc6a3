//! Pitch classes, note names, and the octave range of the instrument.

use vstd::prelude::*;
use vstd::string::StringSliceAdditionalSpecFns;

verus! {

/// Two raised to the given power.
pub open spec fn spec_pow2(k: nat) -> int
    decreases k,
{
    if k == 0 {
        1
    } else {
        2 * spec_pow2((k - 1) as nat)
    }
}

proof fn lemma_pow2_small()
    ensures
        spec_pow2(0) == 1,
        spec_pow2(1) == 2,
        spec_pow2(2) == 4,
        spec_pow2(3) == 8,
        spec_pow2(4) == 16,
{
    assert(spec_pow2(0) == 1);
    assert(spec_pow2(1) == 2);
    assert(spec_pow2(2) == 4);
    assert(spec_pow2(3) == 8);
    assert(spec_pow2(4) == 16);
}

/// Lowest octave the instrument can be set to.
pub const OCTAVE_LOWER_BOUND: i32 = 1;

/// Highest octave the instrument can be set to.
pub const OCTAVE_UPPER_BOUND: i32 = 8;

/// The twelve pitch classes of the chromatic scale.
#[derive(Debug, PartialEq, Eq, Structural, Clone, Copy)]
pub enum Note {
    C,
    CSharp,
    D,
    DSharp,
    E,
    F,
    FSharp,
    G,
    GSharp,
    A,
    ASharp,
    B,
}

impl Note {
    /// Index of the pitch class within an octave, counting semitones up from C.
    pub open spec fn spec_semitone(self) -> int {
        match self {
            Note::C => 0,
            Note::CSharp => 1,
            Note::D => 2,
            Note::DSharp => 3,
            Note::E => 4,
            Note::F => 5,
            Note::FSharp => 6,
            Note::G => 7,
            Note::GSharp => 8,
            Note::A => 9,
            Note::ASharp => 10,
            Note::B => 11,
        }
    }

    /// ASCII spelling of the note name; sharps carry a trailing '#'.
    pub open spec fn spec_name_bytes(self) -> Seq<u8> {
        match self {
            Note::C => seq![67u8],
            Note::CSharp => seq![67u8, 35u8],
            Note::D => seq![68u8],
            Note::DSharp => seq![68u8, 35u8],
            Note::E => seq![69u8],
            Note::F => seq![70u8],
            Note::FSharp => seq![70u8, 35u8],
            Note::G => seq![71u8],
            Note::GSharp => seq![71u8, 35u8],
            Note::A => seq![65u8],
            Note::ASharp => seq![65u8, 35u8],
            Note::B => seq![66u8],
        }
    }

    /// The printable spelling of the note name, as characters.
    pub open spec fn spec_name_chars(self) -> Seq<char> {
        match self {
            Note::C => seq!['C'],
            Note::CSharp => seq!['C', '#'],
            Note::D => seq!['D'],
            Note::DSharp => seq!['D', '#'],
            Note::E => seq!['E'],
            Note::F => seq!['F'],
            Note::FSharp => seq!['F', '#'],
            Note::G => seq!['G'],
            Note::GSharp => seq!['G', '#'],
            Note::A => seq!['A'],
            Note::ASharp => seq!['A', '#'],
            Note::B => seq!['B'],
        }
    }

    /// The pitch class spelled by a byte string, if it spells one.
    pub open spec fn spec_from_bytes(bs: Seq<u8>) -> Option<Note> {
        if bs.len() == 1 {
            match bs[0] {
                67u8 => Some(Note::C),
                68u8 => Some(Note::D),
                69u8 => Some(Note::E),
                70u8 => Some(Note::F),
                71u8 => Some(Note::G),
                65u8 => Some(Note::A),
                66u8 => Some(Note::B),
                _ => None,
            }
        } else if bs.len() == 2 && bs[1] == 35u8 {
            match bs[0] {
                67u8 => Some(Note::CSharp),
                68u8 => Some(Note::DSharp),
                70u8 => Some(Note::FSharp),
                71u8 => Some(Note::GSharp),
                65u8 => Some(Note::ASharp),
                _ => None,
            }
        } else {
            None
        }
    }

    /// Parses a note name such as "C" or "F#"; any other string is rejected.
    pub fn from_str(s: &str) -> (r: Result<Note, &'static str>)
        ensures
            r is Ok <==> Self::spec_from_bytes(s.spec_bytes()) is Some,
            r matches Ok(n) ==> Self::spec_from_bytes(s.spec_bytes()) == Some(n),
    {
        let b = s.as_bytes();
        if b.len() == 1 {
            match b[0] {
                67u8 => Ok(Note::C),
                68u8 => Ok(Note::D),
                69u8 => Ok(Note::E),
                70u8 => Ok(Note::F),
                71u8 => Ok(Note::G),
                65u8 => Ok(Note::A),
                66u8 => Ok(Note::B),
                _ => Err("Invalid note name"),
            }
        } else if b.len() == 2 && b[1] == 35u8 {
            match b[0] {
                67u8 => Ok(Note::CSharp),
                68u8 => Ok(Note::DSharp),
                70u8 => Ok(Note::FSharp),
                71u8 => Ok(Note::GSharp),
                65u8 => Ok(Note::ASharp),
                _ => Err("Invalid note name"),
            }
        } else {
            Err("Invalid note name")
        }
    }

    /// Base frequency of the pitch class in octave 4, in centihertz.
    pub open spec fn spec_base_centihertz(self) -> int {
        match self {
            Note::C => 26163,
            Note::CSharp => 27718,
            Note::D => 29366,
            Note::DSharp => 31113,
            Note::E => 32963,
            Note::F => 34923,
            Note::FSharp => 36999,
            Note::G => 39200,
            Note::GSharp => 41530,
            Note::A => 44000,
            Note::ASharp => 46616,
            Note::B => 49388,
        }
    }

    /// Frequency of the note at an octave, in centihertz: the base
    /// frequency doubled once per octave above 4 and halved once per
    /// octave below, the halves rounding down.
    pub open spec fn spec_frequency_centihertz(self, octave: int) -> int {
        let base = self.spec_base_centihertz();
        if octave >= 4 {
            base * spec_pow2((octave - 4) as nat)
        } else {
            base / spec_pow2((4 - octave) as nat)
        }
    }

    /// Computes the frequency of the note adjusted to the octave, in
    /// centihertz.
    pub fn frequency(&self, octave: i32) -> (r: u32)
        requires
            OCTAVE_LOWER_BOUND <= octave <= OCTAVE_UPPER_BOUND,
        ensures
            r as int == self.spec_frequency_centihertz(octave as int),
            1 <= r <= 800_000,
    {
        let base: u32 = match self {
            Note::C => 26163,
            Note::CSharp => 27718,
            Note::D => 29366,
            Note::DSharp => 31113,
            Note::E => 32963,
            Note::F => 34923,
            Note::FSharp => 36999,
            Note::G => 39200,
            Note::GSharp => 41530,
            Note::A => 44000,
            Note::ASharp => 46616,
            Note::B => 49388,
        };
        proof {
            lemma_pow2_small();
        }
        if octave >= 4 {
            let shift = (octave - 4) as u32;
            let mut f = base;
            let mut k: u32 = 0;
            while k < shift
                invariant
                    k <= shift <= 4,
                    f == self.spec_base_centihertz() * spec_pow2(k as nat),
                    f <= 49388 * 16,
                decreases shift - k,
            {
                proof {
                    lemma_pow2_small();
                    assert(spec_pow2((k + 1) as nat) == 2 * spec_pow2(k as nat));
                    assert(self.spec_base_centihertz() * spec_pow2((k + 1) as nat) == 2 * (
                    self.spec_base_centihertz() * spec_pow2(k as nat))) by (nonlinear_arith)
                        requires
                            spec_pow2((k + 1) as nat) == 2 * spec_pow2(k as nat),
                    ;
                    assert(spec_pow2(k as nat) <= 8) by {
                        if k == 0 {
                        } else if k == 1 {
                        } else if k == 2 {
                        } else {
                            assert(k == 3);
                        }
                    }
                    assert(self.spec_base_centihertz() * spec_pow2(k as nat) <= 49388 * 8)
                        by (nonlinear_arith)
                        requires
                            spec_pow2(k as nat) <= 8,
                            0 <= self.spec_base_centihertz() <= 49388,
                    ;
                }
                f = f * 2;
                k = k + 1;
            }
            f
        } else {
            let shift = (4 - octave) as u32;
            let mut f = base;
            let mut k: u32 = 0;
            while k < shift
                invariant
                    k <= shift <= 3,
                    f == self.spec_base_centihertz() / spec_pow2(k as nat),
                    1 <= f <= 49388,
                decreases shift - k,
            {
                proof {
                    lemma_pow2_small();
                    assert(spec_pow2((k + 1) as nat) == 2 * spec_pow2(k as nat));
                    assert(self.spec_base_centihertz() / spec_pow2(k as nat) / 2
                        == self.spec_base_centihertz() / spec_pow2((k + 1) as nat))
                        by (nonlinear_arith)
                        requires
                            spec_pow2((k + 1) as nat) == 2 * spec_pow2(k as nat),
                            spec_pow2(k as nat) >= 1,
                            self.spec_base_centihertz() >= 0,
                    ;
                    assert(spec_pow2(k as nat) <= 4) by {
                        if k == 0 {
                        } else if k == 1 {
                        } else {
                            assert(k == 2);
                        }
                    }
                    assert(self.spec_base_centihertz() / spec_pow2(k as nat) >= 26163int / 4)
                        by (nonlinear_arith)
                        requires
                            1 <= spec_pow2(k as nat) <= 4,
                            self.spec_base_centihertz() >= 26163,
                    ;
                }
                f = f / 2;
                k = k + 1;
            }
            f
        }
    }

    /// The printable name of the pitch class.
    pub fn name(&self) -> (r: &'static str)
        ensures
            r@ =~= self.spec_name_chars(),
    {
        proof {
            reveal_strlit("C");
            reveal_strlit("C#");
            reveal_strlit("D");
            reveal_strlit("D#");
            reveal_strlit("E");
            reveal_strlit("F");
            reveal_strlit("F#");
            reveal_strlit("G");
            reveal_strlit("G#");
            reveal_strlit("A");
            reveal_strlit("A#");
            reveal_strlit("B");
        }
        match self {
            Note::C => "C",
            Note::CSharp => "C#",
            Note::D => "D",
            Note::DSharp => "D#",
            Note::E => "E",
            Note::F => "F",
            Note::FSharp => "F#",
            Note::G => "G",
            Note::GSharp => "G#",
            Note::A => "A",
            Note::ASharp => "A#",
            Note::B => "B",
        }
    }
}

} // verus!
