//! Musical notes: the twelve pitch classes, their base frequencies and the
//! mapping between notes and positions on the semitone scale.

use vstd::arithmetic::power2::{lemma2_to64, lemma_pow2_unfold, pow2};
use vstd::prelude::*;

verus! {

/// Number of pitch classes in an octave.
pub const SEMITONES_PER_OCTAVE: u32 = 12;

/// Highest octave a [`Note`] may carry.
pub const MAX_OCTAVE: u32 = 8;

/// One of the twelve chromatic pitch classes.
#[derive(Copy, Clone, Debug, PartialEq, Eq, Structural)]
pub enum NoteType {
    A,
    Bb,
    B,
    C,
    Db,
    D,
    Eb,
    E,
    F,
    Gb,
    G,
    Ab,
}

/// A pitch class together with its octave.
#[derive(Copy, Clone, Debug, PartialEq, Eq, Structural)]
pub struct Note {
    pub note: NoteType,
    pub octave: u32,
}

/// The pitch classes by ascending base frequency, starting at `C`.
pub open spec fn frequency_order() -> Seq<NoteType> {
    seq![
        NoteType::C,
        NoteType::Db,
        NoteType::D,
        NoteType::Eb,
        NoteType::E,
        NoteType::F,
        NoteType::Gb,
        NoteType::G,
        NoteType::Ab,
        NoteType::A,
        NoteType::Bb,
        NoteType::B,
    ]
}

/// The pitch classes in conventional display order, starting at `A`.
pub open spec fn display_order() -> Seq<NoteType> {
    seq![
        NoteType::A,
        NoteType::Bb,
        NoteType::B,
        NoteType::C,
        NoteType::Db,
        NoteType::D,
        NoteType::Eb,
        NoteType::E,
        NoteType::F,
        NoteType::Gb,
        NoteType::G,
        NoteType::Ab,
    ]
}

impl NoteType {
    /// Base frequency at octave 0, in hundredths of a hertz.
    pub open spec fn base(self) -> nat {
        match self {
            NoteType::A => 2750,
            NoteType::Bb => 2914,
            NoteType::B => 3087,
            NoteType::C => 1635,
            NoteType::Db => 1732,
            NoteType::D => 1835,
            NoteType::Eb => 1945,
            NoteType::E => 2060,
            NoteType::F => 2183,
            NoteType::Gb => 2312,
            NoteType::G => 2450,
            NoteType::Ab => 2596,
        }
    }

    /// Position of the pitch class in [`frequency_order`].
    pub open spec fn rank(self) -> nat {
        match self {
            NoteType::C => 0,
            NoteType::Db => 1,
            NoteType::D => 2,
            NoteType::Eb => 3,
            NoteType::E => 4,
            NoteType::F => 5,
            NoteType::Gb => 6,
            NoteType::G => 7,
            NoteType::Ab => 8,
            NoteType::A => 9,
            NoteType::Bb => 10,
            NoteType::B => 11,
        }
    }

    pub fn in_frequency_order() -> (order: [NoteType; 12])
        ensures
            order@ == frequency_order(),
    {
        let order = [
            NoteType::C,
            NoteType::Db,
            NoteType::D,
            NoteType::Eb,
            NoteType::E,
            NoteType::F,
            NoteType::Gb,
            NoteType::G,
            NoteType::Ab,
            NoteType::A,
            NoteType::Bb,
            NoteType::B,
        ];
        assert(order@ =~= frequency_order());
        order
    }

    pub fn in_order() -> (order: [NoteType; 12])
        ensures
            order@ == display_order(),
    {
        let order = [
            NoteType::A,
            NoteType::Bb,
            NoteType::B,
            NoteType::C,
            NoteType::Db,
            NoteType::D,
            NoteType::Eb,
            NoteType::E,
            NoteType::F,
            NoteType::Gb,
            NoteType::G,
            NoteType::Ab,
        ];
        assert(order@ =~= display_order());
        order
    }

    /// Base frequency at octave 0, in hundredths of a hertz.
    pub fn centihertz(&self) -> (f: u32)
        ensures
            f == self.base(),
    {
        match self {
            NoteType::A => 2750,
            NoteType::Bb => 2914,
            NoteType::B => 3087,
            NoteType::C => 1635,
            NoteType::Db => 1732,
            NoteType::D => 1835,
            NoteType::Eb => 1945,
            NoteType::E => 2060,
            NoteType::F => 2183,
            NoteType::Gb => 2312,
            NoteType::G => 2450,
            NoteType::Ab => 2596,
        }
    }
}

impl Note {
    /// Octaves run from 0 to [`MAX_OCTAVE`].
    pub open spec fn wf(self) -> bool {
        self.octave <= MAX_OCTAVE
    }

    /// Frequency in hundredths of a hertz: the base frequency of the pitch
    /// class, doubled once per octave.
    pub open spec fn spec_centihertz(self) -> nat {
        self.note.base() * pow2(self.octave as nat)
    }

    /// Position on the semitone scale, counted from `C` at octave 0.
    pub open spec fn spec_semitone(self) -> nat {
        self.octave as nat * 12 + self.note.rank()
    }

    /// The note at position `t` of the semitone scale.
    pub open spec fn at_semitone(t: int) -> Note {
        Note { note: frequency_order()[t % 12], octave: (t / 12) as u32 }
    }

    /// Creates a note. The octave must not exceed [`MAX_OCTAVE`].
    pub fn new(note: NoteType, octave: u32) -> (n: Note)
        requires
            octave <= MAX_OCTAVE,
        ensures
            n.note == note,
            n.octave == octave,
            n.wf(),
    {
        Note { note, octave }
    }

    /// Frequency in hundredths of a hertz.
    pub fn centihertz(&self) -> (f: u32)
        requires
            self.wf(),
        ensures
            f == self.spec_centihertz(),
    {
        let mut f: u32 = self.note.centihertz();
        let mut i: u32 = 0;
        proof {
            lemma2_to64();
        }
        while i < self.octave
            invariant
                i <= self.octave <= MAX_OCTAVE,
                f == self.note.base() * pow2(i as nat),
                f <= 3087 * pow2(i as nat),
            decreases self.octave - i,
        {
            proof {
                lemma_pow2_unfold(i as nat + 1);
                lemma_pow2_bound(i as nat);
                assert(f * 2 == self.note.base() * (2 * pow2(i as nat))) by (nonlinear_arith)
                    requires
                        f == self.note.base() * pow2(i as nat),
                ;
            }
            f = f * 2;
            i = i + 1;
        }
        f
    }

    /// Frequency in whole hertz, rounded down.
    pub fn hertz(&self) -> (f: u32)
        requires
            self.wf(),
        ensures
            f == self.spec_centihertz() / 100,
    {
        self.centihertz() / 100
    }

    /// Position on the semitone scale, counted from `C` at octave 0.
    pub fn semitone(&self) -> (t: u32)
        requires
            self.wf(),
        ensures
            t == self.spec_semitone(),
            t < 108,
    {
        let rank: u32 = match self.note {
            NoteType::C => 0,
            NoteType::Db => 1,
            NoteType::D => 2,
            NoteType::Eb => 3,
            NoteType::E => 4,
            NoteType::F => 5,
            NoteType::Gb => 6,
            NoteType::G => 7,
            NoteType::Ab => 8,
            NoteType::A => 9,
            NoteType::Bb => 10,
            NoteType::B => 11,
        };
        self.octave * SEMITONES_PER_OCTAVE + rank
    }

    /// The note at position `t` of the semitone scale, where position 0 is
    /// `C` at octave 0. Positions below the scale or above octave
    /// [`MAX_OCTAVE`] name no note.
    pub fn from_semitone(t: i64) -> (n: Option<Note>)
        ensures
            n is Some <==> 0 <= t < 108,
            n is Some ==> n->Some_0 == Note::at_semitone(t as int),
            n is Some ==> n->Some_0.wf() && n->Some_0.spec_semitone() == t,
    {
        if t < 0 || t >= 108 {
            return None;
        }
        let octave: u32 = (t / 12) as u32;
        let index: usize = (t % 12) as usize;
        let order = NoteType::in_frequency_order();
        let note = order[index];
        Some(Note { note, octave })
    }
}

/// `pow2` of an exponent up to [`MAX_OCTAVE`] is at most 256.
proof fn lemma_pow2_bound(i: nat)
    requires
        i <= 8,
    ensures
        pow2(i) <= 256,
{
    lemma2_to64();
}

/// Raising a note by one octave doubles its frequency exactly.
pub proof fn octave_doubles_frequency(note: NoteType, octave: u32)
    requires
        octave < MAX_OCTAVE,
    ensures
        (Note { note, octave: (octave + 1) as u32 }).spec_centihertz() == 2 * (Note {
            note,
            octave,
        }).spec_centihertz(),
{
    lemma_pow2_unfold(octave as nat + 1);
    assert(note.base() * (2 * pow2(octave as nat)) == 2 * (note.base() * pow2(octave as nat)))
        by (nonlinear_arith);
}

/// Every valid note is the note found at its own semitone position.
pub proof fn semitone_round_trip(n: Note)
    requires
        n.wf(),
    ensures
        0 <= n.spec_semitone() < 108,
        Note::at_semitone(n.spec_semitone() as int) == n,
{
}

} // verus!
