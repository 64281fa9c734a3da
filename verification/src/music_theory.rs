use vstd::prelude::*;

verus! {

/// A note, numbered as in MIDI and the ALSA sequencer.
#[derive(Clone, Copy, Debug, PartialEq, Eq, Structural, Hash)]
pub struct Pitch(u8);

impl Pitch {
    /// The MIDI note number.
    pub closed spec fn midi(self) -> u8 {
        self.0
    }

    /// The pitch with MIDI note number `val`.
    pub closed spec fn spec_from_midi(val: u8) -> Pitch {
        Pitch(val)
    }

    /// The pitch with MIDI note number `val`.
    pub fn from_midi(val: u8) -> (r: Pitch)
        ensures
            r == Pitch::spec_from_midi(val),
            r.midi() == val,
    {
        Pitch(val)
    }

    /// The MIDI note number.
    pub fn to_midi(self) -> (r: u8)
        ensures
            r == self.midi(),
    {
        self.0
    }
}

/// A pitch is its MIDI note number: converting one way and back gives what was there.
pub proof fn lemma_midi_roundtrip(p: Pitch, val: u8)
    ensures
        Pitch::spec_from_midi(p.midi()) == p,
        Pitch::spec_from_midi(val).midi() == val,
{
}

/// Nine pitches, one for each position along a wall.
pub struct Scale(pub [Pitch; 9]);

impl Scale {
    /// The pitch at position `offset`.
    pub fn at(&self, offset: usize) -> (r: Pitch)
        requires
            offset < 9,
        ensures
            r == self.0@[offset as int],
    {
        self.0[offset]
    }
}

} // verus!
