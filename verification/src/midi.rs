use crate::music_theory::Pitch;
use vstd::prelude::*;

verus! {

/// The fields of a note event of the ALSA sequencer.
#[derive(Clone, Copy, Debug, PartialEq, Eq, Structural)]
pub struct NoteEvent {
    pub channel: u8,
    pub note: u8,
    pub velocity: u8,
    pub off_velocity: u8,
    pub duration: u32,
}

/// The event that starts `pitch` on channel 0.
pub fn note_on_event(pitch: Pitch) -> (r: NoteEvent)
    ensures
        r == (NoteEvent {
            channel: 0,
            note: pitch.midi(),
            velocity: 32,
            off_velocity: 32,
            duration: 0,
        }),
{
    NoteEvent { channel: 0, note: pitch.to_midi(), velocity: 32, off_velocity: 32, duration: 0 }
}

/// The event that stops `pitch` on channel 0.
pub fn note_off_event(pitch: Pitch) -> (r: NoteEvent)
    ensures
        r == (NoteEvent { channel: 0, note: pitch.midi(), velocity: 0, off_velocity: 0, duration: 0 }),
{
    NoteEvent { channel: 0, note: pitch.to_midi(), velocity: 0, off_velocity: 0, duration: 0 }
}

} // verus!
