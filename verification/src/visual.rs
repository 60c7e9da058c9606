//! Where a note lands on the visualizer: one line per octave, twelve notes
//! around the circle.

use vstd::prelude::*;

verus! {

/// Notes per octave.
pub const VISUALIZER_NOTES: usize = 12;

/// Octaves shown.
pub const VISUALIZER_OCTAVES: usize = 6;

/// The lowest note shown, as a MIDI note number (C2).
pub const FIRST_MIDI_NOTE: i32 = 36;

/// The highest note shown, as a MIDI note number (B7).
pub const LAST_MIDI_NOTE: i32 = 107;

/// The octave line and the note around the circle of a MIDI note, when it
/// is within the shown range: octaves count from the first note, notes from
/// C.
pub fn octave_note_slot(midi_note: i32) -> (r: Option<(usize, usize)>)
    ensures
        (FIRST_MIDI_NOTE <= midi_note <= LAST_MIDI_NOTE) ==> r == Some((
            ((midi_note - FIRST_MIDI_NOTE) / 12) as usize,
            (midi_note % 12) as usize,
        )),
        !(FIRST_MIDI_NOTE <= midi_note <= LAST_MIDI_NOTE) ==> r is None,
        r matches Some((octave, note)) ==> octave < VISUALIZER_OCTAVES && note < VISUALIZER_NOTES,
{
    if midi_note < FIRST_MIDI_NOTE || midi_note > LAST_MIDI_NOTE {
        return None;
    }
    let relative_note = (midi_note - FIRST_MIDI_NOTE) as usize;
    let note = (midi_note % 12) as usize;
    Some((relative_note / VISUALIZER_NOTES, note))
}

} // verus!
