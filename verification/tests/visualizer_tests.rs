use oryx::visual::octave_note_slot;

#[test]
fn octave_slots_wrap_from_b_to_the_next_c() {
    // The B just below the C that opens the second octave line (MIDI 59).
    let b_midi = 59;
    let b = octave_note_slot(b_midi).unwrap();
    let c = octave_note_slot(b_midi + 1).unwrap();

    assert_eq!(b, (1, 11));
    assert_eq!(c, (2, 0));
}
