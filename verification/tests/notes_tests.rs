use guitar_pitch_detection::notes::{
    note_name, octave, pitch_class, pitch_class_name, MAX_MIDI, MIN_MIDI, NUM_NOTES,
};

#[test]
fn note_names_spot_check() {
    assert_eq!(note_name(40), "E2");
    assert_eq!(note_name(45), "A2");
    assert_eq!(note_name(69), "A4");
    assert_eq!(note_name(60), "C4");
}

#[test]
fn note_name_range_ends() {
    assert_eq!(note_name(0), "C-1");
    assert_eq!(note_name(11), "B-1");
    assert_eq!(note_name(12), "C0");
    assert_eq!(note_name(58), "A#3");
    assert_eq!(note_name(127), "G9");
}

#[test]
fn note_name_is_pitch_name_then_octave() {
    for m in 0u8..=127 {
        let expected = format!("{}{}", pitch_class_name(pitch_class(m)), octave(m));
        assert_eq!(note_name(m), expected, "MIDI {m}");
    }
}

#[test]
fn pitch_class_values() {
    assert_eq!(pitch_class(60), 0);
    assert_eq!(pitch_class(69), 9);
    assert_eq!(pitch_class(40), 4);
    assert_eq!(pitch_class(255), 3);
}

#[test]
fn octave_values() {
    assert_eq!(octave(0), -1);
    assert_eq!(octave(11), -1);
    assert_eq!(octave(12), 0);
    assert_eq!(octave(40), 2);
    assert_eq!(octave(60), 4);
    assert_eq!(octave(69), 4);
    assert_eq!(octave(127), 9);
}

#[test]
fn octave_of_bytes_above_127_follows_signed_reinterpretation() {
    // 128 reads as -128: -128 / 12 = -10 (toward zero), minus one.
    assert_eq!(octave(128), -11);
    // 255 reads as -1: -1 / 12 = 0, minus one.
    assert_eq!(octave(255), -1);
    // 244 reads as -12: -12 / 12 = -1, minus one.
    assert_eq!(octave(244), -2);
}

#[test]
fn pitch_class_names() {
    let names = ["C", "C#", "D", "D#", "E", "F", "F#", "G", "G#", "A", "A#", "B"];
    for (pc, name) in names.iter().enumerate() {
        assert_eq!(pitch_class_name(pc as u8), *name);
    }
}

#[test]
fn detector_range_constants() {
    assert_eq!(MIN_MIDI, 36);
    assert_eq!(MAX_MIDI, 88);
    assert_eq!(NUM_NOTES, (MAX_MIDI - MIN_MIDI + 1) as usize);
}
