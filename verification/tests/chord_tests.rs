use guitar_pitch_detection::chord::detect_chord;
use guitar_pitch_detection::modulation::shift_notes;
use guitar_pitch_detection::types::{ChordQuality, DetectedChord};

fn chord(pcs: &[u8]) -> Option<DetectedChord> {
    detect_chord(pcs)
}

#[test]
fn a_minor_chord() {
    // A minor = A(9) + C(0) + E(4)
    let c = chord(&[9, 0, 4]).unwrap();
    assert_eq!(c.root, 9);
    assert_eq!(c.quality, ChordQuality::Minor);
    assert_eq!(c.name, "Am");
}

#[test]
fn g_major_chord() {
    // G major = G(7) + B(11) + D(2)
    let c = chord(&[7, 11, 2]).unwrap();
    assert_eq!(c.root, 7);
    assert_eq!(c.quality, ChordQuality::Major);
    assert_eq!(c.name, "G");
}

#[test]
fn e_power_chord() {
    // E5 = E(4) + B(11)
    let c = chord(&[4, 11]).unwrap();
    assert_eq!(c.root, 4);
    assert_eq!(c.quality, ChordQuality::Power);
    assert_eq!(c.name, "E5");
}

#[test]
fn dominant_seven() {
    // A7 = A(9) + C#(1) + E(4) + G(7)
    let c = chord(&[9, 1, 4, 7]).unwrap();
    assert_eq!(c.root, 9);
    assert_eq!(c.quality, ChordQuality::Dominant7);
    assert_eq!(c.name, "A7");
}

#[test]
fn no_match_for_random_notes() {
    // C + D + F#: no chord pattern is complete among these pitch classes.
    assert!(chord(&[0, 2, 6]).is_none());
}

#[test]
fn single_note_returns_none() {
    assert!(chord(&[4]).is_none());
}

#[test]
fn sus4_chord() {
    // A + D + E is both Asus4 and Dsus2; either reading is acceptable.
    let c = chord(&[9, 2, 4]).unwrap();
    assert!(
        matches!(c.quality, ChordQuality::Sus4 | ChordQuality::Sus2),
        "Expected Sus4 or Sus2, got {:?}",
        c.quality
    );
}

#[test]
fn empty_input_returns_none() {
    assert!(chord(&[]).is_none());
}

#[test]
fn first_candidate_wins_ties() {
    // Dsus2 (root 2) is reached before Asus4 (root 9) in the search order.
    let c = chord(&[9, 2, 4]).unwrap();
    assert_eq!(c.root, 2);
    assert_eq!(c.quality, ChordQuality::Sus2);
    assert_eq!(c.name, "Dsus2");
}

#[test]
fn complete_chord_beats_chord_with_foreign_note() {
    // C E G B: Cmaj7 has no foreign note, C major has one (B); maj7 wins.
    let c = chord(&[0, 4, 7, 11]).unwrap();
    assert_eq!(c.name, "Cmaj7");
    assert_eq!(c.quality, ChordQuality::Major7);
}

#[test]
fn one_foreign_note_is_tolerated() {
    // C E G + F#: C major with one passing tone.
    let c = chord(&[0, 4, 7, 6]).unwrap();
    assert_eq!(c.root, 0);
    assert_eq!(c.quality, ChordQuality::Major);
    assert_eq!(c.name, "C");
}

#[test]
fn two_foreign_notes_are_rejected() {
    // E + B (power chord) plus C# and F: two foreign pitch classes, and no
    // larger pattern covers the set.
    assert!(chord(&[4, 11, 1, 5]).is_none());
}

#[test]
fn repeated_foreign_note_counts_twice() {
    // E5 plus one C#: a single foreign entry is tolerated.
    assert_eq!(chord(&[4, 11, 1]).unwrap().name, "E5");
    // E5 plus C# twice: two foreign entries, and no other pattern fits.
    assert!(chord(&[4, 11, 1, 1]).is_none());
}

#[test]
fn repeated_chord_tones_are_harmless() {
    let c = chord(&[4, 11, 4, 11, 4]).unwrap();
    assert_eq!(c.name, "E5");
}

#[test]
fn out_of_range_values_count_as_foreign() {
    let c = chord(&[4, 11, 200]).unwrap();
    assert_eq!(c.name, "E5");
    assert!(chord(&[4, 11, 200, 13]).is_none());
}

#[test]
fn chord_confidence_is_full_match() {
    let c = chord(&[9, 1, 4, 7]).unwrap();
    assert_eq!(c.matched_tones, 4);
    assert_eq!(c.chord_tones, 4);
    let p = chord(&[4, 11]).unwrap();
    assert_eq!(p.matched_tones, 2);
    assert_eq!(p.chord_tones, 2);
}

#[test]
fn every_quality_is_recognised() {
    let cases: [(&[u8], &str, ChordQuality); 10] = [
        (&[0, 4, 7], "C", ChordQuality::Major),
        (&[2, 5, 9], "Dm", ChordQuality::Minor),
        (&[7, 11, 2, 5], "G7", ChordQuality::Dominant7),
        (&[5, 9, 0, 4], "Fmaj7", ChordQuality::Major7),
        (&[9, 0, 4, 7], "Am7", ChordQuality::Minor7),
        (&[11, 2, 5], "Bdim", ChordQuality::Diminished),
        (&[0, 4, 8], "Caug", ChordQuality::Augmented),
        (&[0, 2, 7], "Csus2", ChordQuality::Sus2),
        (&[1, 6, 8], "C#sus4", ChordQuality::Sus4),
        (&[6, 1], "F#5", ChordQuality::Power),
    ];
    for (pcs, name, quality) in cases.iter() {
        let c = chord(pcs).unwrap_or_else(|| panic!("no chord for {pcs:?}"));
        assert_eq!(c.name, *name, "{pcs:?}");
        assert_eq!(c.quality, *quality, "{pcs:?}");
    }
}

#[test]
fn order_of_pitch_classes_does_not_matter() {
    let a = chord(&[9, 0, 4]).unwrap();
    let b = chord(&[4, 9, 0]).unwrap();
    let c = chord(&[0, 4, 9]).unwrap();
    assert_eq!(a, b);
    assert_eq!(b, c);
}

#[test]
fn suffixes() {
    assert_eq!(ChordQuality::Major.suffix(), "");
    assert_eq!(ChordQuality::Minor.suffix(), "m");
    assert_eq!(ChordQuality::Dominant7.suffix(), "7");
    assert_eq!(ChordQuality::Major7.suffix(), "maj7");
    assert_eq!(ChordQuality::Minor7.suffix(), "m7");
    assert_eq!(ChordQuality::Diminished.suffix(), "dim");
    assert_eq!(ChordQuality::Augmented.suffix(), "aug");
    assert_eq!(ChordQuality::Sus2.suffix(), "sus2");
    assert_eq!(ChordQuality::Sus4.suffix(), "sus4");
    assert_eq!(ChordQuality::Power.suffix(), "5");
}

#[test]
fn shift_reruns_chord_detection() {
    // Am triad (A3=57, C4=60, E4=64) shifted up 3 semitones is Cm (C4, Eb4, G4).
    let (kept, chord) = shift_notes(&[57, 60, 64], 3);
    let midis: Vec<u8> = kept.iter().map(|&(_, m)| m).collect();
    assert!(midis.contains(&60), "missing C4");
    assert!(midis.contains(&63), "missing Eb4");
    assert!(midis.contains(&67), "missing G4");
    assert_eq!(kept, vec![(0, 60), (1, 63), (2, 67)]);
    let c = chord.unwrap();
    assert_eq!(c.quality, ChordQuality::Minor);
    assert_eq!(c.root, 0);
    assert_eq!(c.name, "Cm");
}

#[test]
fn transposition_keeps_recognition() {
    for s in 0u8..12 {
        let am: Vec<u8> = [9u8, 0, 4].iter().map(|pc| (pc + s) % 12).collect();
        let c = chord(&am).unwrap();
        assert_eq!(c.quality, ChordQuality::Minor);
        assert_eq!(c.root, (9 + s) % 12);
        let none: Vec<u8> = [0u8, 2, 6].iter().map(|pc| (pc + s) % 12).collect();
        assert!(chord(&none).is_none(), "shift {s}");
    }
}

#[test]
fn reported_root_is_detected() {
    for pcs in [&[9u8, 0, 4][..], &[7, 11, 2, 5], &[4, 11, 1], &[0, 4, 7, 6]] {
        let c = chord(pcs).unwrap();
        assert!(pcs.contains(&c.root), "{pcs:?}");
    }
}
