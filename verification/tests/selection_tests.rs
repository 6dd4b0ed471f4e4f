use guitar_pitch_detection::devices::{find_bytes, find_device};
use guitar_pitch_detection::detector::{harmonic_suppression, select_notes};
use guitar_pitch_detection::modulation::{shift_notes, transpose_midi, NoteTracker, NoteTrackers};
use guitar_pitch_detection::notes::note_name;

#[test]
fn overtone_after_stronger_fundamental_is_suppressed() {
    // A3 (57) strongest, then its octave A4 (69).
    assert_eq!(harmonic_suppression(&[57, 69]), vec![false, true]);
}

#[test]
fn octave_stronger_than_fundamental_is_kept() {
    // A4 (69) strongest, A3 (57) weaker: neither is removed.
    assert_eq!(harmonic_suppression(&[69, 57]), vec![false, false]);
}

#[test]
fn first_note_is_never_suppressed() {
    assert_eq!(harmonic_suppression(&[40]), vec![false]);
    assert_eq!(harmonic_suppression(&[]), Vec::<bool>::new());
}

#[test]
fn low_notes_without_lower_octave_are_kept() {
    assert_eq!(harmonic_suppression(&[0, 11, 12]), vec![false, false, true]);
}

#[test]
fn only_exact_octaves_are_suppressed() {
    // 52 is an octave above 40; 59 is a twelfth above and stays.
    assert_eq!(harmonic_suppression(&[40, 59, 52, 64]), vec![false, false, true, true]);
}

#[test]
fn shift_up_one_semitone() {
    let m = transpose_midi(69, 1).unwrap();
    assert_eq!(m, 70);
    assert_eq!(note_name(m), "A#4");
    let (kept, chord) = shift_notes(&[69], 1);
    assert_eq!(kept.len(), 1);
    assert_eq!(kept[0].1, 70); // A#4
    assert_eq!(note_name(kept[0].1), "A#4");
    assert!(chord.is_none());
}

#[test]
fn shift_down_two_semitones() {
    assert_eq!(transpose_midi(69, -2), Some(67));
    let (kept, _) = shift_notes(&[69], -2);
    assert_eq!(kept.len(), 1);
    assert_eq!(kept[0].1, 67); // G4
}

#[test]
fn shift_drops_notes_outside_midi_range() {
    assert_eq!(transpose_midi(0, -1), None);
    assert_eq!(transpose_midi(127, 1), None);
    assert_eq!(transpose_midi(120, 127), None);
    assert_eq!(transpose_midi(100, -128), None);
    // MIDI 0 shifted down by 1 would be -1: dropped.
    let (kept, chord) = shift_notes(&[0], -1);
    assert!(kept.is_empty());
    assert!(chord.is_none());
}

#[test]
fn shift_zero_is_identity() {
    for m in 0u8..=127 {
        assert_eq!(transpose_midi(m, 0), Some(m));
    }
    let (kept, _) = shift_notes(&[69], 0);
    assert_eq!(kept[0].1, 69);
    let all: Vec<u8> = (0u8..=127).collect();
    let (kept, _) = shift_notes(&all, 0);
    assert_eq!(kept, all.iter().map(|&m| (m as usize, m)).collect::<Vec<_>>());
}

#[test]
fn shift_back_undoes_shift() {
    for m in 0u8..=127 {
        for k in -127i8..=127 {
            if let Some(up) = transpose_midi(m, k) {
                assert_eq!(transpose_midi(up, -k), Some(m));
            }
        }
    }
}

#[test]
fn tracker_keeps_latest_values() {
    let mut t = NoteTracker::new(3);
    for v in 1..=5 {
        t.push(v);
    }
    assert_eq!(t.len(), 3);
    let h: Vec<i32> = t.history().iter().copied().collect();
    assert_eq!(h, vec![3, 4, 5]);
}

#[test]
fn tracker_below_capacity_keeps_all() {
    let mut t = NoteTracker::new(32);
    t.push(1.5_f32);
    t.push(-2.0_f32);
    assert_eq!(t.len(), 2);
    let h: Vec<f32> = t.history().iter().copied().collect();
    assert_eq!(h, vec![1.5, -2.0]);
}

#[test]
fn tracker_with_zero_capacity_never_drops() {
    let mut t = NoteTracker::new(0);
    t.push('a');
    t.push('b');
    t.push('c');
    assert_eq!(t.len(), 3);
}

fn history_of(set: &NoteTrackers<i32>, midi: u8) -> Option<Vec<i32>> {
    set.get(midi).map(|t| t.history().iter().copied().collect())
}

#[test]
fn trackers_record_per_note() {
    let mut set = NoteTrackers::new(2);
    set.record(69, 1);
    set.record(64, 10);
    set.record(69, 2);
    set.record(69, 3);
    assert_eq!(history_of(&set, 69), Some(vec![2, 3]));
    assert_eq!(history_of(&set, 64), Some(vec![10]));
    assert_eq!(history_of(&set, 40), None);
}

#[test]
fn absent_notes_lose_their_history() {
    let mut set = NoteTrackers::new(8);
    set.record(69, 1);
    set.record(64, 2);
    set.record(57, 3);
    set.retain_active(&[64, 57, 40]);
    assert_eq!(history_of(&set, 69), None);
    assert_eq!(history_of(&set, 64), Some(vec![2]));
    assert_eq!(history_of(&set, 57), Some(vec![3]));
    assert_eq!(history_of(&set, 40), None);
    // A note that comes back starts a fresh history.
    set.record(69, 4);
    assert_eq!(history_of(&set, 69), Some(vec![4]));
}

#[test]
fn trackers_clear_discards_everything() {
    let mut set = NoteTrackers::new(4);
    set.record(1, 1);
    set.record(2, 2);
    set.clear();
    assert_eq!(history_of(&set, 1), None);
    assert_eq!(history_of(&set, 2), None);
    set.record(1, 5);
    assert_eq!(history_of(&set, 1), Some(vec![5]));
}

#[test]
fn retain_with_duplicate_active_notes() {
    let mut set = NoteTrackers::new(4);
    set.record(60, 1);
    set.retain_active(&[60, 60]);
    assert_eq!(history_of(&set, 60), Some(vec![1]));
}

#[test]
fn selection_caps_then_drops_overtones() {
    // A2, A3 (overtone of A2), E3, C4: capped at three, then A3 dropped.
    assert_eq!(select_notes(&[45, 57, 52, 60], 3), vec![0, 2]);
    // Without the cap C4 is reported too.
    assert_eq!(select_notes(&[45, 57, 52, 60], 6), vec![0, 2, 3]);
}

#[test]
fn selection_ignores_octaves_beyond_the_cap() {
    // The fundamental below the cap does not suppress anything above it.
    assert_eq!(select_notes(&[57, 64, 45], 2), vec![0, 1]);
    assert_eq!(select_notes(&[57, 64, 45], 3), vec![0, 1, 2]);
    assert_eq!(select_notes(&[45, 64, 57], 3), vec![0, 1]);
}

#[test]
fn selection_with_zero_polyphony_is_empty() {
    assert!(select_notes(&[60, 64, 67], 0).is_empty());
    assert!(select_notes(&[], 4).is_empty());
}

#[test]
fn shift_notes_drops_out_of_range_and_keeps_positions() {
    let (kept, chord) = shift_notes(&[126, 60, 1], 2);
    assert_eq!(kept, vec![(1, 62), (2, 3)]);
    assert!(chord.is_none());
    let (kept, _) = shift_notes(&[0, 5, 127], -3);
    assert_eq!(kept, vec![(1, 2), (2, 124)]);
}

#[test]
fn device_chosen_by_first_name_containing_fragment() {
    let names: Vec<Option<Vec<u8>>> = vec![
        Some(b"default".to_vec()),
        None,
        Some(b"rocksmith usb guitar adapter".to_vec()),
        Some(b"rocksmith (copy)".to_vec()),
    ];
    assert_eq!(find_device(&names, b"rocksmith"), Some(2));
    assert_eq!(find_device(&names, b"usb"), Some(2));
    assert_eq!(find_device(&names, b"fault"), Some(0));
    assert_eq!(find_device(&names, b"scarlett"), None);
    assert_eq!(find_device(&names, b""), Some(0));
    assert_eq!(find_device(&[None, Some(b"x".to_vec())], b""), Some(1));
    assert_eq!(find_device(&[], b"a"), None);
    assert!(find_bytes(b"abcabd", b"abd"));
    assert!(!find_bytes(b"ab", b"abc"));
    assert!(find_bytes(b"", b""));
}
