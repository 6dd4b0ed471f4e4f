use guitar_pitch_detection::chord::detect_chord;
use guitar_pitch_detection::ffi::chord_quality_code;
use guitar_pitch_detection::ffi::{c_str_len, quality_to_code, str_to_c_buf};
use guitar_pitch_detection::notes::note_name;
use guitar_pitch_detection::types::ChordQuality;

#[test]
fn quality_codes() {
    assert_eq!(quality_to_code(&ChordQuality::Major), chord_quality_code::MAJOR);
    assert_eq!(quality_to_code(&ChordQuality::Minor), 1);
    assert_eq!(quality_to_code(&ChordQuality::Dominant7), 2);
    assert_eq!(quality_to_code(&ChordQuality::Major7), 3);
    assert_eq!(quality_to_code(&ChordQuality::Minor7), 4);
    assert_eq!(quality_to_code(&ChordQuality::Diminished), 5);
    assert_eq!(quality_to_code(&ChordQuality::Augmented), 6);
    assert_eq!(quality_to_code(&ChordQuality::Sus2), 7);
    assert_eq!(quality_to_code(&ChordQuality::Sus4), 8);
    assert_eq!(quality_to_code(&ChordQuality::Power), chord_quality_code::POWER);
}

#[test]
fn c_buf_holds_note_name() {
    let mut buf = [0x55u8; 8];
    str_to_c_buf(note_name(58), &mut buf);
    assert_eq!(&buf[..4], &[b'A', b'#', b'3', 0]);
    // Bytes after the terminator are left untouched.
    assert_eq!(&buf[4..], &[0x55u8; 4]);
}

#[test]
fn c_buf_holds_chord_name() {
    let chord = detect_chord(&[1, 5, 8, 0]).unwrap();
    let mut buf = [0u8; 16];
    str_to_c_buf(&chord.name, &mut buf);
    let bytes: Vec<u8> = buf.iter().take_while(|&&c| c != 0).copied().collect();
    assert_eq!(String::from_utf8(bytes).unwrap(), chord.name);
}

#[test]
fn c_buf_truncates_silently() {
    let mut buf = [7u8; 4];
    str_to_c_buf("C#maj7", &mut buf);
    assert_eq!(buf, [b'C', b'#', b'm', 0]);
}

#[test]
fn c_buf_of_one_byte_is_just_terminator() {
    let mut buf = [9u8; 1];
    str_to_c_buf("E2", &mut buf);
    assert_eq!(buf, [0]);
}

#[test]
fn c_buf_empty_string() {
    let mut buf = [9u8; 3];
    str_to_c_buf("", &mut buf);
    assert_eq!(buf, [0, 9, 9]);
}

#[test]
fn c_string_reads_back_what_was_written() {
    for text in ["E2", "A#3", "C#maj7", ""] {
        let mut buf = [0x41u8; 16];
        str_to_c_buf(text, &mut buf);
        let len = c_str_len(&buf);
        assert_eq!(&buf[..len], text.as_bytes());
    }
    let mut small = [1u8; 4];
    str_to_c_buf("C#maj7", &mut small);
    assert_eq!(c_str_len(&small), 3);
}

#[test]
fn c_string_without_nul_spans_buffer() {
    assert_eq!(c_str_len(&[b'a', b'b', b'c']), 3);
    assert_eq!(c_str_len(&[]), 0);
    assert_eq!(c_str_len(&[0, b'a']), 0);
}
