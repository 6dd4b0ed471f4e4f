//! MIDI note numbering: pitch classes, octaves and note names.

use vstd::prelude::*;

verus! {

/// Lowest MIDI note covered by the detector (C2, one step below drop-C).
pub const MIN_MIDI: u8 = 36;

/// Highest MIDI note covered by the detector (E6).
pub const MAX_MIDI: u8 = 88;

/// Number of notes in the resonator bank (`MAX_MIDI - MIN_MIDI + 1`).
pub const NUM_NOTES: usize = 53;

/// The octave of a MIDI note: the note number is
/// reinterpreted as a signed byte, divided by 12 rounding toward zero, minus one.
pub open spec fn spec_octave(midi: u8) -> int {
    if midi < 128 {
        midi as int / 12 - 1
    } else {
        -((256 - midi as int) / 12) - 1
    }
}

/// Return the pitch class (0–11) of a MIDI note.
pub fn pitch_class(midi: u8) -> (pc: u8)
    ensures
        pc == midi % 12,
        pc < 12,
{
    midi % 12
}

/// Return the octave number of a MIDI note (C4 = MIDI 60 is octave 4).
pub fn octave(midi: u8) -> (o: i8)
    ensures
        o == spec_octave(midi),
{
    if midi < 128 {
        (midi / 12) as i8 - 1
    } else {
        let back: u8 = ((256u16 - midi as u16) / 12) as u8;
        -(back as i8) - 1
    }
}

/// The name of a pitch class, using sharps (`"C"`, `"C#"`, … `"B"`).
pub open spec fn spec_pitch_name(pc: int) -> Seq<char> {
    if pc == 0 {
        seq!['C']
    } else if pc == 1 {
        seq!['C', '#']
    } else if pc == 2 {
        seq!['D']
    } else if pc == 3 {
        seq!['D', '#']
    } else if pc == 4 {
        seq!['E']
    } else if pc == 5 {
        seq!['F']
    } else if pc == 6 {
        seq!['F', '#']
    } else if pc == 7 {
        seq!['G']
    } else if pc == 8 {
        seq!['G', '#']
    } else if pc == 9 {
        seq!['A']
    } else if pc == 10 {
        seq!['A', '#']
    } else {
        seq!['B']
    }
}

/// The octave label of the octave group `g` (MIDI notes `12 * g .. 12 * g + 11`):
/// group 0 is octave `-1`, group 1 is octave `0`, … group 10 is octave `9`.
pub open spec fn spec_octave_label(g: int) -> Seq<char> {
    if g == 0 {
        seq!['-', '1']
    } else {
        seq![((g - 1) + 48) as char]
    }
}

/// The short name of a MIDI note: its pitch name followed by its octave,
/// e.g. `"E2"` for 40 and `"A#3"` for 58.
pub open spec fn spec_note_name(midi: int) -> Seq<char> {
    spec_pitch_name(midi % 12) + spec_octave_label(midi / 12)
}

/// Return the name of pitch class `pc` (0 = `"C"`, 1 = `"C#"`, … 11 = `"B"`).
pub fn pitch_class_name(pc: u8) -> (name: &'static str)
    requires
        pc < 12,
    ensures
        name@ == spec_pitch_name(pc as int),
{
    match pc {
        0 => {
            proof {
                reveal_strlit("C");
            }
            "C"
        },
        1 => {
            proof {
                reveal_strlit("C#");
            }
            "C#"
        },
        2 => {
            proof {
                reveal_strlit("D");
            }
            "D"
        },
        3 => {
            proof {
                reveal_strlit("D#");
            }
            "D#"
        },
        4 => {
            proof {
                reveal_strlit("E");
            }
            "E"
        },
        5 => {
            proof {
                reveal_strlit("F");
            }
            "F"
        },
        6 => {
            proof {
                reveal_strlit("F#");
            }
            "F#"
        },
        7 => {
            proof {
                reveal_strlit("G");
            }
            "G"
        },
        8 => {
            proof {
                reveal_strlit("G#");
            }
            "G#"
        },
        9 => {
            proof {
                reveal_strlit("A");
            }
            "A"
        },
        10 => {
            proof {
                reveal_strlit("A#");
            }
            "A#"
        },
        _ => {
            proof {
                reveal_strlit("B");
            }
            "B"
        },
    }
}

/// Return the short note name of a MIDI note, e.g. `"E2"`, `"A#3"`.
pub fn note_name(midi: u8) -> (name: &'static str)
    requires
        midi <= 127,
    ensures
        name@ == spec_note_name(midi as int),
{
    match midi {
        0 => {
            proof {
                reveal_strlit("C-1");
            }
            "C-1"
        },
        1 => {
            proof {
                reveal_strlit("C#-1");
            }
            "C#-1"
        },
        2 => {
            proof {
                reveal_strlit("D-1");
            }
            "D-1"
        },
        3 => {
            proof {
                reveal_strlit("D#-1");
            }
            "D#-1"
        },
        4 => {
            proof {
                reveal_strlit("E-1");
            }
            "E-1"
        },
        5 => {
            proof {
                reveal_strlit("F-1");
            }
            "F-1"
        },
        6 => {
            proof {
                reveal_strlit("F#-1");
            }
            "F#-1"
        },
        7 => {
            proof {
                reveal_strlit("G-1");
            }
            "G-1"
        },
        8 => {
            proof {
                reveal_strlit("G#-1");
            }
            "G#-1"
        },
        9 => {
            proof {
                reveal_strlit("A-1");
            }
            "A-1"
        },
        10 => {
            proof {
                reveal_strlit("A#-1");
            }
            "A#-1"
        },
        11 => {
            proof {
                reveal_strlit("B-1");
            }
            "B-1"
        },
        12 => {
            proof {
                reveal_strlit("C0");
            }
            "C0"
        },
        13 => {
            proof {
                reveal_strlit("C#0");
            }
            "C#0"
        },
        14 => {
            proof {
                reveal_strlit("D0");
            }
            "D0"
        },
        15 => {
            proof {
                reveal_strlit("D#0");
            }
            "D#0"
        },
        16 => {
            proof {
                reveal_strlit("E0");
            }
            "E0"
        },
        17 => {
            proof {
                reveal_strlit("F0");
            }
            "F0"
        },
        18 => {
            proof {
                reveal_strlit("F#0");
            }
            "F#0"
        },
        19 => {
            proof {
                reveal_strlit("G0");
            }
            "G0"
        },
        20 => {
            proof {
                reveal_strlit("G#0");
            }
            "G#0"
        },
        21 => {
            proof {
                reveal_strlit("A0");
            }
            "A0"
        },
        22 => {
            proof {
                reveal_strlit("A#0");
            }
            "A#0"
        },
        23 => {
            proof {
                reveal_strlit("B0");
            }
            "B0"
        },
        24 => {
            proof {
                reveal_strlit("C1");
            }
            "C1"
        },
        25 => {
            proof {
                reveal_strlit("C#1");
            }
            "C#1"
        },
        26 => {
            proof {
                reveal_strlit("D1");
            }
            "D1"
        },
        27 => {
            proof {
                reveal_strlit("D#1");
            }
            "D#1"
        },
        28 => {
            proof {
                reveal_strlit("E1");
            }
            "E1"
        },
        29 => {
            proof {
                reveal_strlit("F1");
            }
            "F1"
        },
        30 => {
            proof {
                reveal_strlit("F#1");
            }
            "F#1"
        },
        31 => {
            proof {
                reveal_strlit("G1");
            }
            "G1"
        },
        32 => {
            proof {
                reveal_strlit("G#1");
            }
            "G#1"
        },
        33 => {
            proof {
                reveal_strlit("A1");
            }
            "A1"
        },
        34 => {
            proof {
                reveal_strlit("A#1");
            }
            "A#1"
        },
        35 => {
            proof {
                reveal_strlit("B1");
            }
            "B1"
        },
        36 => {
            proof {
                reveal_strlit("C2");
            }
            "C2"
        },
        37 => {
            proof {
                reveal_strlit("C#2");
            }
            "C#2"
        },
        38 => {
            proof {
                reveal_strlit("D2");
            }
            "D2"
        },
        39 => {
            proof {
                reveal_strlit("D#2");
            }
            "D#2"
        },
        40 => {
            proof {
                reveal_strlit("E2");
            }
            "E2"
        },
        41 => {
            proof {
                reveal_strlit("F2");
            }
            "F2"
        },
        42 => {
            proof {
                reveal_strlit("F#2");
            }
            "F#2"
        },
        43 => {
            proof {
                reveal_strlit("G2");
            }
            "G2"
        },
        44 => {
            proof {
                reveal_strlit("G#2");
            }
            "G#2"
        },
        45 => {
            proof {
                reveal_strlit("A2");
            }
            "A2"
        },
        46 => {
            proof {
                reveal_strlit("A#2");
            }
            "A#2"
        },
        47 => {
            proof {
                reveal_strlit("B2");
            }
            "B2"
        },
        48 => {
            proof {
                reveal_strlit("C3");
            }
            "C3"
        },
        49 => {
            proof {
                reveal_strlit("C#3");
            }
            "C#3"
        },
        50 => {
            proof {
                reveal_strlit("D3");
            }
            "D3"
        },
        51 => {
            proof {
                reveal_strlit("D#3");
            }
            "D#3"
        },
        52 => {
            proof {
                reveal_strlit("E3");
            }
            "E3"
        },
        53 => {
            proof {
                reveal_strlit("F3");
            }
            "F3"
        },
        54 => {
            proof {
                reveal_strlit("F#3");
            }
            "F#3"
        },
        55 => {
            proof {
                reveal_strlit("G3");
            }
            "G3"
        },
        56 => {
            proof {
                reveal_strlit("G#3");
            }
            "G#3"
        },
        57 => {
            proof {
                reveal_strlit("A3");
            }
            "A3"
        },
        58 => {
            proof {
                reveal_strlit("A#3");
            }
            "A#3"
        },
        59 => {
            proof {
                reveal_strlit("B3");
            }
            "B3"
        },
        60 => {
            proof {
                reveal_strlit("C4");
            }
            "C4"
        },
        61 => {
            proof {
                reveal_strlit("C#4");
            }
            "C#4"
        },
        62 => {
            proof {
                reveal_strlit("D4");
            }
            "D4"
        },
        63 => {
            proof {
                reveal_strlit("D#4");
            }
            "D#4"
        },
        64 => {
            proof {
                reveal_strlit("E4");
            }
            "E4"
        },
        65 => {
            proof {
                reveal_strlit("F4");
            }
            "F4"
        },
        66 => {
            proof {
                reveal_strlit("F#4");
            }
            "F#4"
        },
        67 => {
            proof {
                reveal_strlit("G4");
            }
            "G4"
        },
        68 => {
            proof {
                reveal_strlit("G#4");
            }
            "G#4"
        },
        69 => {
            proof {
                reveal_strlit("A4");
            }
            "A4"
        },
        70 => {
            proof {
                reveal_strlit("A#4");
            }
            "A#4"
        },
        71 => {
            proof {
                reveal_strlit("B4");
            }
            "B4"
        },
        72 => {
            proof {
                reveal_strlit("C5");
            }
            "C5"
        },
        73 => {
            proof {
                reveal_strlit("C#5");
            }
            "C#5"
        },
        74 => {
            proof {
                reveal_strlit("D5");
            }
            "D5"
        },
        75 => {
            proof {
                reveal_strlit("D#5");
            }
            "D#5"
        },
        76 => {
            proof {
                reveal_strlit("E5");
            }
            "E5"
        },
        77 => {
            proof {
                reveal_strlit("F5");
            }
            "F5"
        },
        78 => {
            proof {
                reveal_strlit("F#5");
            }
            "F#5"
        },
        79 => {
            proof {
                reveal_strlit("G5");
            }
            "G5"
        },
        80 => {
            proof {
                reveal_strlit("G#5");
            }
            "G#5"
        },
        81 => {
            proof {
                reveal_strlit("A5");
            }
            "A5"
        },
        82 => {
            proof {
                reveal_strlit("A#5");
            }
            "A#5"
        },
        83 => {
            proof {
                reveal_strlit("B5");
            }
            "B5"
        },
        84 => {
            proof {
                reveal_strlit("C6");
            }
            "C6"
        },
        85 => {
            proof {
                reveal_strlit("C#6");
            }
            "C#6"
        },
        86 => {
            proof {
                reveal_strlit("D6");
            }
            "D6"
        },
        87 => {
            proof {
                reveal_strlit("D#6");
            }
            "D#6"
        },
        88 => {
            proof {
                reveal_strlit("E6");
            }
            "E6"
        },
        89 => {
            proof {
                reveal_strlit("F6");
            }
            "F6"
        },
        90 => {
            proof {
                reveal_strlit("F#6");
            }
            "F#6"
        },
        91 => {
            proof {
                reveal_strlit("G6");
            }
            "G6"
        },
        92 => {
            proof {
                reveal_strlit("G#6");
            }
            "G#6"
        },
        93 => {
            proof {
                reveal_strlit("A6");
            }
            "A6"
        },
        94 => {
            proof {
                reveal_strlit("A#6");
            }
            "A#6"
        },
        95 => {
            proof {
                reveal_strlit("B6");
            }
            "B6"
        },
        96 => {
            proof {
                reveal_strlit("C7");
            }
            "C7"
        },
        97 => {
            proof {
                reveal_strlit("C#7");
            }
            "C#7"
        },
        98 => {
            proof {
                reveal_strlit("D7");
            }
            "D7"
        },
        99 => {
            proof {
                reveal_strlit("D#7");
            }
            "D#7"
        },
        100 => {
            proof {
                reveal_strlit("E7");
            }
            "E7"
        },
        101 => {
            proof {
                reveal_strlit("F7");
            }
            "F7"
        },
        102 => {
            proof {
                reveal_strlit("F#7");
            }
            "F#7"
        },
        103 => {
            proof {
                reveal_strlit("G7");
            }
            "G7"
        },
        104 => {
            proof {
                reveal_strlit("G#7");
            }
            "G#7"
        },
        105 => {
            proof {
                reveal_strlit("A7");
            }
            "A7"
        },
        106 => {
            proof {
                reveal_strlit("A#7");
            }
            "A#7"
        },
        107 => {
            proof {
                reveal_strlit("B7");
            }
            "B7"
        },
        108 => {
            proof {
                reveal_strlit("C8");
            }
            "C8"
        },
        109 => {
            proof {
                reveal_strlit("C#8");
            }
            "C#8"
        },
        110 => {
            proof {
                reveal_strlit("D8");
            }
            "D8"
        },
        111 => {
            proof {
                reveal_strlit("D#8");
            }
            "D#8"
        },
        112 => {
            proof {
                reveal_strlit("E8");
            }
            "E8"
        },
        113 => {
            proof {
                reveal_strlit("F8");
            }
            "F8"
        },
        114 => {
            proof {
                reveal_strlit("F#8");
            }
            "F#8"
        },
        115 => {
            proof {
                reveal_strlit("G8");
            }
            "G8"
        },
        116 => {
            proof {
                reveal_strlit("G#8");
            }
            "G#8"
        },
        117 => {
            proof {
                reveal_strlit("A8");
            }
            "A8"
        },
        118 => {
            proof {
                reveal_strlit("A#8");
            }
            "A#8"
        },
        119 => {
            proof {
                reveal_strlit("B8");
            }
            "B8"
        },
        120 => {
            proof {
                reveal_strlit("C9");
            }
            "C9"
        },
        121 => {
            proof {
                reveal_strlit("C#9");
            }
            "C#9"
        },
        122 => {
            proof {
                reveal_strlit("D9");
            }
            "D9"
        },
        123 => {
            proof {
                reveal_strlit("D#9");
            }
            "D#9"
        },
        124 => {
            proof {
                reveal_strlit("E9");
            }
            "E9"
        },
        125 => {
            proof {
                reveal_strlit("F9");
            }
            "F9"
        },
        126 => {
            proof {
                reveal_strlit("F#9");
            }
            "F#9"
        },
        _ => {
            proof {
                reveal_strlit("G9");
            }
            "G9"
        },
    }
}

/// Decimal digits of a single-digit integer, with a leading minus sign when negative.
pub open spec fn small_decimal(n: int) -> Seq<char> {
    if n < 0 {
        seq!['-', ((-n) + 48) as char]
    } else {
        seq![(n + 48) as char]
    }
}

/// For every MIDI note 0–127, the note name is the name of its pitch class
/// (as `pitch_class` gives it) followed by its octave number (as `octave`
/// gives it).
pub proof fn lemma_note_name_parts(midi: u8)
    requires
        midi <= 127,
    ensures
        spec_note_name(midi as int) == spec_pitch_name((midi % 12) as int) + small_decimal(
            spec_octave(midi),
        ),
        -1 <= spec_octave(midi) <= 9,
{
    assert(spec_octave_label(midi as int / 12) =~= small_decimal(spec_octave(midi)));
}

/// Octaves are twelve notes wide and octave 4 starts at middle C (MIDI 60):
/// every MIDI note 0–127 lies in `12 * (octave + 1) ..= 12 * (octave + 1) + 11`.
pub proof fn lemma_octave_range(midi: u8)
    requires
        midi <= 127,
    ensures
        12 * (spec_octave(midi) + 1) <= midi < 12 * (spec_octave(midi) + 2),
{
}

/// Pitch class names follow the keyboard: the seven white keys C, D, E, F,
/// G, A, B (pitch classes 0, 2, 4, 5, 7, 9, 11) carry single letters running
/// up the musical alphabet from C, and each black key is named after the
/// white key below it with a sharp.
pub proof fn lemma_pitch_names(pc: int)
    requires
        0 <= pc < 12,
    ensures
        spec_pitch_name(0) == seq!['C'],
        (spec_pitch_name(pc).len() == 1) <==> (pc == 0 || pc == 2 || pc == 4 || pc == 5 || pc
            == 7 || pc == 9 || pc == 11),
        spec_pitch_name(pc).len() == 2 ==> spec_pitch_name(pc) == spec_pitch_name(pc - 1).push(
            '#',
        ) && spec_pitch_name(pc - 1).len() == 1,
        spec_pitch_name(pc).len() == 1 && pc > 0 ==> ({
            let below = if spec_pitch_name(pc - 1).len() == 1 {
                pc - 1
            } else {
                pc - 2
            };
            let prev = spec_pitch_name(below)[0];
            spec_pitch_name(pc)[0] == (if prev == 'G' {
                'A'
            } else {
                ((prev as int) + 1) as char
            })
        }),
{
    assert(spec_pitch_name(pc).len() == 2 ==> spec_pitch_name(pc) =~= spec_pitch_name(pc - 1).push(
        '#',
    ));
}

} // verus!
