//! Chord qualities and the chord description returned by chord recognition.

use vstd::prelude::*;

verus! {

/// Quality (type) of a detected chord.
#[derive(Debug, Clone, Copy, PartialEq, Eq, Structural)]
pub enum ChordQuality {
    /// Root + maj 3rd + 5th.
    Major,
    /// Root + min 3rd + 5th.
    Minor,
    /// Root + maj 3rd + 5th + min 7th.
    Dominant7,
    /// Root + maj 3rd + 5th + maj 7th.
    Major7,
    /// Root + min 3rd + 5th + min 7th.
    Minor7,
    /// Root + min 3rd + dim 5th.
    Diminished,
    /// Root + maj 3rd + aug 5th.
    Augmented,
    /// Root + maj 2nd + 5th.
    Sus2,
    /// Root + 4th + 5th.
    Sus4,
    /// Root + 5th only (power chord).
    Power,
}

/// The suffix that follows the root name in a chord name.
pub open spec fn spec_suffix(q: ChordQuality) -> Seq<char> {
    match q {
        ChordQuality::Major => seq![],
        ChordQuality::Minor => seq!['m'],
        ChordQuality::Dominant7 => seq!['7'],
        ChordQuality::Major7 => seq!['m', 'a', 'j', '7'],
        ChordQuality::Minor7 => seq!['m', '7'],
        ChordQuality::Diminished => seq!['d', 'i', 'm'],
        ChordQuality::Augmented => seq!['a', 'u', 'g'],
        ChordQuality::Sus2 => seq!['s', 'u', 's', '2'],
        ChordQuality::Sus4 => seq!['s', 'u', 's', '4'],
        ChordQuality::Power => seq!['5'],
    }
}

impl ChordQuality {
    /// Return the common suffix used in chord names (e.g. "m", "maj7", "7").
    pub fn suffix(&self) -> (s: &'static str)
        ensures
            s@ == spec_suffix(*self),
    {
        match self {
            ChordQuality::Major => {
                proof {
                    reveal_strlit("");
                }
                ""
            },
            ChordQuality::Minor => {
                proof {
                    reveal_strlit("m");
                }
                "m"
            },
            ChordQuality::Dominant7 => {
                proof {
                    reveal_strlit("7");
                }
                "7"
            },
            ChordQuality::Major7 => {
                proof {
                    reveal_strlit("maj7");
                }
                "maj7"
            },
            ChordQuality::Minor7 => {
                proof {
                    reveal_strlit("m7");
                }
                "m7"
            },
            ChordQuality::Diminished => {
                proof {
                    reveal_strlit("dim");
                }
                "dim"
            },
            ChordQuality::Augmented => {
                proof {
                    reveal_strlit("aug");
                }
                "aug"
            },
            ChordQuality::Sus2 => {
                proof {
                    reveal_strlit("sus2");
                }
                "sus2"
            },
            ChordQuality::Sus4 => {
                proof {
                    reveal_strlit("sus4");
                }
                "sus4"
            },
            ChordQuality::Power => {
                proof {
                    reveal_strlit("5");
                }
                "5"
            },
        }
    }
}

/// A chord recognised from a set of simultaneously active pitch classes.
///
/// The match confidence is the fraction `matched_tones / chord_tones` of the
/// chord's tones found among the detected pitch classes.
#[derive(Debug, Clone, PartialEq)]
pub struct DetectedChord {
    /// Human-readable chord name, e.g. "Am", "Gmaj7", "E5".
    pub name: String,
    /// Root pitch class 0–11 (0 = C, …).
    pub root: u8,
    /// Chord quality (Major, Minor, …).
    pub quality: ChordQuality,
    /// Number of the chord's tones present among the detected pitch classes.
    pub matched_tones: u8,
    /// Number of tones in the chord pattern.
    pub chord_tones: u8,
}

} // verus!
