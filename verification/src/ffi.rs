//! The integer and byte conversions behind the C interface: chord quality
//! codes and NUL-terminated name buffers.

pub mod chord_quality_code;

use vstd::prelude::*;

use crate::notes::{spec_note_name, spec_pitch_name};
use crate::types::{spec_suffix, ChordQuality};
use vstd::string::StringSliceAdditionalSpecFns;
use vstd::utf8::{encode_utf8, is_ascii_chars, is_ascii_chars_encode_utf8};

verus! {

/// The integer code of a chord quality (see [`chord_quality_code`]).
pub open spec fn spec_quality_code(q: ChordQuality) -> u8 {
    match q {
        ChordQuality::Major => chord_quality_code::MAJOR,
        ChordQuality::Minor => chord_quality_code::MINOR,
        ChordQuality::Dominant7 => chord_quality_code::DOMINANT7,
        ChordQuality::Major7 => chord_quality_code::MAJOR7,
        ChordQuality::Minor7 => chord_quality_code::MINOR7,
        ChordQuality::Diminished => chord_quality_code::DIMINISHED,
        ChordQuality::Augmented => chord_quality_code::AUGMENTED,
        ChordQuality::Sus2 => chord_quality_code::SUS2,
        ChordQuality::Sus4 => chord_quality_code::SUS4,
        ChordQuality::Power => chord_quality_code::POWER,
    }
}

/// Map a chord quality to its integer code.
pub fn quality_to_code(q: &ChordQuality) -> (code: u8)
    ensures
        code == spec_quality_code(*q),
{
    match q {
        ChordQuality::Major => chord_quality_code::MAJOR,
        ChordQuality::Minor => chord_quality_code::MINOR,
        ChordQuality::Dominant7 => chord_quality_code::DOMINANT7,
        ChordQuality::Major7 => chord_quality_code::MAJOR7,
        ChordQuality::Minor7 => chord_quality_code::MINOR7,
        ChordQuality::Diminished => chord_quality_code::DIMINISHED,
        ChordQuality::Augmented => chord_quality_code::AUGMENTED,
        ChordQuality::Sus2 => chord_quality_code::SUS2,
        ChordQuality::Sus4 => chord_quality_code::SUS4,
        ChordQuality::Power => chord_quality_code::POWER,
    }
}

/// Every chord quality has its own code, and codes lie in 0–9.
pub proof fn lemma_quality_codes_distinct(a: ChordQuality, b: ChordQuality)
    ensures
        spec_quality_code(a) < 10,
        spec_quality_code(a) == spec_quality_code(b) ==> a == b,
{
}

/// Number of bytes of `s` copied into a buffer of `cap` bytes: the whole
/// string if it fits before the terminating NUL, else `cap - 1` bytes.
pub open spec fn copied_len(s: Seq<u8>, cap: int) -> int {
    if s.len() < cap - 1 {
        s.len() as int
    } else {
        cap - 1
    }
}

/// `new_buf` is `old_buf` after writing `bytes` as a NUL-terminated C string:
/// the first `copied_len` bytes, a NUL, and the rest of the buffer untouched.
pub open spec fn holds_c_string(old_buf: Seq<u8>, new_buf: Seq<u8>, bytes: Seq<u8>) -> bool {
    let n = copied_len(bytes, old_buf.len() as int);
    &&& new_buf.len() == old_buf.len()
    &&& forall|i: int| 0 <= i < n ==> #[trigger] new_buf[i] == bytes[i]
    &&& new_buf[n] == 0
    &&& forall|i: int| n < i < old_buf.len() ==> #[trigger] new_buf[i] == old_buf[i]
}

/// `len` is the length of the C string held in `buf`: the index of its
/// first NUL, or the whole buffer when it holds none.
pub open spec fn is_c_str_len(buf: Seq<u8>, len: int) -> bool {
    &&& 0 <= len <= buf.len()
    &&& forall|j: int| 0 <= j < len ==> #[trigger] buf[j] != 0
    &&& len < buf.len() ==> buf[len] == 0
}

/// Write the UTF-8 bytes of `s` into the byte buffer `buf` (the storage of
/// a C `char` array) as a NUL-terminated C string, silently truncating what
/// does not fit; bytes after the terminator are left unchanged.
pub fn str_to_c_buf(s: &str, buf: &mut [u8])
    requires
        old(buf)@.len() >= 1,
    ensures
        holds_c_string(old(buf)@, final(buf)@, s.spec_bytes()),
{
    let bytes = s.as_bytes();
    let cap = buf.len();
    let len = if bytes.len() < cap - 1 {
        bytes.len()
    } else {
        cap - 1
    };
    let mut i: usize = 0;
    while i < len
        invariant
            bytes@ == s.spec_bytes(),
            cap == old(buf)@.len(),
            len == copied_len(s.spec_bytes(), cap as int),
            i <= len,
            buf@.len() == cap,
            forall|j: int| 0 <= j < i ==> #[trigger] buf@[j] == bytes@[j],
            forall|j: int| i <= j < cap ==> #[trigger] buf@[j] == old(buf)@[j],
        decreases len - i,
    {
        buf[i] = bytes[i];
        i += 1;
    }
    buf[len] = 0;
}

/// Length of the C string held in `buf`: the number of bytes before the
/// first NUL, or the whole buffer when it holds no NUL.
pub fn c_str_len(buf: &[u8]) -> (len: usize)
    ensures
        is_c_str_len(buf@, len as int),
{
    let mut i: usize = 0;
    while i < buf.len() && buf[i] != 0
        invariant
            i <= buf@.len(),
            forall|j: int| 0 <= j < i ==> #[trigger] buf@[j] != 0,
        decreases buf@.len() - i,
    {
        i += 1;
    }
    i
}

/// Reading back a C string written by `str_to_c_buf` gives the written
/// bytes: the string's length is the number of bytes copied, and they are
/// the leading bytes of the text, provided the copied text holds no NUL.
pub proof fn lemma_c_string_roundtrip(
    old_buf: Seq<u8>,
    new_buf: Seq<u8>,
    bytes: Seq<u8>,
    len: int,
)
    requires
        old_buf.len() >= 1,
        holds_c_string(old_buf, new_buf, bytes),
        forall|j: int| 0 <= j < copied_len(bytes, old_buf.len() as int) ==> #[trigger] bytes[j] != 0,
        is_c_str_len(new_buf, len),
    ensures
        len == copied_len(bytes, old_buf.len() as int),
        forall|j: int| 0 <= j < len ==> #[trigger] new_buf[j] == bytes[j],
{
    let n = copied_len(bytes, old_buf.len() as int);
    assert forall|j: int| 0 <= j < n implies #[trigger] new_buf[j] != 0 by {
        assert(new_buf[j] == bytes[j]);
        assert(bytes[j] != 0);
    }
    if len < n {
        assert(new_buf[len] == 0);
        assert(new_buf[len] != 0);
    }
    if len > n {
        assert(new_buf[n] != 0);
    }
}

/// Note names are ASCII without NUL bytes and at most four bytes long, so
/// the eight-byte name field of a C note record always holds them without
/// truncation, and reading the field back as a C string gives them again.
pub proof fn lemma_note_name_fits(s: &str, midi: u8)
    requires
        midi <= 127,
        s@ == spec_note_name(midi as int),
    ensures
        s.spec_bytes().len() == s@.len(),
        s.spec_bytes().len() <= 4,
        copied_len(s.spec_bytes(), 8) == s.spec_bytes().len(),
        forall|j: int| 0 <= j < s.spec_bytes().len() ==> #[trigger] s.spec_bytes()[j] != 0,
{
    assert(midi as int / 12 <= 10);
    assert(is_ascii_chars(s@));
    assert(forall|j: int| 0 <= j < s@.len() ==> #[trigger] s@[j] != '\0');
    is_ascii_chars_encode_utf8(s@);
    assert(s.spec_bytes() == encode_utf8(s@));
}

/// Chord names are ASCII without NUL bytes and at most six bytes long, so
/// the sixteen-byte chord name field of a C detection result always holds
/// them without truncation, and reading the field back as a C string gives
/// them again.
pub proof fn lemma_chord_name_fits(s: &str, root: int, q: ChordQuality)
    requires
        0 <= root < 12,
        s@ == spec_pitch_name(root) + spec_suffix(q),
    ensures
        s.spec_bytes().len() == s@.len(),
        s.spec_bytes().len() <= 6,
        copied_len(s.spec_bytes(), 16) == s.spec_bytes().len(),
        forall|j: int| 0 <= j < s.spec_bytes().len() ==> #[trigger] s.spec_bytes()[j] != 0,
{
    assert(is_ascii_chars(s@));
    assert(forall|j: int| 0 <= j < s@.len() ==> #[trigger] s@[j] != '\0');
    is_ascii_chars_encode_utf8(s@);
    assert(s.spec_bytes() == encode_utf8(s@));
}

/// Reading back, as a C string, the sixteen-byte chord name field that
/// `str_to_c_buf` filled with a chord name gives exactly that name's bytes.
pub proof fn lemma_chord_name_reads_back(
    s: &str,
    root: int,
    q: ChordQuality,
    old_buf: Seq<u8>,
    new_buf: Seq<u8>,
    len: int,
)
    requires
        0 <= root < 12,
        s@ == spec_pitch_name(root) + spec_suffix(q),
        old_buf.len() == 16,
        holds_c_string(old_buf, new_buf, s.spec_bytes()),
        is_c_str_len(new_buf, len),
    ensures
        new_buf.subrange(0, len) == s.spec_bytes(),
{
    lemma_chord_name_fits(s, root, q);
    lemma_c_string_roundtrip(old_buf, new_buf, s.spec_bytes(), len);
    assert(new_buf.subrange(0, len) =~= s.spec_bytes());
}

/// Reading back, as a C string, the eight-byte note name field that
/// `str_to_c_buf` filled with a note name gives exactly that name's bytes.
pub proof fn lemma_note_name_reads_back(
    s: &str,
    midi: u8,
    old_buf: Seq<u8>,
    new_buf: Seq<u8>,
    len: int,
)
    requires
        midi <= 127,
        s@ == spec_note_name(midi as int),
        old_buf.len() == 8,
        holds_c_string(old_buf, new_buf, s.spec_bytes()),
        is_c_str_len(new_buf, len),
    ensures
        new_buf.subrange(0, len) == s.spec_bytes(),
{
    lemma_note_name_fits(s, midi);
    lemma_c_string_roundtrip(old_buf, new_buf, s.spec_bytes(), len);
    assert(new_buf.subrange(0, len) =~= s.spec_bytes());
}

} // verus!
