//! Chord recognition from a set of simultaneously active pitch classes.
//!
//! For each of the 12 possible roots and each known chord pattern (in a fixed
//! order, more specific patterns first), the chord is accepted when all of
//! its tones are present and at most one detected pitch class lies outside
//! it.  A chord with no foreign pitch class scores higher than one with a
//! single foreign pitch class; among equal scores the first candidate wins.

use vstd::prelude::*;

use crate::notes::{pitch_class_name, spec_pitch_name};
use crate::types::{spec_suffix, ChordQuality, DetectedChord};
use vstd::string::StringExecFns;

verus! {

/// Number of recognised chord patterns.
pub const NUM_PATTERNS: usize = 10;

/// Intervals (semitones above the root) of chord pattern `k`, in the order
/// in which patterns are tried: maj7, m7, 7, major, minor, dim, aug, sus2,
/// sus4, power.
pub open spec fn pattern_intervals(k: int) -> Seq<u8> {
    if k == 0 {
        seq![0u8, 4, 7, 11]
    } else if k == 1 {
        seq![0u8, 3, 7, 10]
    } else if k == 2 {
        seq![0u8, 4, 7, 10]
    } else if k == 3 {
        seq![0u8, 4, 7]
    } else if k == 4 {
        seq![0u8, 3, 7]
    } else if k == 5 {
        seq![0u8, 3, 6]
    } else if k == 6 {
        seq![0u8, 4, 8]
    } else if k == 7 {
        seq![0u8, 2, 7]
    } else if k == 8 {
        seq![0u8, 5, 7]
    } else {
        seq![0u8, 7]
    }
}

/// Quality of chord pattern `k`.
pub open spec fn pattern_quality(k: int) -> ChordQuality {
    if k == 0 {
        ChordQuality::Major7
    } else if k == 1 {
        ChordQuality::Minor7
    } else if k == 2 {
        ChordQuality::Dominant7
    } else if k == 3 {
        ChordQuality::Major
    } else if k == 4 {
        ChordQuality::Minor
    } else if k == 5 {
        ChordQuality::Diminished
    } else if k == 6 {
        ChordQuality::Augmented
    } else if k == 7 {
        ChordQuality::Sus2
    } else if k == 8 {
        ChordQuality::Sus4
    } else {
        ChordQuality::Power
    }
}

/// Pitch classes of the chord with pattern `k` built on `root`.
pub open spec fn chord_tones(root: int, k: int) -> Seq<u8> {
    pattern_intervals(k).map_values(|i: u8| ((root + i) % 12) as u8)
}

/// Root of candidate `t` (candidates run root-major, pattern-minor).
pub open spec fn candidate_root(t: int) -> int {
    t / 10
}

/// Pattern index of candidate `t`.
pub open spec fn candidate_pattern(t: int) -> int {
    t % 10
}

/// Every tone of `tones` occurs among `pcs`.
pub open spec fn covers(pcs: Seq<u8>, tones: Seq<u8>) -> bool {
    forall|j: int| 0 <= j < tones.len() ==> pcs.contains(#[trigger] tones[j])
}

/// Number of entries of `pcs` (counted with repetition) that are not tones of the chord.
pub open spec fn count_outside(pcs: Seq<u8>, tones: Seq<u8>) -> nat {
    pcs.filter(|pc: u8| !tones.contains(pc)).len()
}

/// Number of foreign pitch classes for candidate `t`.
pub open spec fn extra_at(pcs: Seq<u8>, t: int) -> nat {
    count_outside(pcs, chord_tones(candidate_root(t), candidate_pattern(t)))
}

/// Candidate `t` is acceptable: all chord tones present, at most one foreign pitch class.
pub open spec fn fits(pcs: Seq<u8>, t: int) -> bool {
    &&& 0 <= t < 120
    &&& covers(pcs, chord_tones(candidate_root(t), candidate_pattern(t)))
    &&& extra_at(pcs, t) <= 1
}

/// Candidate `t` is the one reported: acceptable, with the fewest foreign
/// pitch classes, and the first such candidate in the search order.
pub open spec fn is_best_candidate(pcs: Seq<u8>, t: int) -> bool {
    &&& fits(pcs, t)
    &&& forall|u: int| #[trigger] fits(pcs, u) ==> extra_at(pcs, t) <= extra_at(pcs, u)
    &&& forall|u: int| 0 <= u < t && #[trigger] fits(pcs, u) ==> extra_at(pcs, u) > extra_at(pcs, t)
}

/// `c` is the chord description of candidate `t`.
pub open spec fn describes(c: DetectedChord, t: int) -> bool {
    &&& c.root == candidate_root(t)
    &&& c.quality == pattern_quality(candidate_pattern(t))
    &&& c.name@ == spec_pitch_name(candidate_root(t)) + spec_suffix(
        pattern_quality(candidate_pattern(t)),
    )
    &&& c.matched_tones == pattern_intervals(candidate_pattern(t)).len()
    &&& c.chord_tones == pattern_intervals(candidate_pattern(t)).len()
}

/// `r` is the outcome of chord recognition on `pcs`: nothing for fewer than
/// two pitch classes; otherwise a chord exactly when some candidate fits, and
/// then the description of the best candidate.
pub open spec fn chord_result(pcs: Seq<u8>, r: Option<DetectedChord>) -> bool {
    &&& pcs.len() < 2 ==> r is None
    &&& pcs.len() >= 2 ==> (r is Some <==> exists|t: int| fits(pcs, t))
    &&& r matches Some(c) ==> exists|t: int| is_best_candidate(pcs, t) && #[trigger] describes(c, t)
}

/// The intervals and quality of chord pattern `k`.
fn chord_pattern(k: usize) -> (r: (Vec<u8>, ChordQuality))
    requires
        k < 10,
    ensures
        r.0@ == pattern_intervals(k as int),
        r.1 == pattern_quality(k as int),
{
    match k {
        0 => (vec![0, 4, 7, 11], ChordQuality::Major7),
        1 => (vec![0, 3, 7, 10], ChordQuality::Minor7),
        2 => (vec![0, 4, 7, 10], ChordQuality::Dominant7),
        3 => (vec![0, 4, 7], ChordQuality::Major),
        4 => (vec![0, 3, 7], ChordQuality::Minor),
        5 => (vec![0, 3, 6], ChordQuality::Diminished),
        6 => (vec![0, 4, 8], ChordQuality::Augmented),
        7 => (vec![0, 2, 7], ChordQuality::Sus2),
        8 => (vec![0, 5, 7], ChordQuality::Sus4),
        _ => (vec![0, 7], ChordQuality::Power),
    }
}

/// Whether `x` occurs in `s`.
fn contains_pc(s: &[u8], x: u8) -> (b: bool)
    ensures
        b == s@.contains(x),
{
    let mut i: usize = 0;
    while i < s.len()
        invariant
            i <= s@.len(),
            forall|j: int| 0 <= j < i ==> s@[j] != x,
        decreases s@.len() - i,
    {
        if s[i] == x {
            return true;
        }
        i += 1;
    }
    false
}

/// The pattern `intervals` transposed onto `root`, reduced to pitch classes.
fn transpose_pattern(intervals: &Vec<u8>, root: u8) -> (tones: Vec<u8>)
    requires
        root < 12,
        forall|j: int| 0 <= j < intervals@.len() ==> intervals@[j] < 12,
    ensures
        tones@ == intervals@.map_values(|i: u8| ((root + i) % 12) as u8),
{
    let mut tones: Vec<u8> = Vec::new();
    let mut j: usize = 0;
    while j < intervals.len()
        invariant
            root < 12,
            j <= intervals@.len(),
            forall|m: int| 0 <= m < intervals@.len() ==> intervals@[m] < 12,
            tones@.len() == j,
            forall|m: int| 0 <= m < j ==> tones@[m] == ((root + intervals@[m]) % 12) as u8,
        decreases intervals@.len() - j,
    {
        tones.push((root + intervals[j]) % 12);
        j += 1;
    }
    assert(tones@ =~= intervals@.map_values(|i: u8| ((root + i) % 12) as u8));
    tones
}

/// Count how many of `tones` occur in `pcs`; the count equals the number of
/// tones exactly when all of them occur.
fn count_matched(tones: &Vec<u8>, pcs: &[u8]) -> (matched: usize)
    ensures
        matched <= tones@.len(),
        matched == tones@.len() <==> covers(pcs@, tones@),
{
    let mut matched: usize = 0;
    let mut j: usize = 0;
    while j < tones.len()
        invariant
            j <= tones@.len(),
            matched <= j,
            matched == j <==> (forall|m: int| 0 <= m < j ==> pcs@.contains(#[trigger] tones@[m])),
        decreases tones@.len() - j,
    {
        if contains_pc(pcs, tones[j]) {
            matched += 1;
        }
        j += 1;
    }
    matched
}

/// Count the entries of `pcs` that are not chord tones.
fn count_extra(pcs: &[u8], tones: &Vec<u8>) -> (extra: usize)
    ensures
        extra == count_outside(pcs@, tones@),
{
    let mut extra: usize = 0;
    let mut i: usize = 0;
    while i < pcs.len()
        invariant
            i <= pcs@.len(),
            extra == pcs@.take(i as int).filter(|pc: u8| !tones@.contains(pc)).len(),
        decreases pcs@.len() - i,
    {
        proof {
            reveal_with_fuel(Seq::<u8>::filter, 1);
            assert(pcs@.take(i + 1).drop_last() =~= pcs@.take(i as int));
        }
        if !contains_pc(tones.as_slice(), pcs[i]) {
            extra += 1;
        }
        i += 1;
    }
    assert(pcs@.take(pcs@.len() as int) =~= pcs@);
    extra
}

/// Try to recognise a chord from `pitch_classes` (each 0–11).
///
/// Returns the best-matching chord, or `None` when fewer than two pitch
/// classes are given or no known pattern matches.
pub fn detect_chord(pitch_classes: &[u8]) -> (r: Option<DetectedChord>)
    ensures
        chord_result(pitch_classes@, r),
{
    if pitch_classes.len() < 2 {
        return None;
    }
    let ghost pcs = pitch_classes@;
    let mut best: Option<DetectedChord> = None;
    let mut best_score: usize = 0;
    let ghost mut bt: int = 0;
    let mut root: u8 = 0;
    while root < 12
        invariant
            root <= 12,
            pcs == pitch_classes@,
            best is None ==> best_score == 0,
            best is None ==> forall|u: int| 0 <= u < root * 10 ==> !#[trigger] fits(pcs, u),
            best matches Some(c) ==> {
                &&& 0 <= bt < root * 10
                &&& fits(pcs, bt)
                &&& describes(c, bt)
                &&& best_score == 10 - extra_at(pcs, bt)
                &&& forall|u: int|
                    0 <= u < root * 10 && #[trigger] fits(pcs, u) ==> extra_at(pcs, bt) <= extra_at(pcs, u)
                &&& forall|u: int|
                    0 <= u < bt && #[trigger] fits(pcs, u) ==> extra_at(pcs, u) > extra_at(pcs, bt)
            },
        decreases 12 - root,
    {
        let mut k: usize = 0;
        while k < NUM_PATTERNS
            invariant
                root < 12,
                k <= 10,
                pcs == pitch_classes@,
                best is None ==> best_score == 0,
                best is None ==> forall|u: int| 0 <= u < root * 10 + k ==> !#[trigger] fits(pcs, u),
                best matches Some(c) ==> {
                    &&& 0 <= bt < root * 10 + k
                    &&& fits(pcs, bt)
                    &&& describes(c, bt)
                    &&& best_score == 10 - extra_at(pcs, bt)
                    &&& forall|u: int|
                        0 <= u < root * 10 + k && #[trigger] fits(pcs, u) ==> extra_at(pcs, bt)
                            <= extra_at(pcs, u)
                    &&& forall|u: int|
                        0 <= u < bt && #[trigger] fits(pcs, u) ==> extra_at(pcs, u) > extra_at(
                            pcs,
                            bt,
                        )
                },
            decreases 10 - k,
        {
            let ghost t: int = root * 10 + k;
            assert(candidate_root(t) == root && candidate_pattern(t) == k) by (nonlinear_arith)
                requires
                    t == root * 10 + k,
                    0 <= k < 10,
                    0 <= root,
            ;
            let (pattern, quality) = chord_pattern(k);
            let chord_pcs = transpose_pattern(&pattern, root);
            let matched = count_matched(&chord_pcs, pitch_classes);
            if matched == chord_pcs.len() {
                let extra = count_extra(pitch_classes, &chord_pcs);
                if extra <= 1 {
                    assert(fits(pcs, t));
                    let score: usize = 10 - extra;
                    if score > best_score {
                        best_score = score;
                        let name = String::from_str(pitch_class_name(root)).concat(quality.suffix());
                        best = Some(
                            DetectedChord {
                                name,
                                root,
                                quality,
                                matched_tones: matched as u8,
                                chord_tones: chord_pcs.len() as u8,
                            },
                        );
                        proof {
                            bt = t;
                        }
                    }
                } else {
                    assert(!fits(pcs, t));
                }
            } else {
                assert(!fits(pcs, t));
            }
            k += 1;
        }
        root += 1;
    }
    best
}

/// At most one candidate is the reported one, so the chord returned by
/// `detect_chord` is determined by its input.
pub proof fn lemma_best_candidate_unique(pcs: Seq<u8>, t1: int, t2: int)
    requires
        is_best_candidate(pcs, t1),
        is_best_candidate(pcs, t2),
    ensures
        t1 == t2,
{
    assert(extra_at(pcs, t1) <= extra_at(pcs, t2));
    assert(extra_at(pcs, t2) <= extra_at(pcs, t1));
    if t1 < t2 {
        assert(extra_at(pcs, t1) > extra_at(pcs, t2));
    } else if t2 < t1 {
        assert(extra_at(pcs, t2) > extra_at(pcs, t1));
    }
}

/// The reported chord's root is one of the detected pitch classes, and so is
/// every other tone of the reported chord.
pub proof fn lemma_reported_tones_present(pcs: Seq<u8>, t: int)
    requires
        is_best_candidate(pcs, t),
    ensures
        pcs.contains(candidate_root(t) as u8),
        forall|j: int|
            0 <= j < chord_tones(candidate_root(t), candidate_pattern(t)).len() ==> pcs.contains(
                #[trigger] chord_tones(candidate_root(t), candidate_pattern(t))[j],
            ),
{
    let tones = chord_tones(candidate_root(t), candidate_pattern(t));
    assert(pattern_intervals(candidate_pattern(t))[0] == 0);
    assert(tones[0] == candidate_root(t) as u8);
}

/// A chord that accounts for every detected pitch class is preferred over
/// any chord that leaves one out: when some candidate has no foreign pitch
/// class, neither has the reported one.
pub proof fn lemma_exact_match_preferred(pcs: Seq<u8>, t: int, u: int)
    requires
        is_best_candidate(pcs, t),
        fits(pcs, u),
        extra_at(pcs, u) == 0,
    ensures
        extra_at(pcs, t) == 0,
{
}

/// Pitch class `pc` moved up by `s` semitones (modulo the octave).
pub open spec fn shift_pc(pc: u8, s: int) -> u8 {
    ((pc + s) % 12) as u8
}

/// Every pitch class moved up by `s` semitones.
pub open spec fn transposed(pcs: Seq<u8>, s: int) -> Seq<u8> {
    pcs.map_values(|pc: u8| shift_pc(pc, s))
}

/// The candidate with the same pattern as `t` and its root moved up by `s` semitones.
pub open spec fn transposed_candidate(t: int, s: int) -> int {
    ((candidate_root(t) + s) % 12) * 10 + candidate_pattern(t)
}

proof fn lemma_filter_len_map(
    a: Seq<u8>,
    f: spec_fn(u8) -> u8,
    p: spec_fn(u8) -> bool,
    q: spec_fn(u8) -> bool,
)
    requires
        forall|i: int| 0 <= i < a.len() ==> q(f(#[trigger] a[i])) == p(a[i]),
    ensures
        a.map_values(f).filter(q).len() == a.filter(p).len(),
    decreases a.len(),
{
    reveal_with_fuel(Seq::<u8>::filter, 1);
    if a.len() > 0 {
        let prefix = a.drop_last();
        assert forall|i: int| 0 <= i < prefix.len() implies q(f(#[trigger] prefix[i])) == p(
            prefix[i],
        ) by {
            assert(prefix[i] == a[i]);
        }
        lemma_filter_len_map(prefix, f, p, q);
        assert(a.map_values(f).drop_last() =~= prefix.map_values(f));
        assert(a.map_values(f).last() == f(a.last()));
    }
}

proof fn lemma_shift_injective(x: u8, y: u8, s: int)
    requires
        x < 12,
        y < 12,
        0 <= s < 12,
    ensures
        shift_pc(x, s) == shift_pc(y, s) <==> x == y,
        shift_pc(x, s) < 12,
{
}

proof fn lemma_shift_tones(root: int, k: int, s: int)
    requires
        0 <= root < 12,
        0 <= k < 10,
        0 <= s < 12,
    ensures
        chord_tones((root + s) % 12, k) == transposed(chord_tones(root, k), s),
        forall|j: int| 0 <= j < chord_tones(root, k).len() ==> #[trigger] chord_tones(root, k)[j] < 12,
{
    let a = chord_tones((root + s) % 12, k);
    let b = transposed(chord_tones(root, k), s);
    assert forall|j: int| 0 <= j < a.len() implies a[j] == b[j] by {
        let i = pattern_intervals(k)[j] as int;
        assert(i < 12);
        vstd::arithmetic::div_mod::lemma_add_mod_noop(root + s, i, 12);
        vstd::arithmetic::div_mod::lemma_add_mod_noop(root + i, s, 12);
        vstd::arithmetic::div_mod::lemma_mod_self_0(12);
        vstd::arithmetic::div_mod::lemma_small_mod(i as nat, 12);
        vstd::arithmetic::div_mod::lemma_small_mod(s as nat, 12);
        assert((((root + s) % 12) + i) % 12 == (root + s + i) % 12);
        assert((((root + i) % 12) + s) % 12 == (root + i + s) % 12);
    }
    assert(a =~= b);
}

/// Transposing every detected pitch class by `s` semitones transposes every
/// candidate chord with it: the candidate on the moved root with the same
/// pattern is acceptable exactly when the untransposed one is, with the same
/// number of foreign pitch classes.
pub proof fn lemma_transposition(pcs: Seq<u8>, s: int, t: int)
    requires
        0 <= s < 12,
        0 <= t < 120,
        forall|i: int| 0 <= i < pcs.len() ==> #[trigger] pcs[i] < 12,
    ensures
        fits(transposed(pcs, s), transposed_candidate(t, s)) == fits(pcs, t),
        extra_at(transposed(pcs, s), transposed_candidate(t, s)) == extra_at(pcs, t),
        0 <= transposed_candidate(t, s) < 120,
{
    let r = candidate_root(t);
    let k = candidate_pattern(t);
    let t2 = transposed_candidate(t, s);
    let r2 = (r + s) % 12;
    assert(candidate_root(t2) == r2 && candidate_pattern(t2) == k) by (nonlinear_arith)
        requires
            t2 == r2 * 10 + k,
            0 <= k < 10,
            0 <= r2 < 12,
    ;
    let tones = chord_tones(r, k);
    let tones2 = chord_tones(r2, k);
    let pcs2 = transposed(pcs, s);
    lemma_shift_tones(r, k, s);
    assert(tones2 == transposed(tones, s));
    // Membership is preserved by the shift.
    assert forall|x: u8| x < 12 implies pcs2.contains(shift_pc(x, s)) == pcs.contains(x) by {
        if pcs.contains(x) {
            let i = choose|i: int| 0 <= i < pcs.len() && pcs[i] == x;
            assert(pcs2[i] == shift_pc(x, s));
        }
        if pcs2.contains(shift_pc(x, s)) {
            let i = choose|i: int| 0 <= i < pcs2.len() && pcs2[i] == shift_pc(x, s);
            lemma_shift_injective(pcs[i], x, s);
        }
    }
    assert forall|x: u8| x < 12 implies tones2.contains(shift_pc(x, s)) == tones.contains(x) by {
        if tones.contains(x) {
            let i = choose|i: int| 0 <= i < tones.len() && tones[i] == x;
            assert(tones2[i] == shift_pc(x, s));
        }
        if tones2.contains(shift_pc(x, s)) {
            let i = choose|i: int| 0 <= i < tones2.len() && tones2[i] == shift_pc(x, s);
            lemma_shift_injective(tones[i], x, s);
        }
    }
    // Coverage.
    assert(covers(pcs2, tones2) == covers(pcs, tones)) by {
        if covers(pcs, tones) {
            assert forall|j: int| 0 <= j < tones2.len() implies pcs2.contains(#[trigger] tones2[j]) by {
                assert(tones2[j] == shift_pc(tones[j], s));
                assert(pcs.contains(tones[j]));
            }
        }
        if covers(pcs2, tones2) {
            assert forall|j: int| 0 <= j < tones.len() implies pcs.contains(#[trigger] tones[j]) by {
                assert(tones2[j] == shift_pc(tones[j], s));
                assert(pcs2.contains(tones2[j]));
            }
        }
    }
    // Foreign pitch classes.
    let f = |pc: u8| shift_pc(pc, s);
    let p = |pc: u8| !tones.contains(pc);
    let q = |pc: u8| !tones2.contains(pc);
    assert forall|i: int| 0 <= i < pcs.len() implies q(f(#[trigger] pcs[i])) == p(pcs[i]) by {
        assert(pcs[i] < 12);
    }
    lemma_filter_len_map(pcs, f, p, q);
    assert(pcs2 == pcs.map_values(f));
}

proof fn lemma_candidate_index(r: int, k: int)
    requires
        0 <= r,
        0 <= k < 10,
    ensures
        candidate_root(r * 10 + k) == r,
        candidate_pattern(r * 10 + k) == k,
{
    assert(candidate_root(r * 10 + k) == r && candidate_pattern(r * 10 + k) == k)
        by (nonlinear_arith)
        requires
            0 <= r,
            0 <= k < 10,
    ;
}

proof fn lemma_untranspose_candidate(pcs: Seq<u8>, s: int, t2: int) -> (t: int)
    requires
        0 <= s < 12,
        forall|i: int| 0 <= i < pcs.len() ==> #[trigger] pcs[i] < 12,
        fits(transposed(pcs, s), t2),
    ensures
        fits(pcs, t),
{
    let r2 = candidate_root(t2);
    let k = candidate_pattern(t2);
    let r = (r2 + 12 - s) % 12;
    let t = r * 10 + k;
    lemma_candidate_index(r, k);
    lemma_candidate_index(r2, k);
    assert(t2 == r2 * 10 + k);
    assert((r + s) % 12 == r2);
    lemma_transposition(pcs, s, t);
    assert(transposed_candidate(t, s) == t2);
    t
}

/// A chord is recognised in a set of pitch classes exactly when one is
/// recognised after transposing the whole set by `s` semitones.
pub proof fn lemma_transposition_keeps_recognition(pcs: Seq<u8>, s: int)
    requires
        0 <= s < 12,
        forall|i: int| 0 <= i < pcs.len() ==> #[trigger] pcs[i] < 12,
    ensures
        (exists|t: int| #[trigger] fits(pcs, t)) <==> (exists|t: int|
            #[trigger] fits(transposed(pcs, s), t)),
        transposed(pcs, s).len() == pcs.len(),
{
    if exists|t: int| #[trigger] fits(pcs, t) {
        let t = choose|t: int| #[trigger] fits(pcs, t);
        lemma_transposition(pcs, s, t);
        assert(fits(transposed(pcs, s), transposed_candidate(t, s)));
    }
    if exists|t: int| #[trigger] fits(transposed(pcs, s), t) {
        let t2 = choose|t: int| #[trigger] fits(transposed(pcs, s), t);
        let t = lemma_untranspose_candidate(pcs, s, t2);
        assert(fits(pcs, t));
    }
}

proof fn lemma_filter_len_permutation(a: Seq<u8>, b: Seq<u8>, p: spec_fn(u8) -> bool)
    requires
        a.to_multiset() == b.to_multiset(),
    ensures
        a.filter(p).len() == b.filter(p).len(),
    decreases a.len(),
{
    broadcast use vstd::seq_lib::group_to_multiset_ensures;
    broadcast use vstd::multiset::group_multiset_axioms;

    vstd::seq_lib::to_multiset_len(a);
    vstd::seq_lib::to_multiset_len(b);
    if a.len() == 0 {
        assert(b.len() == 0);
        assert(a =~= b);
    } else {
        let x = a.last();
        let a1 = a.drop_last();
        assert(a1.push(x) =~= a);
        vstd::seq_lib::to_multiset_build(a1, x);
        vstd::seq_lib::to_multiset_contains(b, x);
        assert(a.to_multiset().count(x) > 0);
        assert(b.contains(x));
        let i = choose|i: int| 0 <= i < b.len() && b[i] == x;
        let b1 = b.remove(i);
        vstd::seq_lib::to_multiset_remove(b, i);
        assert(a1.to_multiset() =~= b1.to_multiset());
        lemma_filter_len_permutation(a1, b1, p);
        reveal_with_fuel(Seq::<u8>::filter, 1);
        let lo = b.subrange(0, i);
        let hi = b.subrange(i + 1, b.len() as int);
        assert(b =~= lo + (seq![x] + hi));
        assert(b1 =~= lo + hi);
        Seq::filter_distributes_over_add(lo, seq![x] + hi, p);
        Seq::filter_distributes_over_add(seq![x], hi, p);
        Seq::filter_distributes_over_add(lo, hi, p);
        reveal_with_fuel(Seq::<u8>::filter, 2);
        assert(seq![x].drop_last() =~= Seq::<u8>::empty());
        assert(seq![x].filter(p).len() == (if p(x) {
            1int
        } else {
            0
        }));
    }
}

/// A candidate's acceptability and foreign-note count depend only on which
/// pitch classes were detected and how often, not on their order.
pub proof fn lemma_candidate_ignores_order(a: Seq<u8>, b: Seq<u8>, t: int)
    requires
        a.to_multiset() == b.to_multiset(),
    ensures
        fits(a, t) == fits(b, t),
        extra_at(a, t) == extra_at(b, t),
{
    broadcast use vstd::seq_lib::group_to_multiset_ensures;

    let tones = chord_tones(candidate_root(t), candidate_pattern(t));
    lemma_filter_len_permutation(a, b, |pc: u8| !tones.contains(pc));
    assert forall|x: u8| a.contains(x) == b.contains(x) by {
        vstd::seq_lib::to_multiset_contains(a, x);
        vstd::seq_lib::to_multiset_contains(b, x);
    }
    assert(covers(a, tones) == covers(b, tones));
}

/// The chord reported for a list of pitch classes does not depend on the
/// order of the list: any reordering has the same best candidate.
pub proof fn lemma_chord_ignores_order(a: Seq<u8>, b: Seq<u8>, t: int)
    requires
        a.to_multiset() == b.to_multiset(),
    ensures
        is_best_candidate(a, t) == is_best_candidate(b, t),
        (exists|u: int| #[trigger] fits(a, u)) == (exists|u: int| #[trigger] fits(b, u)),
{
    assert forall|u: int| fits(a, u) == fits(b, u) && extra_at(a, u) == extra_at(b, u) by {
        lemma_candidate_ignores_order(a, b, u);
    }
}

/// Interval `i` (semitones above the root) is a tone of a chord of quality `q`.
pub open spec fn quality_has_interval(q: ChordQuality, i: int) -> bool {
    match q {
        ChordQuality::Major7 => i == 0 || i == 4 || i == 7 || i == 11,
        ChordQuality::Minor7 => i == 0 || i == 3 || i == 7 || i == 10,
        ChordQuality::Dominant7 => i == 0 || i == 4 || i == 7 || i == 10,
        ChordQuality::Major => i == 0 || i == 4 || i == 7,
        ChordQuality::Minor => i == 0 || i == 3 || i == 7,
        ChordQuality::Diminished => i == 0 || i == 3 || i == 6,
        ChordQuality::Augmented => i == 0 || i == 4 || i == 8,
        ChordQuality::Sus2 => i == 0 || i == 2 || i == 7,
        ChordQuality::Sus4 => i == 0 || i == 5 || i == 7,
        ChordQuality::Power => i == 0 || i == 7,
    }
}

/// Number of tones of a chord of quality `q`.
pub open spec fn quality_size(q: ChordQuality) -> nat {
    match q {
        ChordQuality::Major7 | ChordQuality::Minor7 | ChordQuality::Dominant7 => 4,
        ChordQuality::Power => 2,
        _ => 3,
    }
}

/// Place of quality `q` in the order in which chords are tried on each
/// root: maj7, m7, 7, major, minor, dim, aug, sus2, sus4, power.
pub open spec fn search_rank(q: ChordQuality) -> int {
    match q {
        ChordQuality::Major7 => 0,
        ChordQuality::Minor7 => 1,
        ChordQuality::Dominant7 => 2,
        ChordQuality::Major => 3,
        ChordQuality::Minor => 4,
        ChordQuality::Diminished => 5,
        ChordQuality::Augmented => 6,
        ChordQuality::Sus2 => 7,
        ChordQuality::Sus4 => 8,
        ChordQuality::Power => 9,
    }
}

/// Pitch class `pc` is a tone of the chord of quality `q` on `root`.
pub open spec fn is_chord_tone(root: int, q: ChordQuality, pc: u8) -> bool {
    pc < 12 && quality_has_interval(q, (pc - root) % 12)
}

/// Number of entries of `pcs` that are not tones of the chord of quality `q`
/// on `root`.
pub open spec fn foreign_count(pcs: Seq<u8>, root: int, q: ChordQuality) -> nat {
    pcs.filter(|pc: u8| !is_chord_tone(root, q, pc)).len()
}

/// The chord of quality `q` on `root` sounds in `pcs`: every one of its tones
/// is present and at most one entry of `pcs` is foreign to it.
pub open spec fn chord_sounds(pcs: Seq<u8>, root: int, q: ChordQuality) -> bool {
    &&& 0 <= root < 12
    &&& forall|i: int|
        0 <= i < 12 && #[trigger] quality_has_interval(q, i) ==> pcs.contains(
            ((root + i) % 12) as u8,
        )
    &&& foreign_count(pcs, root, q) <= 1
}

/// The pattern list holds, at each position, the intervals of the quality
/// that the search order puts there.
proof fn lemma_pattern_table(k: int)
    requires
        0 <= k < 10,
    ensures
        search_rank(pattern_quality(k)) == k,
        pattern_intervals(k).len() == quality_size(pattern_quality(k)),
        forall|j: int|
            0 <= j < pattern_intervals(k).len() ==> #[trigger] pattern_intervals(k)[j] < 12,
        forall|i: int|
            0 <= i < 12 ==> (pattern_intervals(k).contains(i as u8) <==> quality_has_interval(
                pattern_quality(k),
                i,
            )),
{
    let iv = pattern_intervals(k);
    let q = pattern_quality(k);
    assert forall|i: int| 0 <= i < 12 implies (iv.contains(i as u8) <==> quality_has_interval(
        q,
        i,
    )) by {
        if quality_has_interval(q, i) {
            if k == 9 {
                if i == 0 {
                    assert(iv[0] == i as u8);
                } else {
                    assert(iv[1] == i as u8);
                }
            } else if k <= 2 {
                if i == 0 {
                    assert(iv[0] == i as u8);
                } else if i == iv[1] {
                    assert(iv[1] == i as u8);
                } else if i == iv[2] {
                    assert(iv[2] == i as u8);
                } else {
                    assert(iv[3] == i as u8);
                }
            } else {
                if i == 0 {
                    assert(iv[0] == i as u8);
                } else if i == iv[1] {
                    assert(iv[1] == i as u8);
                } else {
                    assert(iv[2] == i as u8);
                }
            }
        }
    }
}

/// Every quality occurs in the pattern list, at its place in the search order.
proof fn lemma_quality_in_table(q: ChordQuality)
    ensures
        0 <= search_rank(q) < 10,
        pattern_quality(search_rank(q)) == q,
{
}

/// The pitch class `i` semitones above `root` is `pc` exactly when `pc` lies
/// `i` semitones above `root` modulo the octave.
proof fn lemma_interval_offset(root: int, i: int, pc: u8)
    requires
        0 <= root < 12,
        0 <= i < 12,
    ensures
        (((root + i) % 12) as u8 == pc) <==> (pc < 12 && (pc - root) % 12 == i),
{
    if root + i < 12 {
        assert((root + i) % 12 == root + i);
    } else {
        assert((root + i) % 12 == root + i - 12);
    }
    if pc < 12 {
        if pc >= root {
            assert((pc - root) % 12 == pc - root);
        } else {
            assert((pc - root) % 12 == pc - root + 12);
        }
    }
}

/// Candidate `root * 10 + k` is the chord of quality `pattern_quality(k)`
/// on `root`: it is acceptable exactly when that chord sounds, with the same
/// number of foreign pitch classes.
proof fn lemma_candidate_is_chord(pcs: Seq<u8>, root: int, k: int)
    requires
        0 <= root < 12,
        0 <= k < 10,
    ensures
        fits(pcs, root * 10 + k) == chord_sounds(pcs, root, pattern_quality(k)),
        extra_at(pcs, root * 10 + k) == foreign_count(pcs, root, pattern_quality(k)),
{
    let q = pattern_quality(k);
    let iv = pattern_intervals(k);
    let tones = chord_tones(root, k);
    lemma_candidate_index(root, k);
    lemma_pattern_table(k);
    assert forall|pc: u8| tones.contains(pc) == is_chord_tone(root, q, pc) by {
        if tones.contains(pc) {
            let j = choose|j: int| 0 <= j < tones.len() && tones[j] == pc;
            lemma_interval_offset(root, iv[j] as int, pc);
            assert(iv.contains(iv[j]));
        }
        if is_chord_tone(root, q, pc) {
            let i = (pc - root) % 12;
            assert(iv.contains(i as u8));
            let j = choose|j: int| 0 <= j < iv.len() && iv[j] == i as u8;
            lemma_interval_offset(root, i, pc);
            assert(tones[j] == pc);
        }
    }
    assert forall|i: int| 0 <= i < 12 && quality_has_interval(q, i) implies tones.contains(
        ((root + i) % 12) as u8,
    ) by {
        assert(iv.contains(i as u8));
        let j = choose|j: int| 0 <= j < iv.len() && iv[j] == i as u8;
        assert(tones[j] == ((root + i) % 12) as u8);
    }
    if chord_sounds(pcs, root, q) {
        assert forall|j: int| 0 <= j < tones.len() implies pcs.contains(#[trigger] tones[j]) by {
            let i = iv[j] as int;
            assert(iv.contains(iv[j]));
            assert(quality_has_interval(q, i));
        }
    }
    if covers(pcs, tones) {
        assert forall|i: int| 0 <= i < 12 && #[trigger] quality_has_interval(q, i) implies pcs.contains(
            ((root + i) % 12) as u8,
        ) by {
            let pc = ((root + i) % 12) as u8;
            assert(tones.contains(pc));
            let j = choose|j: int| 0 <= j < tones.len() && tones[j] == pc;
        }
    }
    assert((|pc: u8| !tones.contains(pc)) =~= (|pc: u8| !is_chord_tone(root, q, pc)));
}

/// What chord recognition reports, stated over chord qualities and roots:
/// nothing for fewer than two pitch classes; otherwise a chord exactly when
/// some chord sounds.  The reported chord sounds, is named after its root and
/// quality, and has the fewest foreign pitch classes of all chords that
/// sound; among those it has the lowest root, and on that root the quality
/// that comes first in the order maj7, m7, 7, major, minor, dim, aug, sus2,
/// sus4, power.
pub proof fn lemma_recognised_chord(pcs: Seq<u8>, r: Option<DetectedChord>)
    requires
        chord_result(pcs, r),
    ensures
        pcs.len() < 2 ==> r is None,
        pcs.len() >= 2 ==> (r is Some <==> exists|root: int, q: ChordQuality|
            chord_sounds(pcs, root, q)),
        r matches Some(c) ==> {
            &&& chord_sounds(pcs, c.root as int, c.quality)
            &&& c.name@ == spec_pitch_name(c.root as int) + spec_suffix(c.quality)
            &&& c.matched_tones == quality_size(c.quality)
            &&& c.chord_tones == quality_size(c.quality)
            &&& forall|root: int, q: ChordQuality| #[trigger]
                chord_sounds(pcs, root, q) ==> {
                    &&& foreign_count(pcs, c.root as int, c.quality) <= foreign_count(pcs, root, q)
                    &&& foreign_count(pcs, c.root as int, c.quality) == foreign_count(pcs, root, q)
                        ==> (c.root < root || (c.root == root && search_rank(c.quality)
                        <= search_rank(q)))
                }
        },
{
    if pcs.len() >= 2 {
        if exists|t: int| fits(pcs, t) {
            let t = choose|t: int| fits(pcs, t);
            let root = candidate_root(t);
            let k = candidate_pattern(t);
            assert(t == root * 10 + k);
            lemma_candidate_is_chord(pcs, root, k);
            assert(chord_sounds(pcs, root, pattern_quality(k)));
        }
        if exists|root: int, q: ChordQuality| chord_sounds(pcs, root, q) {
            let (root, q) = choose|root: int, q: ChordQuality| chord_sounds(pcs, root, q);
            lemma_quality_in_table(q);
            lemma_candidate_is_chord(pcs, root, search_rank(q));
            assert(fits(pcs, root * 10 + search_rank(q)));
        }
    }
    if let Some(c) = r {
        let t = choose|t: int| is_best_candidate(pcs, t) && #[trigger] describes(c, t);
        let root = candidate_root(t);
        let k = candidate_pattern(t);
        assert(t == root * 10 + k);
        lemma_candidate_is_chord(pcs, root, k);
        lemma_pattern_table(k);
        assert forall|root2: int, q2: ChordQuality| #[trigger]
            chord_sounds(pcs, root2, q2) implies {
                &&& foreign_count(pcs, c.root as int, c.quality) <= foreign_count(pcs, root2, q2)
                &&& foreign_count(pcs, c.root as int, c.quality) == foreign_count(pcs, root2, q2)
                    ==> (c.root < root2 || (c.root == root2 && search_rank(c.quality)
                    <= search_rank(q2)))
            } by {
            let k2 = search_rank(q2);
            lemma_quality_in_table(q2);
            lemma_candidate_is_chord(pcs, root2, k2);
            let u = root2 * 10 + k2;
            assert(fits(pcs, u));
            if u < t {
                assert(extra_at(pcs, u) > extra_at(pcs, t));
            }
        }
    }
}

/// A major triad that sounds is never reported as a suspended chord on the
/// same root with as many foreign pitch classes: with C, E, G and D the
/// answer is C major, not Csus2.
pub proof fn lemma_major_before_suspended(pcs: Seq<u8>, c: DetectedChord)
    requires
        chord_result(pcs, Some(c)),
        chord_sounds(pcs, c.root as int, ChordQuality::Major),
        c.quality == ChordQuality::Sus2 || c.quality == ChordQuality::Sus4,
    ensures
        foreign_count(pcs, c.root as int, c.quality) < foreign_count(
            pcs,
            c.root as int,
            ChordQuality::Major,
        ),
{
    lemma_recognised_chord(pcs, Some(c));
}


} // verus!
