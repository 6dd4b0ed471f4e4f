//! Note selection steps of the detector that work on MIDI note numbers.

use vstd::prelude::*;

verus! {

/// Note `idx` of the energy-ordered list is an overtone: the note one octave
/// (12 semitones) below it occurs earlier, i.e. with more energy.
pub open spec fn is_octave_overtone(active_midis: Seq<u8>, idx: int) -> bool {
    &&& active_midis[idx] >= 12
    &&& exists|pos: int| 0 <= pos < idx && active_midis[pos] == active_midis[idx] - 12
}

/// Harmonic suppression over candidate notes sorted by descending energy:
/// entry `idx` of the result is `true` when that note is likely an overtone
/// of a stronger note exactly one octave below.
pub fn harmonic_suppression(active_midis: &[u8]) -> (suppressed: Vec<bool>)
    ensures
        suppressed@.len() == active_midis@.len(),
        forall|idx: int|
            0 <= idx < active_midis@.len() ==> #[trigger] suppressed@[idx] == is_octave_overtone(
                active_midis@,
                idx,
            ),
        forall|idx: int|
            0 <= idx < active_midis@.len() ==> (#[trigger] suppressed@[idx] <==> exists|pos: int|
                0 <= pos < idx && active_midis@[pos] + 12 == active_midis@[idx]),
{
    let mut suppressed: Vec<bool> = Vec::new();
    let mut idx: usize = 0;
    while idx < active_midis.len()
        invariant
            idx <= active_midis@.len(),
            suppressed@.len() == idx,
            forall|i: int|
                0 <= i < idx ==> #[trigger] suppressed@[i] == is_octave_overtone(active_midis@, i),
        decreases active_midis@.len() - idx,
    {
        let m = active_midis[idx];
        let mut found = false;
        if m >= 12 {
            let lower = m - 12;
            // Position of the first occurrence of the lower octave.
            let mut pos: usize = 0;
            while pos < active_midis.len() && active_midis[pos] != lower
                invariant
                    pos <= active_midis@.len(),
                    idx < active_midis@.len(),
                    lower == active_midis@[idx as int] - 12,
                    forall|p: int| 0 <= p < pos ==> active_midis@[p] != lower,
                decreases active_midis@.len() - pos,
            {
                pos += 1;
            }
            if pos < active_midis.len() {
                found = pos < idx;
            }
            proof {
                if pos < idx {
                    assert(active_midis@[pos as int] == lower);
                } else {
                    assert forall|p: int| 0 <= p < idx implies active_midis@[p] != lower by {}
                }
            }
        }
        suppressed.push(found);
        idx += 1;
    }
    proof {
        lemma_overtone_is_octave_below(active_midis@);
    }
    suppressed
}

/// A note is an octave overtone exactly when a stronger note (earlier in the
/// list) lies exactly 12 semitones below it.
proof fn lemma_overtone_is_octave_below(notes: Seq<u8>)
    ensures
        forall|idx: int|
            0 <= idx < notes.len() ==> (#[trigger] is_octave_overtone(notes, idx) <==> exists|
                pos: int,
            | 0 <= pos < idx && notes[pos] + 12 == notes[idx]),
{
    assert forall|idx: int| 0 <= idx < notes.len() implies (#[trigger] is_octave_overtone(
        notes,
        idx,
    ) <==> exists|pos: int| 0 <= pos < idx && notes[pos] + 12 == notes[idx]) by {
        if exists|pos: int| 0 <= pos < idx && notes[pos] + 12 == notes[idx] {
            let pos = choose|pos: int| 0 <= pos < idx && notes[pos] + 12 == notes[idx];
            assert(notes[pos] == notes[idx] - 12);
        }
    }
}

/// Positions, in increasing order, of the notes among the first `k` of
/// `notes` that are not octave overtones.
pub open spec fn kept_positions(notes: Seq<u8>, k: int) -> Seq<usize>
    decreases k,
{
    if k <= 0 {
        Seq::empty()
    } else if is_octave_overtone(notes, k - 1) {
        kept_positions(notes, k - 1)
    } else {
        kept_positions(notes, k - 1).push((k - 1) as usize)
    }
}

/// The number of candidates kept before suppression: at most `max_polyphony`.
pub open spec fn capped_len(len: int, max_polyphony: int) -> int {
    if len < max_polyphony {
        len
    } else {
        max_polyphony
    }
}

/// Select the notes to report from candidates sorted by descending energy:
/// keep the strongest `max_polyphony` candidates, then drop those that are
/// octave overtones of a stronger kept candidate.  Returns the positions of
/// the reported candidates, strongest first.
pub fn select_notes(active_midis: &[u8], max_polyphony: usize) -> (kept: Vec<usize>)
    ensures
        ({
            let n = capped_len(active_midis@.len() as int, max_polyphony as int);
            kept@ == kept_positions(active_midis@.take(n), n)
        }),
        forall|i: int, j: int| 0 <= i < j < kept@.len() ==> kept@[i] < kept@[j],
        forall|i: int|
            0 <= i < kept@.len() ==> {
                &&& #[trigger] kept@[i] < capped_len(active_midis@.len() as int, max_polyphony as int)
                &&& !exists|q: int|
                    0 <= q < kept@[i] && #[trigger] active_midis@[q] + 12 == active_midis@[kept@[i] as int]
            },
        forall|p: int|
            0 <= p < capped_len(active_midis@.len() as int, max_polyphony as int)
                && !#[trigger] kept@.contains(p as usize) ==> exists|q: int|
                0 <= q < p && active_midis@[q] + 12 == active_midis@[p],
{
    let n = if active_midis.len() < max_polyphony {
        active_midis.len()
    } else {
        max_polyphony
    };
    let mut capped: Vec<u8> = Vec::new();
    let mut i: usize = 0;
    while i < n
        invariant
            n <= active_midis@.len(),
            i <= n,
            capped@ == active_midis@.take(i as int),
        decreases n - i,
    {
        capped.push(active_midis[i]);
        assert(active_midis@.take(i + 1) =~= active_midis@.take(i as int).push(active_midis@[i as int]));
        i += 1;
    }
    let suppressed = harmonic_suppression(capped.as_slice());
    let mut kept: Vec<usize> = Vec::new();
    let mut j: usize = 0;
    while j < n
        invariant
            capped@ == active_midis@.take(n as int),
            n == capped@.len(),
            suppressed@.len() == n,
            forall|idx: int|
                0 <= idx < n ==> #[trigger] suppressed@[idx] == is_octave_overtone(capped@, idx),
            j <= n,
            kept@ == kept_positions(capped@, j as int),
        decreases n - j,
    {
        if !suppressed[j] {
            kept.push(j);
        }
        j += 1;
    }
    proof {
        let c = capped@;
        let a = active_midis@;
        assert(n == capped_len(a.len() as int, max_polyphony as int));
        lemma_kept_positions(c, n as int);
        lemma_overtone_is_octave_below(c);
        assert forall|i: int| 0 <= i < kept@.len() implies {
            &&& #[trigger] kept@[i] < n
            &&& !exists|q: int| 0 <= q < kept@[i] && #[trigger] a[q] + 12 == a[kept@[i] as int]
        } by {
            let p = kept@[i] as int;
            assert(!is_octave_overtone(c, p));
            if exists|q: int| 0 <= q < p && #[trigger] a[q] + 12 == a[p] {
                let q = choose|q: int| 0 <= q < p && #[trigger] a[q] + 12 == a[p];
                assert(c[q] == a[q] && c[p] == a[p]);
            }
        }
        assert forall|p: int|
            0 <= p < n && !#[trigger] kept@.contains(p as usize) implies exists|q: int|
                0 <= q < p && a[q] + 12 == a[p] by {
            assert(is_octave_overtone(c, p));
            let q = choose|q: int| 0 <= q < p && c[q] + 12 == c[p];
            assert(c[q] == a[q] && c[p] == a[p]);
        }
    }
    kept
}

/// The kept positions among the first `k` notes are increasing, lie below
/// `k`, and are exactly the positions of the notes that are not octave
/// overtones.
proof fn lemma_kept_positions(notes: Seq<u8>, k: int)
    requires
        0 <= k <= notes.len(),
        k <= usize::MAX,
    ensures
        forall|i: int, j: int|
            0 <= i < j < kept_positions(notes, k).len() ==> kept_positions(notes, k)[i]
                < kept_positions(notes, k)[j],
        forall|i: int|
            0 <= i < kept_positions(notes, k).len() ==> {
                &&& #[trigger] kept_positions(notes, k)[i] < k
                &&& !is_octave_overtone(notes, kept_positions(notes, k)[i] as int)
            },
        forall|p: int|
            0 <= p < k && !is_octave_overtone(notes, p) ==> kept_positions(notes, k).contains(
                p as usize,
            ),
    decreases k,
{
    if k > 0 {
        lemma_kept_positions(notes, k - 1);
        let prev = kept_positions(notes, k - 1);
        let cur = kept_positions(notes, k);
        if is_octave_overtone(notes, k - 1) {
            assert(cur == prev);
        } else {
            assert(cur == prev.push((k - 1) as usize));
            assert forall|i: int| 0 <= i < cur.len() implies {
                &&& #[trigger] cur[i] < k
                &&& !is_octave_overtone(notes, cur[i] as int)
            } by {
                if i < prev.len() {
                    assert(cur[i] == prev[i]);
                }
            }
            assert forall|i: int, j: int| 0 <= i < j < cur.len() implies cur[i] < cur[j] by {
                assert(cur[i] == prev[i]);
                if j < prev.len() {
                    assert(cur[j] == prev[j]);
                }
            }
            assert forall|p: int| 0 <= p < k && !is_octave_overtone(notes, p) implies cur.contains(
                p as usize,
            ) by {
                if p < k - 1 {
                    let i = choose|i: int| 0 <= i < prev.len() && prev[i] == p as usize;
                    assert(cur[i] == p as usize);
                } else {
                    assert(cur[prev.len() as int] == p as usize);
                }
            }
        }
    }
}

} // verus!
