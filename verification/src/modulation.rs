//! Per-note pitch histories and transposition of MIDI notes.

use vstd::prelude::*;

use crate::chord::{chord_result, detect_chord};
use crate::types::DetectedChord;
use std::collections::{HashMap, VecDeque};

verus! {

/// The window after recording `v` in a history `h` of capacity `capacity`:
/// when the history holds `capacity` values the oldest one is dropped first
/// (with capacity 0 nothing is ever dropped).
pub open spec fn window_after<T>(h: Seq<T>, capacity: nat, v: T) -> Seq<T> {
    if h.len() == capacity && h.len() > 0 {
        h.drop_first().push(v)
    } else {
        h.push(v)
    }
}

/// The window after recording every value of `xs` in order, starting from `h`.
pub open spec fn window_after_all<T>(h: Seq<T>, capacity: nat, xs: Seq<T>) -> Seq<T>
    decreases xs.len(),
{
    if xs.len() == 0 {
        h
    } else {
        window_after(window_after_all(h, capacity, xs.drop_last()), capacity, xs.last())
    }
}

/// Rolling window of the most recent values recorded for one sustained note.
#[derive(Debug)]
pub struct NoteTracker<T> {
    history: VecDeque<T>,
    capacity: usize,
}

impl<T> NoteTracker<T> {
    /// The recorded values, oldest first.
    pub closed spec fn values(&self) -> Seq<T> {
        self.history@
    }

    /// The capacity the tracker was created with.
    pub closed spec fn spec_capacity(&self) -> nat {
        self.capacity as nat
    }

    /// Create an empty tracker keeping up to `capacity` values.
    pub fn new(capacity: usize) -> (t: Self)
        ensures
            t.values() == Seq::<T>::empty(),
            t.spec_capacity() == capacity,
    {
        NoteTracker { history: VecDeque::with_capacity(capacity), capacity }
    }

    /// Record a value, dropping the oldest one when the tracker is full.
    pub fn push(&mut self, value: T)
        ensures
            final(self).spec_capacity() == old(self).spec_capacity(),
            final(self).values() == window_after(
                old(self).values(),
                old(self).spec_capacity(),
                value,
            ),
    {
        if self.history.len() == self.capacity {
            self.history.pop_front();
        }
        self.history.push_back(value);
        assert(self.history@ =~= window_after(old(self).values(), old(self).spec_capacity(), value));
    }

    /// Number of recorded values.
    pub fn len(&self) -> (n: usize)
        ensures
            n == self.values().len(),
    {
        self.history.len()
    }

    /// The recorded values, oldest first.
    pub fn history(&self) -> (h: &VecDeque<T>)
        ensures
            h@ == self.values(),
    {
        &self.history
    }
}

/// A tracker with capacity at least one always holds the most recent
/// `capacity` values recorded since it was created (all of them while fewer
/// were recorded), oldest first.
pub proof fn lemma_tracker_keeps_latest<T>(capacity: nat, xs: Seq<T>)
    requires
        capacity >= 1,
    ensures
        window_after_all(Seq::<T>::empty(), capacity, xs) == xs.subrange(
            if xs.len() > capacity {
                xs.len() - capacity
            } else {
                0
            },
            xs.len() as int,
        ),
    decreases xs.len(),
{
    if xs.len() > 0 {
        let prefix = xs.drop_last();
        lemma_tracker_keeps_latest(capacity, prefix);
        let w = window_after_all(Seq::<T>::empty(), capacity, prefix);
        if prefix.len() >= capacity {
            assert(w.len() == capacity);
            assert(w.drop_first().push(xs.last()) =~= xs.subrange(
                xs.len() - capacity,
                xs.len() as int,
            ));
        } else {
            assert(w.push(xs.last()) =~= xs.subrange(0, xs.len() as int));
        }
    } else {
        assert(xs.subrange(0, 0) =~= Seq::<T>::empty());
    }
}

/// The pitch histories of the currently sounding notes, keyed by MIDI note;
/// new histories are created with a common capacity.
#[derive(Debug)]
pub struct NoteTrackers<T> {
    trackers: HashMap<u8, NoteTracker<T>>,
    capacity: usize,
}

impl<T> NoteTrackers<T> {
    /// The tracker of each note that has one.
    pub closed spec fn trackers(&self) -> Map<u8, NoteTracker<T>> {
        self.trackers@
    }

    /// The capacity given to newly created trackers.
    pub closed spec fn spec_capacity(&self) -> nat {
        self.capacity as nat
    }

    /// No note has a history yet; new histories will keep `capacity` values.
    pub fn new(capacity: usize) -> (s: Self)
        ensures
            s.trackers() == Map::<u8, NoteTracker<T>>::empty(),
            s.spec_capacity() == capacity,
    {
        NoteTrackers { trackers: HashMap::new(), capacity }
    }

    /// Discard the history of every note that is not among `active`.
    pub fn retain_active(&mut self, active: &[u8])
        ensures
            final(self).spec_capacity() == old(self).spec_capacity(),
            final(self).trackers() == old(self).trackers().restrict(active@.to_set()),
    {
        broadcast use vstd::std_specs::hash::group_hash_axioms;

        let ghost start = self.trackers@;
        let mut kept: HashMap<u8, NoteTracker<T>> = HashMap::new();
        let mut i: usize = 0;
        while i < active.len()
            invariant
                i <= active@.len(),
                self.capacity == old(self).capacity,
                kept@ == start.restrict(active@.take(i as int).to_set()),
                self.trackers@ == start.remove_keys(active@.take(i as int).to_set()),
            decreases active@.len() - i,
        {
            let m = active[i];
            let ghost before = active@.take(i as int).to_set();
            assert(active@.take(i + 1).to_set() =~= before.insert(m)) by {
                assert(active@.take(i + 1) =~= active@.take(i as int).push(m));
                active@.take(i as int).lemma_push_to_set_commute(m);
            }
            match self.trackers.remove(&m) {
                Some(t) => {
                    kept.insert(m, t);
                },
                None => {},
            }
            assert(kept@ =~= start.restrict(before.insert(m)));
            assert(self.trackers@ =~= start.remove_keys(before.insert(m)));
            i += 1;
        }
        assert(active@.take(active@.len() as int) =~= active@);
        self.trackers = kept;
    }

    /// Record `value` in the history of note `midi`, creating the history
    /// (with the common capacity) when the note has none.
    pub fn record(&mut self, midi: u8, value: T)
        ensures
            final(self).spec_capacity() == old(self).spec_capacity(),
            final(self).trackers().dom() == old(self).trackers().dom().insert(midi),
            forall|k: u8|
                k != midi && old(self).trackers().contains_key(k)
                    ==> #[trigger] final(self).trackers()[k] == old(self).trackers()[k],
            old(self).trackers().contains_key(midi) ==> {
                &&& final(self).trackers()[midi].spec_capacity()
                    == old(self).trackers()[midi].spec_capacity()
                &&& final(self).trackers()[midi].values() == window_after(
                    old(self).trackers()[midi].values(),
                    old(self).trackers()[midi].spec_capacity(),
                    value,
                )
            },
            !old(self).trackers().contains_key(midi) ==> {
                &&& final(self).trackers()[midi].spec_capacity() == old(self).spec_capacity()
                &&& final(self).trackers()[midi].values() == seq![value]
            },
    {
        broadcast use vstd::std_specs::hash::group_hash_axioms;

        let mut tracker = match self.trackers.remove(&midi) {
            Some(t) => t,
            None => NoteTracker::new(self.capacity),
        };
        tracker.push(value);
        proof {
            if !old(self).trackers@.contains_key(midi) {
                assert(window_after(Seq::<T>::empty(), self.capacity as nat, value) =~= seq![value]);
            }
        }
        self.trackers.insert(midi, tracker);
        assert(self.trackers@.dom() =~= old(self).trackers@.dom().insert(midi));
    }

    /// The tracker of note `midi`, if it has one.
    pub fn get(&self, midi: u8) -> (t: Option<&NoteTracker<T>>)
        ensures
            match t {
                Some(t) => self.trackers().contains_key(midi) && *t == self.trackers()[midi],
                None => !self.trackers().contains_key(midi),
            },
    {
        broadcast use vstd::std_specs::hash::group_hash_axioms;

        self.trackers.get(&midi)
    }

    /// Discard every history.
    pub fn clear(&mut self)
        ensures
            final(self).spec_capacity() == old(self).spec_capacity(),
            final(self).trackers() == Map::<u8, NoteTracker<T>>::empty(),
    {
        self.trackers.clear();
    }
}

/// The note `semitones` above `midi` (below when negative), or `None` when it
/// falls outside the MIDI range 0–127.
pub open spec fn spec_transpose(midi: int, semitones: int) -> Option<int> {
    if 0 <= midi + semitones <= 127 {
        Some(midi + semitones)
    } else {
        None
    }
}

/// Transpose a MIDI note by `semitones`; notes that would leave the MIDI
/// range 0–127 give `None`.
pub fn transpose_midi(midi: u8, semitones: i8) -> (r: Option<u8>)
    ensures
        match spec_transpose(midi as int, semitones as int) {
            Some(m) => r == Some(m as u8),
            None => r is None,
        },
{
    let new_midi: i16 = midi as i16 + semitones as i16;
    if new_midi < 0 || new_midi > 127 {
        None
    } else {
        Some(new_midi as u8)
    }
}

/// Transposing by zero keeps every MIDI note; transposing back by the
/// opposite interval undoes a transposition that stayed in range.
pub proof fn lemma_transpose_inverse(midi: int, semitones: int)
    requires
        0 <= midi <= 127,
    ensures
        spec_transpose(midi, 0) == Some(midi),
        spec_transpose(midi, semitones) matches Some(m) ==> spec_transpose(m, -semitones) == Some(
            midi,
        ),
{
}

/// The notes of `midis` that stay in range when transposed by `semitones`,
/// in order, each as its position in `midis` and its new MIDI number.
pub open spec fn shifted_notes(midis: Seq<u8>, semitones: int) -> Seq<(usize, u8)>
    decreases midis.len(),
{
    if midis.len() == 0 {
        Seq::empty()
    } else {
        let prev = shifted_notes(midis.drop_last(), semitones);
        match spec_transpose(midis.last() as int, semitones) {
            Some(m) => prev.push(((midis.len() - 1) as usize, m as u8)),
            None => prev,
        }
    }
}

/// Pitch classes of the shifted notes.
pub open spec fn shifted_pitch_classes(notes: Seq<(usize, u8)>) -> Seq<u8> {
    notes.map_values(|n: (usize, u8)| n.1 % 12)
}

/// Transpose the notes `midis` by `semitones`, dropping those that leave the
/// MIDI range, and recognise the chord of the transposed notes.  Returns
/// each kept note's position in `midis` with its new number, in order, and
/// the chord.
pub fn shift_notes(midis: &[u8], semitones: i8) -> (r: (Vec<(usize, u8)>, Option<DetectedChord>))
    ensures
        r.0@ == shifted_notes(midis@, semitones as int),
        chord_result(shifted_pitch_classes(r.0@), r.1),
{
    let mut kept: Vec<(usize, u8)> = Vec::new();
    let mut i: usize = 0;
    while i < midis.len()
        invariant
            i <= midis@.len(),
            kept@ == shifted_notes(midis@.take(i as int), semitones as int),
        decreases midis@.len() - i,
    {
        assert(midis@.take(i + 1).drop_last() =~= midis@.take(i as int));
        match transpose_midi(midis[i], semitones) {
            Some(m) => {
                kept.push((i, m));
            },
            None => {},
        }
        i += 1;
    }
    assert(midis@.take(midis@.len() as int) =~= midis@);
    let mut pcs: Vec<u8> = Vec::new();
    let mut j: usize = 0;
    while j < kept.len()
        invariant
            j <= kept@.len(),
            pcs@ == shifted_pitch_classes(kept@.take(j as int)),
        decreases kept@.len() - j,
    {
        pcs.push(kept[j].1 % 12);
        assert(shifted_pitch_classes(kept@.take(j + 1)) =~= shifted_pitch_classes(
            kept@.take(j as int),
        ).push(kept@[j as int].1 % 12));
        j += 1;
    }
    assert(kept@.take(kept@.len() as int) =~= kept@);
    let chord = detect_chord(pcs.as_slice());
    (kept, chord)
}

/// The shifted notes are, in increasing order of position, exactly the notes
/// of `midis` whose number moved by `semitones` stays within 0–127, each
/// with its moved number.
pub proof fn lemma_shifted_notes(midis: Seq<u8>, semitones: int)
    requires
        midis.len() <= usize::MAX,
    ensures
        forall|i: int|
            0 <= i < shifted_notes(midis, semitones).len() ==> {
                let (p, m) = #[trigger] shifted_notes(midis, semitones)[i];
                &&& p < midis.len()
                &&& m == midis[p as int] + semitones
            },
        forall|i: int, j: int|
            0 <= i < j < shifted_notes(midis, semitones).len() ==> shifted_notes(midis, semitones)[i].0
                < shifted_notes(midis, semitones)[j].0,
        forall|p: int|
            0 <= p < midis.len() && 0 <= #[trigger] midis[p] + semitones <= 127 ==> exists|i: int|
                0 <= i < shifted_notes(midis, semitones).len() && shifted_notes(midis, semitones)[i].0
                    == p,
    decreases midis.len(),
{
    if midis.len() > 0 {
        let prefix = midis.drop_last();
        lemma_shifted_notes(prefix, semitones);
        let prev = shifted_notes(prefix, semitones);
        let cur = shifted_notes(midis, semitones);
        let last = (midis.len() - 1) as int;
        assert forall|q: int| 0 <= q < prefix.len() implies prefix[q] == midis[q] by {}
        match spec_transpose(midis.last() as int, semitones) {
            Some(m) => {
                assert(cur == prev.push((last as usize, m as u8)));
                assert forall|i: int| 0 <= i < cur.len() implies {
                    let (p, m) = #[trigger] cur[i];
                    &&& p < midis.len()
                    &&& m == midis[p as int] + semitones
                } by {
                    if i < prev.len() {
                        assert(cur[i] == prev[i]);
                    }
                }
                assert forall|i: int, j: int| 0 <= i < j < cur.len() implies cur[i].0 < cur[j].0 by {
                    assert(cur[i] == prev[i]);
                    if j < prev.len() {
                        assert(cur[j] == prev[j]);
                    }
                }
                assert forall|p: int|
                    0 <= p < midis.len() && 0 <= #[trigger] midis[p] + semitones <= 127 implies exists|
                        i: int,
                    | 0 <= i < cur.len() && cur[i].0 == p by {
                    if p < last {
                        assert(0 <= prefix[p] + semitones <= 127);
                        let i = choose|i: int| 0 <= i < prev.len() && prev[i].0 == p;
                        assert(cur[i] == prev[i]);
                    } else {
                        assert(cur[prev.len() as int].0 == p);
                    }
                }
            },
            None => {
                assert(cur == prev);
                assert forall|p: int|
                    0 <= p < midis.len() && 0 <= #[trigger] midis[p] + semitones <= 127 implies exists|
                        i: int,
                    | 0 <= i < cur.len() && cur[i].0 == p by {
                    assert(p != last);
                    assert(0 <= prefix[p] + semitones <= 127);
                }
            },
        }
    }
}

} // verus!
