//! Sample buffering for audio input: a bounded capture queue, fixed-size
//! frames taken from it, and a cursor that serves a decoded file frame by
//! frame.

use vstd::prelude::*;

use std::collections::VecDeque;

verus! {

/// The last `max` entries of `s` (all of `s` when it is not longer).
pub open spec fn keep_last<T>(s: Seq<T>, max: nat) -> Seq<T> {
    if s.len() > max {
        s.subrange(s.len() - max, s.len() as int)
    } else {
        s
    }
}

/// Append `data` to the capture queue, then drop the oldest samples while
/// the queue holds more than `max`.
pub fn append_bounded<T: Copy>(buffer: &mut VecDeque<T>, data: &[T], max: usize)
    ensures
        final(buffer)@ == keep_last(old(buffer)@ + data@, max as nat),
{
    let ghost start = buffer@;
    let mut i: usize = 0;
    while i < data.len()
        invariant
            i <= data@.len(),
            buffer@ == start + data@.take(i as int),
        decreases data@.len() - i,
    {
        buffer.push_back(data[i]);
        assert(start + data@.take(i + 1) =~= (start + data@.take(i as int)).push(data@[i as int]));
        i += 1;
    }
    assert(data@.take(data@.len() as int) =~= data@);
    let ghost full = buffer@;
    assert(full.subrange(0, full.len() as int) =~= full);
    while buffer.len() > max
        invariant
            full == start + data@,
            buffer@.len() <= full.len(),
            full.len() > max ==> buffer@.len() >= max,
            full.len() <= max ==> buffer@ == full,
            buffer@ == full.subrange(full.len() - buffer@.len(), full.len() as int),
        decreases buffer@.len(),
    {
        buffer.pop_front();
        assert(buffer@ =~= full.subrange(full.len() - buffer@.len(), full.len() as int));
    }
}

/// Number of samples a frame request takes from a queue of `available` samples.
pub open spec fn taken(available: nat, frame_size: nat) -> nat {
    if available < frame_size {
        available
    } else {
        frame_size
    }
}

/// Take up to `frame_size` samples from the front of the queue; the frame is
/// padded with `fill` to exactly `frame_size` samples.
pub fn take_frame<T: Copy>(buffer: &mut VecDeque<T>, frame_size: usize, fill: T) -> (frame: Vec<T>)
    ensures
        frame@ == old(buffer)@.take(taken(old(buffer)@.len(), frame_size as nat) as int) + Seq::new(
            (frame_size - taken(old(buffer)@.len(), frame_size as nat)) as nat,
            |i: int| fill,
        ),
        final(buffer)@ == old(buffer)@.skip(taken(old(buffer)@.len(), frame_size as nat) as int),
{
    let ghost start = buffer@;
    let available = if buffer.len() < frame_size {
        buffer.len()
    } else {
        frame_size
    };
    let mut frame: Vec<T> = Vec::new();
    let mut i: usize = 0;
    while i < available
        invariant
            available == taken(start.len(), frame_size as nat),
            i <= available,
            frame@ == start.take(i as int),
            buffer@ == start.skip(i as int),
        decreases available - i,
    {
        let s = buffer.pop_front();
        match s {
            Some(v) => {
                frame.push(v);
            },
            None => {},
        }
        assert(start.take(i + 1) =~= start.take(i as int).push(start[i as int]));
        assert(start.skip(i + 1) =~= start.skip(i as int).subrange(1, start.skip(i as int).len() as int));
        i += 1;
    }
    let ghost taken_part = frame@;
    while frame.len() < frame_size
        invariant
            available <= frame_size,
            taken_part == start.take(available as int),
            frame@.len() <= frame_size,
            frame@.len() >= available,
            frame@ == taken_part + Seq::new((frame@.len() - available) as nat, |j: int| fill),
        decreases frame_size - frame@.len(),
    {
        frame.push(fill);
        assert(frame@ =~= taken_part + Seq::new((frame@.len() - available) as nat, |j: int| fill));
    }
    frame
}

/// End of the frame of at most `frame_size` samples that starts at `p`.
pub open spec fn frame_end(len: int, p: int, frame_size: int) -> int {
    if p + frame_size < len {
        p + frame_size
    } else {
        len
    }
}

/// The frames that successive requests of `frame_size` samples serve from
/// position `p` until the samples run out.
pub open spec fn frames_from<T>(s: Seq<T>, p: int, frame_size: int) -> Seq<Seq<T>>
    decreases s.len() - p,
{
    if frame_size < 1 || p < 0 || p >= s.len() {
        Seq::empty()
    } else {
        seq![s.subrange(p, frame_end(s.len() as int, p, frame_size))] + frames_from(
            s,
            frame_end(s.len() as int, p, frame_size),
            frame_size,
        )
    }
}

/// The frames served from position `p` concatenate to the remaining
/// samples; every frame holds `frame_size` samples except the last, which
/// holds at least one and at most `frame_size`.
pub proof fn lemma_frames_cover_samples<T>(s: Seq<T>, p: int, frame_size: int)
    requires
        frame_size >= 1,
        0 <= p <= s.len(),
    ensures
        frames_from(s, p, frame_size).flatten() == s.subrange(p, s.len() as int),
        forall|i: int|
            0 <= i < frames_from(s, p, frame_size).len() - 1
                ==> #[trigger] frames_from(s, p, frame_size)[i].len() == frame_size,
        frames_from(s, p, frame_size).len() > 0 ==> 0 < frames_from(s, p, frame_size).last().len()
            <= frame_size,
    decreases s.len() - p,
{
    let fr = frames_from(s, p, frame_size);
    if p < s.len() {
        let e = frame_end(s.len() as int, p, frame_size);
        lemma_frames_cover_samples(s, e, frame_size);
        let rest = frames_from(s, e, frame_size);
        assert(fr == seq![s.subrange(p, e)] + rest);
        assert(fr.first() == s.subrange(p, e));
        assert(fr.drop_first() =~= rest);
        assert(fr.flatten() == fr.first() + fr.drop_first().flatten());
        assert(s.subrange(p, e) + s.subrange(e, s.len() as int) =~= s.subrange(p, s.len() as int));
        assert forall|i: int| 0 <= i < fr.len() - 1 implies #[trigger] fr[i].len() == frame_size by {
            if i == 0 {
                if e == s.len() {
                    assert(rest.len() == 0);
                }
            } else {
                assert(fr[i] == rest[i - 1]);
            }
        }
        if rest.len() > 0 {
            assert(fr.last() == rest.last());
        }
    } else {
        assert(s.subrange(p, s.len() as int) =~= Seq::<T>::empty());
    }
}

/// A decoded sample sequence served frame by frame.
#[derive(Debug, Clone)]
pub struct SampleCursor<T> {
    samples: Vec<T>,
    position: usize,
}

impl<T: Copy> SampleCursor<T> {
    /// All samples.
    pub closed spec fn spec_samples(&self) -> Seq<T> {
        self.samples@
    }

    /// Index of the next sample to serve.
    pub closed spec fn spec_position(&self) -> nat {
        self.position as nat
    }

    /// A cursor at the start of `samples`.
    pub fn new(samples: Vec<T>) -> (c: Self)
        ensures
            c.spec_samples() == samples@,
            c.spec_position() == 0,
    {
        SampleCursor { samples, position: 0 }
    }

    /// Total number of samples.
    pub fn len(&self) -> (n: usize)
        ensures
            n == self.spec_samples().len(),
    {
        self.samples.len()
    }

    /// `true` when all samples have been served.
    pub fn is_empty(&self) -> (b: bool)
        ensures
            b == (self.spec_position() >= self.spec_samples().len()),
    {
        self.position >= self.samples.len()
    }

    /// Borrow all samples.
    pub fn samples(&self) -> (s: &[T])
        ensures
            s@ == self.spec_samples(),
    {
        self.samples.as_slice()
    }

    /// The next `frame_size` samples (fewer at the end), advancing the
    /// cursor; `None` once all samples have been served.
    pub fn next_frame(&mut self, frame_size: usize) -> (frame: Option<Vec<T>>)
        ensures
            final(self).spec_samples() == old(self).spec_samples(),
            old(self).spec_position() >= old(self).spec_samples().len() ==> {
                &&& frame is None
                &&& final(self).spec_position() == old(self).spec_position()
            },
            old(self).spec_position() < old(self).spec_samples().len() ==> {
                let end = if old(self).spec_position() + frame_size < old(self).spec_samples().len() {
                    old(self).spec_position() + frame_size
                } else {
                    old(self).spec_samples().len() as int
                };
                &&& frame matches Some(f) && f@ == old(self).spec_samples().subrange(
                    old(self).spec_position() as int,
                    end,
                )
                &&& final(self).spec_position() == end
            },
            frame_size >= 1 ==> frames_from(
                old(self).spec_samples(),
                old(self).spec_position() as int,
                frame_size as int,
            ) == match frame {
                Some(f) => seq![f@] + frames_from(
                    final(self).spec_samples(),
                    final(self).spec_position() as int,
                    frame_size as int,
                ),
                None => Seq::<Seq<T>>::empty(),
            },
    {
        if self.position >= self.samples.len() {
            return None;
        }
        let end = if frame_size < self.samples.len() - self.position {
            self.position + frame_size
        } else {
            self.samples.len()
        };
        let mut frame: Vec<T> = Vec::new();
        let mut i = self.position;
        while i < end
            invariant
                self.position <= i <= end,
                end <= self.samples@.len(),
                frame@ == self.samples@.subrange(self.position as int, i as int),
            decreases end - i,
        {
            frame.push(self.samples[i]);
            assert(self.samples@.subrange(self.position as int, i + 1) =~= self.samples@.subrange(
                self.position as int,
                i as int,
            ).push(self.samples@[i as int]));
            i += 1;
        }
        self.position = end;
        Some(frame)
    }

    /// Move the cursor back to the first sample.
    pub fn rewind(&mut self)
        ensures
            final(self).spec_samples() == old(self).spec_samples(),
            final(self).spec_position() == 0,
    {
        self.position = 0;
    }
}

} // verus!
