//! Fixed-size circular buffer of the most recent audio samples.
//!
//! The capture callback is the sole writer, the analysis step of the main
//! loop the sole reader; the surrounding program guards the ring with one
//! lock. The element type is generic: the callers store each sample's raw
//! bit pattern, since the ring never looks inside a sample.

use vstd::prelude::*;

verus! {

/// One write to the model of a ring: the oldest value leaves at the front,
/// the new value enters at the back.
pub open spec fn ring_write<T>(s: Seq<T>, x: T) -> Seq<T> {
    if s.len() == 0 {
        s
    } else {
        s.subrange(1, s.len() as int).push(x)
    }
}

/// A whole sequence of writes applied in order, oldest write first.
pub open spec fn ring_write_all<T>(s: Seq<T>, xs: Seq<T>) -> Seq<T>
    decreases xs.len(),
{
    if xs.len() == 0 {
        s
    } else {
        ring_write_all(ring_write(s, xs[0]), xs.subrange(1, xs.len() as int))
    }
}

/// A fixed-capacity ring buffer holding the last `capacity` values written.
pub struct SampleRing<T> {
    samples: Vec<T>,
    position: usize,
}

impl<T: Copy> SampleRing<T> {
    /// The write cursor stays inside the (non-empty) storage.
    pub closed spec fn well_formed(self) -> bool {
        self.samples.len() > 0 && self.position < self.samples.len()
    }

    /// The stored values in chronological order: oldest first, the value
    /// written last just before the cursor.
    pub closed spec fn chron(self) -> Seq<T> {
        self.samples@.subrange(self.position as int, self.samples@.len() as int)
            + self.samples@.subrange(0, self.position as int)
    }

    /// How many values the ring holds (always full: it starts filled).
    pub open spec fn capacity(self) -> nat {
        self.chron().len()
    }

    /// A ring of `capacity` slots, all holding `fill`.
    pub fn new(capacity: usize, fill: T) -> (r: Self)
        requires
            capacity > 0,
        ensures
            r.well_formed(),
            r.chron() == Seq::new(capacity as nat, |i: int| fill),
    {
        let mut samples: Vec<T> = Vec::new();
        let mut i: usize = 0;
        while i < capacity
            invariant
                i <= capacity,
                samples@.len() == i,
                forall|j: int| 0 <= j < i ==> samples@[j] == fill,
            decreases capacity - i,
        {
            samples.push(fill);
            i = i + 1;
        }
        let r = SampleRing { samples, position: 0 };
        proof {
            assert(r.chron() =~= Seq::new(capacity as nat, |i: int| fill));
        }
        r
    }

    /// Store one sample at the cursor and advance the cursor, wrapping.
    /// The chronological contents lose their oldest value and gain the new
    /// one at the end.
    pub fn write(&mut self, sample: T)
        requires
            old(self).well_formed(),
        ensures
            final(self).well_formed(),
            final(self).capacity() == old(self).capacity(),
            final(self).chron() == ring_write(old(self).chron(), sample),
    {
        let n = self.samples.len();
        self.samples.set(self.position, sample);
        self.position = if self.position + 1 == n {
            0
        } else {
            self.position + 1
        };
        proof {
            assert(self.chron() =~= ring_write(old(self).chron(), sample));
        }
    }

    /// Store a block of samples in order, as the capture callback does with
    /// each buffer the audio backend hands it.
    pub fn write_all(&mut self, samples: &[T])
        requires
            old(self).well_formed(),
        ensures
            final(self).well_formed(),
            final(self).capacity() == old(self).capacity(),
            final(self).chron() == ring_write_all(old(self).chron(), samples@),
    {
        let mut i: usize = 0;
        proof {
            assert(samples@.subrange(0, samples@.len() as int) =~= samples@);
        }
        while i < samples.len()
            invariant
                i <= samples@.len(),
                self.well_formed(),
                self.capacity() == old(self).capacity(),
                ring_write_all(old(self).chron(), samples@) == ring_write_all(
                    self.chron(),
                    samples@.subrange(i as int, samples@.len() as int),
                ),
            decreases samples@.len() - i,
        {
            let ghost rest = samples@.subrange(i as int, samples@.len() as int);
            self.write(samples[i]);
            i = i + 1;
            proof {
                assert(rest.subrange(1, rest.len() as int) =~= samples@.subrange(
                    i as int,
                    samples@.len() as int,
                ));
            }
        }
        proof {
            assert(ring_write_all(self.chron(), samples@.subrange(
                samples@.len() as int,
                samples@.len() as int,
            )) == self.chron());
        }
    }

    /// Copy out the last `capacity` samples in chronological order, oldest
    /// first. Later writes do not touch the copy.
    pub fn snapshot(&self) -> (r: Vec<T>)
        requires
            self.well_formed(),
        ensures
            r@ == self.chron(),
    {
        let n = self.samples.len();
        let mut r: Vec<T> = Vec::new();
        let mut i: usize = 0;
        while i < n
            invariant
                i <= n,
                n == self.samples@.len(),
                self.well_formed(),
                r@ =~= self.chron().subrange(0, i as int),
            decreases n - i,
        {
            let idx = if i < n - self.position {
                self.position + i
            } else {
                i - (n - self.position)
            };
            r.push(self.samples[idx]);
            i = i + 1;
        }
        proof {
            assert(r@ =~= self.chron());
        }
        r
    }
}

/// Ring correctness: applying any sequence of writes to a ring model leaves
/// exactly the tail of (initial contents ++ writes), i.e. after at least
/// `capacity` writes the ring holds the last `capacity` written values in
/// chronological order.
pub proof fn lemma_ring_write_all_tail<T>(s: Seq<T>, xs: Seq<T>)
    ensures
        ring_write_all(s, xs) == (s + xs).subrange(xs.len() as int, (s.len() + xs.len()) as int),
    decreases xs.len(),
{
    if xs.len() == 0 {
        assert((s + xs).subrange(0, s.len() as int) =~= s);
    } else {
        let x0 = xs[0];
        let rest = xs.subrange(1, xs.len() as int);
        if s.len() == 0 {
            assert(ring_write(s, x0) =~= s);
            lemma_ring_write_all_tail(s, rest);
            assert((s + rest).subrange(rest.len() as int, (s.len() + rest.len()) as int) =~= (s
                + xs).subrange(xs.len() as int, (s.len() + xs.len()) as int));
        } else {
            lemma_ring_write_all_tail(ring_write(s, x0), rest);
            assert(ring_write(s, x0) + rest =~= (s + xs).subrange(1, (s.len() + xs.len()) as int));
            assert((ring_write(s, x0) + rest).subrange(
                rest.len() as int,
                (ring_write(s, x0).len() + rest.len()) as int,
            ) =~= (s + xs).subrange(xs.len() as int, (s.len() + xs.len()) as int));
        }
    }
}

/// Ring correctness, stated directly: once at least as many values have been
/// written as the ring holds, the contents are the most recent writes alone,
/// oldest first — whatever the ring held before.
pub proof fn lemma_ring_holds_last_writes<T>(s: Seq<T>, xs: Seq<T>)
    requires
        xs.len() >= s.len(),
    ensures
        ring_write_all(s, xs) == xs.subrange((xs.len() - s.len()) as int, xs.len() as int),
{
    lemma_ring_write_all_tail(s, xs);
    assert((s + xs).subrange(xs.len() as int, (s.len() + xs.len()) as int) =~= xs.subrange(
        (xs.len() - s.len()) as int,
        xs.len() as int,
    ));
}

} // verus!
