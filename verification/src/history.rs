//! Fixed-depth ring of past spectra, newest first.
//!
//! One spectrum is pushed per analysis tick; the oldest is overwritten in
//! place. The display reads the history newest first: index 0 is the
//! spectrum pushed last, shown at the top of the waterfall.

use vstd::prelude::*;
use crate::spectrum::Spectrum;

verus! {

/// One push to the newest-first model of a history: the new spectrum
/// enters at the front, the oldest falls off the end.
pub open spec fn history_push(nf: Seq<Seq<u8>>, s: Seq<u8>) -> Seq<Seq<u8>> {
    if nf.len() == 0 {
        nf
    } else {
        seq![s] + nf.subrange(0, nf.len() - 1)
    }
}

/// A whole sequence of pushes applied in order, oldest push first.
pub open spec fn history_push_all(nf: Seq<Seq<u8>>, xs: Seq<Seq<u8>>) -> Seq<Seq<u8>>
    decreases xs.len(),
{
    if xs.len() == 0 {
        nf
    } else {
        history_push_all(history_push(nf, xs[0]), xs.subrange(1, xs.len() as int))
    }
}

/// The scrolling history of the waterfall: a fixed-depth ring of spectra
/// with a cursor at the slot the next push overwrites.
pub struct WaterfallHistory {
    data: Vec<Spectrum>,
    current_line: usize,
}

impl WaterfallHistory {
    /// The cursor stays inside the (non-empty) storage and every stored
    /// spectrum is well formed.
    pub closed spec fn inv(self) -> bool {
        &&& self.data.len() > 0
        &&& self.current_line < self.data.len()
        &&& forall|i: int| 0 <= i < self.data@.len() ==> (#[trigger] self.data@[i]).well_formed()
    }

    /// The history holds at least one spectrum, and its newest-first
    /// reading has one entry per slot, each with one level per bin, none
    /// above the display range.
    pub open spec fn well_formed(self) -> bool {
        &&& self.inv()
        &&& self.depth() > 0
        &&& self.newest_first().len() == self.depth()
        &&& forall|i: int|
            0 <= i < self.newest_first().len() ==> (#[trigger] self.newest_first()[i]).len()
                == crate::spectrum::SPECTRUM_BINS
        &&& forall|i: int, j: int|
            0 <= i < self.newest_first().len() && 0 <= j < self.newest_first()[i].len()
                ==> self.newest_first()[i][j] <= crate::spectrum::LEVEL_MAX
    }

    /// How many spectra the history holds.
    pub closed spec fn depth(self) -> nat {
        self.data@.len()
    }

    /// The slot holding the `i`-th newest spectrum: the cursor's
    /// predecessor holds the newest, and earlier slots follow backwards,
    /// wrapping.
    closed spec fn slot(self, i: int) -> int {
        if i < self.current_line {
            self.current_line - 1 - i
        } else {
            self.current_line - 1 - i + self.depth()
        }
    }

    /// The stored spectra by their levels, newest first: index 0 is the
    /// spectrum pushed last.
    pub closed spec fn newest_first(self) -> Seq<Seq<u8>> {
        Seq::new(self.depth(), |i: int| self.data@[self.slot(i)]@)
    }

    /// A history of `depth` silent spectra.
    pub fn new(depth: usize) -> (r: Self)
        requires
            depth > 0,
        ensures
            r.well_formed(),
            r.depth() == depth,
            forall|i: int|
                0 <= i < depth ==> r.newest_first()[i] == Seq::new(
                    crate::spectrum::SPECTRUM_BINS as nat,
                    |j: int| 0u8,
                ),
    {
        let mut data: Vec<Spectrum> = Vec::new();
        let mut i: usize = 0;
        while i < depth
            invariant
                i <= depth,
                data@.len() == i,
                forall|j: int|
                    0 <= j < i ==> data@[j]@ == Seq::new(
                        crate::spectrum::SPECTRUM_BINS as nat,
                        |k: int| 0u8,
                    ),
                forall|j: int| 0 <= j < i ==> data@[j].well_formed(),
            decreases depth - i,
        {
            data.push(Spectrum::zeros());
            i = i + 1;
        }
        WaterfallHistory { data, current_line: 0 }
    }

    /// How many spectra the history holds.
    pub fn len(&self) -> (r: usize)
        ensures
            r as int == self.depth(),
    {
        self.data.len()
    }

    /// Store one spectrum over the oldest slot and advance the cursor: the
    /// new spectrum becomes the newest, every other ages one place, the
    /// oldest is gone.
    pub fn push(&mut self, s: Spectrum)
        requires
            old(self).well_formed(),
            s.well_formed(),
        ensures
            final(self).well_formed(),
            final(self).depth() == old(self).depth(),
            final(self).newest_first() == history_push(old(self).newest_first(), s@),
    {
        let n = self.data.len();
        self.data.set(self.current_line, s);
        self.current_line = if self.current_line + 1 == n {
            0
        } else {
            self.current_line + 1
        };
        proof {
            assert(self.newest_first() =~= history_push(old(self).newest_first(), s@));
        }
    }

    /// The `i`-th newest spectrum, 0 being the one pushed last.
    pub fn newest(&self, i: usize) -> (r: &Spectrum)
        requires
            self.well_formed(),
            i < self.depth(),
        ensures
            r@ == self.newest_first()[i as int],
            r.well_formed(),
    {
        let idx = if i < self.current_line {
            self.current_line - 1 - i
        } else {
            self.current_line + (self.data.len() - 1 - i)
        };
        &self.data[idx]
    }

    /// All stored spectra by their levels, newest first, as one vector of
    /// copies.
    pub fn newest_first_levels(&self) -> (r: Vec<Vec<u8>>)
        requires
            self.well_formed(),
        ensures
            r@.len() == self.depth(),
            forall|i: int| 0 <= i < r@.len() ==> r@[i]@ == self.newest_first()[i],
    {
        let mut r: Vec<Vec<u8>> = Vec::new();
        let mut i: usize = 0;
        let n = self.len();
        while i < n
            invariant
                i <= n,
                n == self.depth(),
                self.well_formed(),
                r@.len() == i,
                forall|j: int| 0 <= j < i ==> r@[j]@ == self.newest_first()[j],
            decreases n - i,
        {
            let sp = self.newest(i);
            let mut row: Vec<u8> = Vec::new();
            let mut k: usize = 0;
            while k < sp.len()
                invariant
                    k <= sp@.len(),
                    row@.len() == k,
                    forall|j: int| 0 <= j < k ==> row@[j] == sp@[j],
                decreases sp@.len() - k,
            {
                row.push(sp.level(k));
                k = k + 1;
            }
            proof {
                assert(row@ =~= sp@);
            }
            r.push(row);
            i = i + 1;
        }
        r
    }
}

/// History ordering: pushing any run of spectra onto any history leaves,
/// newest first, the reversed run followed by what the history held — cut
/// to the history's depth. In particular, after one more push than the
/// depth, the reading is the last `depth` pushes newest first, the first
/// push evicted.
pub proof fn lemma_history_push_all(nf: Seq<Seq<u8>>, xs: Seq<Seq<u8>>)
    ensures
        history_push_all(nf, xs) == (xs.reverse() + nf).subrange(0, nf.len() as int),
    decreases xs.len(),
{
    if xs.len() == 0 {
        assert((xs.reverse() + nf).subrange(0, nf.len() as int) =~= nf);
    } else {
        let x0 = xs[0];
        let rest = xs.subrange(1, xs.len() as int);
        lemma_history_push_all(history_push(nf, x0), rest);
        if nf.len() == 0 {
            assert((rest.reverse() + nf).subrange(0, 0) =~= (xs.reverse() + nf).subrange(0, 0));
        } else {
            assert(rest.reverse() + history_push(nf, x0) =~= (xs.reverse() + nf).subrange(
                0,
                xs.len() + nf.len() - 1,
            ));
            assert((rest.reverse() + history_push(nf, x0)).subrange(0, nf.len() as int) =~= (
            xs.reverse() + nf).subrange(0, nf.len() as int));
        }
    }
}

/// History ordering, stated directly: once at least `depth` spectra have
/// been pushed, the newest-first reading is exactly the last `depth`
/// pushes in reverse push order.
pub proof fn lemma_history_newest_first_of_pushes(nf: Seq<Seq<u8>>, xs: Seq<Seq<u8>>)
    requires
        xs.len() >= nf.len(),
    ensures
        history_push_all(nf, xs) == xs.subrange(xs.len() - nf.len(), xs.len() as int).reverse(),
{
    lemma_history_push_all(nf, xs);
    assert((xs.reverse() + nf).subrange(0, nf.len() as int) =~= xs.subrange(
        xs.len() - nf.len(),
        xs.len() as int,
    ).reverse());
}

} // verus!
