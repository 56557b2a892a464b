//! `retain_mut` for `Vec`, and the bookkeeping of its pass.
//!
//! While a pass runs, the vector is laid out in three parts:
//!
//! ```text
//! [Kept, Kept, Rejected, Rejected, Rejected, Unchecked, Unchecked]
//!  |<-        processed_len             ->|
//!              |<-     deleted_cnt      ->|
//!  |<-                  original_len                           ->|
//! ```
//!
//! `Backshift` holds the three counters. Recording a decision moves a kept
//! element down into the first rejected slot; finishing moves whatever is
//! still unchecked down over the rejected part and cuts the vector to its new
//! length.

use vstd::prelude::*;
use crate::laws::{lemma_always_kept, lemma_always_rejected, lemma_record_grows, lemma_untouched};
use crate::model::{
    compacting,
    lemma_compacting_close,
    lemma_compacting_next,
    lemma_compacting_start,
    lemma_compacting_step,
    retained,
    swapped,
};
use crate::RetainMut;

verus! {

/// `<[E]>::swap`, which `Vec` has through its slice: exchanges the elements
/// at the positions `a` and `b`, which may be equal, and touches nothing
/// else. Out of bounds it panics, so both must be in bounds.
pub assume_specification<E>[ <[E]>::swap ](slice: &mut [E], a: usize, b: usize)
    requires
        a < old(slice)@.len(),
        b < old(slice)@.len(),
    ensures
        final(slice)@ == old(slice)@.update(a as int, old(slice)@[b as int]).update(
            b as int,
            old(slice)@[a as int],
        ),
;

/// The counters of one pass over a vector.
///
/// Of the `original_len` elements the first `processed_len` have been
/// decided, and `deleted_cnt` of those were rejected. The counters always
/// satisfy `deleted_cnt <= processed_len <= original_len`.
pub struct Backshift {
    processed_len: usize,
    deleted_cnt: usize,
    original_len: usize,
}

impl Backshift {
    #[verifier::type_invariant]
    spec fn ordered(&self) -> bool {
        self.deleted_cnt <= self.processed_len <= self.original_len
    }

    /// The number of elements decided so far.
    pub closed spec fn processed(&self) -> nat {
        self.processed_len as nat
    }

    /// The number of elements rejected so far.
    pub closed spec fn deleted(&self) -> nat {
        self.deleted_cnt as nat
    }

    /// The length of the vector when the pass began.
    pub closed spec fn original(&self) -> nat {
        self.original_len as nat
    }

    /// The counters of a pass that is about to begin on a vector of
    /// `original_len` elements.
    pub fn new(original_len: usize) -> (pass: Self)
        ensures
            pass.processed() == 0,
            pass.deleted() == 0,
            pass.original() == original_len,
    {
        Backshift { processed_len: 0, deleted_cnt: 0, original_len }
    }

    /// The number of elements decided so far, which is also the index of the
    /// next element to visit.
    pub fn processed_len(&self) -> (n: usize)
        ensures
            n == self.processed(),
            self.deleted() <= self.processed() <= self.original(),
    {
        proof {
            use_type_invariant(self);
        }
        self.processed_len
    }

    /// The number of elements rejected so far.
    pub fn deleted_cnt(&self) -> (n: usize)
        ensures
            n == self.deleted(),
            self.deleted() <= self.processed() <= self.original(),
    {
        proof {
            use_type_invariant(self);
        }
        self.deleted_cnt
    }

    /// The length of the vector when the pass began.
    pub fn original_len(&self) -> (n: usize)
        ensures
            n == self.original(),
            self.deleted() <= self.processed() <= self.original(),
    {
        proof {
            use_type_invariant(self);
        }
        self.original_len
    }

    /// Records the decision on the next element, which the predicate has
    /// just visited.
    ///
    /// A kept element changes places with the first rejected one, if there
    /// is any, and so joins the kept part. A rejected element stays where it
    /// is.
    pub fn record<T>(&mut self, v: &mut Vec<T>, keep: bool)
        requires
            old(self).processed() < old(self).original(),
            old(v).len() == old(self).original(),
        ensures
            final(self).original() == old(self).original(),
            final(self).processed() == old(self).processed() + 1,
            final(self).deleted() == old(self).deleted() + if keep {
                0nat
            } else {
                1nat
            },
            old(self).deleted() <= old(self).processed(),
            final(v)@ == if keep {
                swapped(
                    old(v)@,
                    old(self).processed() - old(self).deleted(),
                    old(self).processed() as int,
                )
            } else {
                old(v)@
            },
    {
        proof {
            use_type_invariant(&*self);
        }
        if keep {
            if self.deleted_cnt > 0 {
                v.swap(self.processed_len - self.deleted_cnt, self.processed_len);
            }
            self.processed_len += 1;
        } else {
            self.processed_len += 1;
            self.deleted_cnt += 1;
        }
    }

    /// Closes the gap and restores the length.
    ///
    /// The unchecked elements move down over the rejected ones, and the
    /// vector is cut to `original_len - deleted_cnt`: it then holds the kept
    /// part followed by the unchecked part. After a pass that has visited
    /// everything, that is the kept part alone. What it is after a pass that
    /// was cut short, in terms of the vector before the pass, is stated by
    /// `model::lemma_compacting_close`.
    pub fn finish<T>(&self, v: &mut Vec<T>)
        requires
            old(v).len() == self.original(),
        ensures
            self.deleted() <= self.processed() <= self.original(),
            final(v)@ == old(v)@.subrange(0, self.processed() - self.deleted()) + old(v)@.subrange(
                self.processed() as int,
                self.original() as int,
            ),
    {
        proof {
            use_type_invariant(self);
        }
        if self.deleted_cnt > 0 {
            let mut i: usize = self.processed_len;
            while i < self.original_len
                invariant
                    0 < self.deleted_cnt <= self.processed_len <= i <= self.original_len,
                    v.len() == self.original_len,
                    forall|k: int|
                        0 <= k < self.processed_len - self.deleted_cnt ==> v@[k] == old(v)@[k],
                    forall|k: int|
                        self.processed_len <= k < i ==> v@[k - self.deleted_cnt] == old(v)@[k],
                    forall|k: int| i <= k < self.original_len ==> v@[k] == old(v)@[k],
                decreases self.original_len - i,
            {
                v.swap(i - self.deleted_cnt, i);
                i += 1;
            }
        }
        v.truncate(self.original_len - self.deleted_cnt);
    }
}

impl<T> RetainMut<T> for Vec<T> {
    /// Rejected elements gather between the kept and the unchecked ones and
    /// are dropped together when the pass is over.
    ///
    /// If `f` panics, the pass stops where it is. No element has been
    /// dropped or lost, but the vector is not restored: it holds the kept
    /// elements, then the rejected ones, then the unchecked ones. A caller
    /// that needs the vector restored on unwinding drives the pass itself,
    /// with a guard that calls `Backshift::finish` when it is dropped.
    fn retain_mut<F>(&mut self, mut f: F) where F: FnMut(&mut T) -> bool {
        let mut pass = Backshift::new(self.len());
        let ghost pred = f;
        let ghost start = self@;
        let ghost mut seen = Seq::<T>::empty();
        let ghost mut keep = Seq::<bool>::empty();
        proof {
            lemma_compacting_start(start);
            assert(Seq::<&mut T>::empty().len() == 0);
        }
        while pass.processed_len() < pass.original_len()
            invariant
                f == pred,
                forall|r: &mut T| start.contains(*r) ==> #[trigger] call_requires(pred, (r,)),
                pass.original() == start.len(),
                pass.processed() == seen.len(),
                pass.deleted() == seen.len() - retained(seen, keep).len(),
                compacting(self@, start, seen, keep),
                exists|visits: Seq<&mut T>|
                    {
                        &&& #[trigger] visits.len() == seen.len()
                        &&& forall|j: int|
                            #![trigger visits[j]]
                            #![trigger seen[j]]
                            #![trigger keep[j]]
                            0 <= j < seen.len() ==> {
                                &&& *visits[j] == start[j]
                                &&& *final(visits[j]) == seen[j]
                                &&& call_ensures(pred, (visits[j],), keep[j])
                            }
                    },
            decreases pass.original() - pass.processed(),
        {
            let next: usize = pass.processed_len();
            let ghost now = self@;
            proof {
                lemma_compacting_next(now, start, seen, keep);
            }
            let kept = f(&mut self[next]);
            let ghost item = self@[next as int];
            proof {
                lemma_record_grows(pred, start, seen, keep, item, kept);
                lemma_compacting_step(now, start, seen, keep, item, kept);
            }
            pass.record(self, kept);
            proof {
                seen = seen.push(item);
                keep = keep.push(kept);
            }
        }
        proof {
            lemma_compacting_close(self@, start, seen, keep);
        }
        pass.finish(self);
        proof {
            if forall|r: &mut T, k: bool| call_ensures(pred, (r,), k) ==> k {
                lemma_always_kept(pred, start, seen, keep);
            }
            if forall|r: &mut T, k: bool| call_ensures(pred, (r,), k) ==> k && *final(r) == *r {
                lemma_untouched(pred, start, seen, keep);
            }
            if forall|r: &mut T, k: bool| call_ensures(pred, (r,), k) ==> !k {
                lemma_always_rejected(pred, start, seen, keep);
            }
        }
    }
}

} // verus!
