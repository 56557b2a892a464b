//! `retain_mut` for `VecDeque`.

use std::collections::VecDeque;
use vstd::prelude::*;
use crate::laws::{lemma_always_kept, lemma_always_rejected, lemma_record_grows, lemma_untouched};
use crate::model::{
    compacting,
    lemma_compacting_close,
    lemma_compacting_next,
    lemma_compacting_start,
    lemma_compacting_step,
    retained,
    swapped,
};
use crate::RetainMut;

verus! {

/// `VecDeque::swap`: exchanges the elements at the logical positions `i` and
/// `j`, which may be equal, and touches nothing else. Position 0 is the front
/// of the queue. Out of bounds it panics, so both must be in bounds.
#[verifier::external_body]
fn deque_swap<T>(deque: &mut VecDeque<T>, i: usize, j: usize)
    requires
        i < old(deque)@.len(),
        j < old(deque)@.len(),
    ensures
        final(deque)@ == old(deque)@.update(i as int, old(deque)@[j as int]).update(
            j as int,
            old(deque)@[i as int],
        ),
{
    deque.swap(i, j)
}

/// `IndexMut::index_mut` of `VecDeque`, which is `&mut deque[i]`: a mutable
/// reference to the element at the logical position `i`. What is written
/// through it is what the queue holds at `i` afterwards; every other position
/// stays as it is. Out of bounds it panics, so `i` must be in bounds.
#[verifier::external_body]
fn deque_index_mut<T>(deque: &mut VecDeque<T>, i: usize) -> (element: &mut T)
    requires
        i < old(deque)@.len(),
    ensures
        *element == old(deque)@[i as int],
        final(deque)@ == old(deque)@.update(i as int, *final(element)),
{
    &mut deque[i]
}

impl<T> RetainMut<T> for VecDeque<T> {
    /// Works on logical positions throughout, so it does not matter where
    /// the queue wraps around in its storage. A kept element changes places
    /// with the first rejected one; the rejected elements gather behind the
    /// kept ones and are dropped together when the pass is over.
    ///
    /// If `f` panics, the pass stops where it is. No element has been
    /// dropped or lost, but the queue is not restored: it holds all its
    /// elements in an arrangement that is not specified.
    fn retain_mut<F>(&mut self, mut f: F) where F: FnMut(&mut T) -> bool {
        let len: usize = self.len();
        let mut del: usize = 0;
        let mut i: usize = 0;
        let ghost pred = f;
        let ghost start = self@;
        let ghost mut seen = Seq::<T>::empty();
        let ghost mut keep = Seq::<bool>::empty();
        proof {
            lemma_compacting_start(start);
            assert(Seq::<&mut T>::empty().len() == 0);
        }
        while i < len
            invariant
                f == pred,
                forall|r: &mut T| start.contains(*r) ==> #[trigger] call_requires(pred, (r,)),
                len == start.len(),
                i == seen.len(),
                del == seen.len() - retained(seen, keep).len(),
                compacting(self@, start, seen, keep),
                exists|visits: Seq<&mut T>|
                    {
                        &&& #[trigger] visits.len() == seen.len()
                        &&& forall|j: int|
                            #![trigger visits[j]]
                            #![trigger seen[j]]
                            #![trigger keep[j]]
                            0 <= j < seen.len() ==> {
                                &&& *visits[j] == start[j]
                                &&& *final(visits[j]) == seen[j]
                                &&& call_ensures(pred, (visits[j],), keep[j])
                            }
                    },
            decreases len - i,
        {
            let ghost now = self@;
            proof {
                lemma_compacting_next(now, start, seen, keep);
            }
            let kept = f(deque_index_mut(self, i));
            let ghost item = self@[i as int];
            proof {
                lemma_record_grows(pred, start, seen, keep, item, kept);
                lemma_compacting_step(now, start, seen, keep, item, kept);
            }
            if !kept {
                del += 1;
            } else if del > 0 {
                deque_swap(self, i - del, i);
            }
            proof {
                assert(self@ =~= if kept {
                    swapped(now.update(i as int, item), i - del, i as int)
                } else {
                    now.update(i as int, item)
                });
                seen = seen.push(item);
                keep = keep.push(kept);
            }
            i += 1;
        }
        proof {
            lemma_compacting_close(self@, start, seen, keep);
        }
        if del > 0 {
            self.truncate(len - del);
        }
        proof {
            if forall|r: &mut T, k: bool| call_ensures(pred, (r,), k) ==> k {
                lemma_always_kept(pred, start, seen, keep);
            }
            if forall|r: &mut T, k: bool| call_ensures(pred, (r,), k) ==> k && *final(r) == *r {
                lemma_untouched(pred, start, seen, keep);
            }
            if forall|r: &mut T, k: bool| call_ensures(pred, (r,), k) ==> !k {
                lemma_always_rejected(pred, start, seen, keep);
            }
        }
    }
}

} // verus!
