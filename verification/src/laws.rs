//! What a retaining pass does for predicates of a particular kind.
//!
//! The laws speak of a predicate `f`, a container `before` the pass, and the
//! record of the pass: `after[i]` is the value that the visit of `before[i]`
//! left behind and `keep[i]` is what `f` answered on that visit. That these
//! belong to `f` is witnessed by `visits`, where `visits[i]` is the borrow
//! that was handed to `f`. The result of the pass is `retained(after, keep)`.

use vstd::prelude::*;
use crate::model::{lemma_retained_all, lemma_retained_none, retained};

verus! {

/// A record grows by one visit at a time: if `after` and `keep` record the
/// visits of the first elements of `before`, and `f` has now turned the next
/// element into `item` and answered `flag`, then `after.push(item)` and
/// `keep.push(flag)` record the visits of one element more.
pub proof fn lemma_record_grows<T, F: FnMut(&mut T) -> bool>(
    f: F,
    before: Seq<T>,
    after: Seq<T>,
    keep: Seq<bool>,
    item: T,
    flag: bool,
)
    requires
        after.len() < before.len(),
        keep.len() == after.len(),
        exists|visits: Seq<&mut T>|
            {
                &&& #[trigger] visits.len() == after.len()
                &&& forall|i: int|
                    #![trigger visits[i]]
                    #![trigger after[i]]
                    #![trigger keep[i]]
                    0 <= i < after.len() ==> {
                        &&& *visits[i] == before[i]
                        &&& *final(visits[i]) == after[i]
                        &&& call_ensures(f, (visits[i],), keep[i])
                    }
            },
        exists|r: &mut T|
            *r == before[after.len() as int] && *final(r) == item && #[trigger] call_ensures(
                f,
                (r,),
                flag,
            ),
    ensures
        exists|visits: Seq<&mut T>|
            {
                &&& #[trigger] visits.len() == after.push(item).len()
                &&& forall|i: int|
                    #![trigger visits[i]]
                    #![trigger after.push(item)[i]]
                    #![trigger keep.push(flag)[i]]
                    0 <= i < after.push(item).len() ==> {
                        &&& *visits[i] == before[i]
                        &&& *final(visits[i]) == after.push(item)[i]
                        &&& call_ensures(f, (visits[i],), keep.push(flag)[i])
                    }
            },
{
    let so_far = choose|visits: Seq<&mut T>|
        {
            &&& #[trigger] visits.len() == after.len()
            &&& forall|i: int|
                #![trigger visits[i]]
                #![trigger after[i]]
                #![trigger keep[i]]
                0 <= i < after.len() ==> {
                    &&& *visits[i] == before[i]
                    &&& *final(visits[i]) == after[i]
                    &&& call_ensures(f, (visits[i],), keep[i])
                }
        };
    let next = choose|r: &mut T|
        *r == before[after.len() as int] && *final(r) == item && #[trigger] call_ensures(
            f,
            (r,),
            flag,
        );
    assert(so_far.push(next).len() == after.push(item).len());
}

/// Full retention: a predicate that never rejects loses no element. The
/// result has the length of the input and holds every element, in order, as
/// its visit left it.
pub proof fn lemma_always_kept<T, F: FnMut(&mut T) -> bool>(
    f: F,
    before: Seq<T>,
    after: Seq<T>,
    keep: Seq<bool>,
)
    requires
        after.len() == before.len(),
        keep.len() == before.len(),
        exists|visits: Seq<&mut T>|
            {
                &&& #[trigger] visits.len() == before.len()
                &&& forall|i: int|
                    #![trigger visits[i]]
                    #![trigger after[i]]
                    #![trigger keep[i]]
                    0 <= i < before.len() ==> {
                        &&& *visits[i] == before[i]
                        &&& *final(visits[i]) == after[i]
                        &&& call_ensures(f, (visits[i],), keep[i])
                    }
            },
        forall|r: &mut T, k: bool| call_ensures(f, (r,), k) ==> k,
    ensures
        retained(after, keep) == after,
        retained(after, keep).len() == before.len(),
{
    lemma_retained_all(after, keep);
}

/// Full retention with a predicate that changes nothing: the container is
/// after the pass what it was before.
pub proof fn lemma_untouched<T, F: FnMut(&mut T) -> bool>(
    f: F,
    before: Seq<T>,
    after: Seq<T>,
    keep: Seq<bool>,
)
    requires
        after.len() == before.len(),
        keep.len() == before.len(),
        exists|visits: Seq<&mut T>|
            {
                &&& #[trigger] visits.len() == before.len()
                &&& forall|i: int|
                    #![trigger visits[i]]
                    #![trigger after[i]]
                    #![trigger keep[i]]
                    0 <= i < before.len() ==> {
                        &&& *visits[i] == before[i]
                        &&& *final(visits[i]) == after[i]
                        &&& call_ensures(f, (visits[i],), keep[i])
                    }
            },
        forall|r: &mut T, k: bool| call_ensures(f, (r,), k) ==> k && *final(r) == *r,
    ensures
        retained(after, keep) == before,
{
    lemma_always_kept(f, before, after, keep);
}

/// Full rejection: a predicate that never keeps leaves the container empty.
pub proof fn lemma_always_rejected<T, F: FnMut(&mut T) -> bool>(
    f: F,
    before: Seq<T>,
    after: Seq<T>,
    keep: Seq<bool>,
)
    requires
        after.len() == before.len(),
        keep.len() == before.len(),
        exists|visits: Seq<&mut T>|
            {
                &&& #[trigger] visits.len() == before.len()
                &&& forall|i: int|
                    #![trigger visits[i]]
                    #![trigger after[i]]
                    #![trigger keep[i]]
                    0 <= i < before.len() ==> {
                        &&& *visits[i] == before[i]
                        &&& *final(visits[i]) == after[i]
                        &&& call_ensures(f, (visits[i],), keep[i])
                    }
            },
        forall|r: &mut T, k: bool| call_ensures(f, (r,), k) ==> !k,
    ensures
        retained(after, keep) == Seq::<T>::empty(),
{
    lemma_retained_none(after, keep);
}

/// Idempotence under the identity predicate: a second pass with a predicate
/// that keeps everything and changes nothing gives what the first pass gave.
/// `after` and `keep` record the pass over `before`; `after_again` and
/// `keep_again` record the pass over the result of the first.
pub proof fn lemma_identity_twice<T, F: FnMut(&mut T) -> bool>(
    f: F,
    before: Seq<T>,
    after: Seq<T>,
    keep: Seq<bool>,
    after_again: Seq<T>,
    keep_again: Seq<bool>,
)
    requires
        after.len() == before.len(),
        keep.len() == before.len(),
        exists|visits: Seq<&mut T>|
            {
                &&& #[trigger] visits.len() == before.len()
                &&& forall|i: int|
                    #![trigger visits[i]]
                    #![trigger after[i]]
                    #![trigger keep[i]]
                    0 <= i < before.len() ==> {
                        &&& *visits[i] == before[i]
                        &&& *final(visits[i]) == after[i]
                        &&& call_ensures(f, (visits[i],), keep[i])
                    }
            },
        after_again.len() == retained(after, keep).len(),
        keep_again.len() == retained(after, keep).len(),
        exists|visits: Seq<&mut T>|
            {
                &&& #[trigger] visits.len() == retained(after, keep).len()
                &&& forall|i: int|
                    #![trigger visits[i]]
                    #![trigger after_again[i]]
                    #![trigger keep_again[i]]
                    0 <= i < retained(after, keep).len() ==> {
                        &&& *visits[i] == retained(after, keep)[i]
                        &&& *final(visits[i]) == after_again[i]
                        &&& call_ensures(f, (visits[i],), keep_again[i])
                    }
            },
        forall|r: &mut T, k: bool| call_ensures(f, (r,), k) ==> k && *final(r) == *r,
    ensures
        retained(after_again, keep_again) == retained(after, keep),
        retained(after_again, keep_again) == before,
{
    lemma_untouched(f, before, after, keep);
    lemma_untouched(f, retained(after, keep), after_again, keep_again);
}

} // verus!
