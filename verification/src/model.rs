//! The mathematical model of a retaining pass.
//!
//! A pass over a container visits every element once, front to back. Each
//! visit leaves the element with a (possibly changed) value and yields one
//! decision. The model therefore speaks of two sequences of equal length: the
//! values as the predicate left them, and the decisions it gave.

use vstd::prelude::*;

verus! {

/// The elements of `items` whose flag in `keep` is set, in the order in which
/// they stand in `items`.
pub open spec fn retained<T>(items: Seq<T>, keep: Seq<bool>) -> Seq<T>
    recommends
        keep.len() == items.len(),
    decreases items.len(),
{
    if items.len() == 0 {
        Seq::empty()
    } else if keep.last() {
        retained(items.drop_last(), keep.drop_last()).push(items.last())
    } else {
        retained(items.drop_last(), keep.drop_last())
    }
}

/// The number of flags in `keep` that are set.
pub open spec fn kept_count(keep: Seq<bool>) -> nat
    decreases keep.len(),
{
    if keep.len() == 0 {
        0
    } else if keep.last() {
        kept_count(keep.drop_last()) + 1
    } else {
        kept_count(keep.drop_last())
    }
}

/// `s` with the elements at positions `a` and `b` exchanged.
pub open spec fn swapped<T>(s: Seq<T>, a: int, b: int) -> Seq<T>
    recommends
        0 <= a < s.len(),
        0 <= b < s.len(),
{
    s.update(a, s[b]).update(b, s[a])
}

/// The layout that a compacting pass keeps while it runs.
///
/// `start` is the container before the pass and `now` the container at this
/// moment. The first `seen.len()` elements have been visited: `seen` holds
/// them as the predicate left them and `keep` the decisions. `now` then
/// begins with the survivors, packed, and ends with the unvisited elements,
/// each still at its own index. What lies between is rejected and awaits
/// removal.
pub open spec fn compacting<T>(now: Seq<T>, start: Seq<T>, seen: Seq<T>, keep: Seq<bool>) -> bool {
    &&& now.len() == start.len()
    &&& keep.len() == seen.len()
    &&& seen.len() <= start.len()
    &&& now.subrange(0, retained(seen, keep).len() as int) == retained(seen, keep)
    &&& now.subrange(seen.len() as int, now.len() as int) == start.subrange(
        seen.len() as int,
        start.len() as int,
    )
}

/// A pass keeps as many elements as there are set flags, never more than it
/// was given.
pub proof fn lemma_retained_len<T>(items: Seq<T>, keep: Seq<bool>)
    requires
        keep.len() == items.len(),
    ensures
        retained(items, keep).len() == kept_count(keep),
        retained(items, keep).len() <= items.len(),
    decreases items.len(),
{
    if items.len() > 0 {
        lemma_retained_len(items.drop_last(), keep.drop_last());
    }
}

/// Visiting one more element appends it to the survivors if it is kept and
/// leaves them as they are if it is not.
pub proof fn lemma_retained_push<T>(items: Seq<T>, keep: Seq<bool>, item: T, flag: bool)
    requires
        keep.len() == items.len(),
    ensures
        retained(items.push(item), keep.push(flag)) == if flag {
            retained(items, keep).push(item)
        } else {
            retained(items, keep)
        },
{
    assert(items.push(item).drop_last() =~= items);
    assert(keep.push(flag).drop_last() =~= keep);
}

/// Order preservation: a kept element stands in the result at the position
/// given by the number of kept elements before it. Together with
/// `lemma_retained_len` this fixes every position of the result.
pub proof fn lemma_retained_index<T>(items: Seq<T>, keep: Seq<bool>, i: int)
    requires
        keep.len() == items.len(),
        0 <= i < items.len(),
        keep[i],
    ensures
        kept_count(keep.take(i)) < retained(items, keep).len(),
        retained(items, keep)[kept_count(keep.take(i)) as int] == items[i],
    decreases items.len(),
{
    let last = items.len() - 1;
    lemma_retained_len(items.drop_last(), keep.drop_last());
    if i < last {
        lemma_retained_index(items.drop_last(), keep.drop_last(), i);
        assert(keep.drop_last().take(i) =~= keep.take(i));
    }
}

/// Nothing else is in the result: what stands at position `p` is a kept
/// element, the one with `p` kept elements before it.
pub proof fn lemma_retained_source<T>(items: Seq<T>, keep: Seq<bool>, p: int)
    requires
        keep.len() == items.len(),
        0 <= p < retained(items, keep).len(),
    ensures
        exists|i: int|
            0 <= i < items.len() && #[trigger] keep[i] && kept_count(keep.take(i)) == p
                && retained(items, keep)[p] == items[i],
    decreases items.len(),
{
    let last = items.len() - 1;
    lemma_retained_len(items.drop_last(), keep.drop_last());
    if !keep[last] || p < retained(items.drop_last(), keep.drop_last()).len() {
        lemma_retained_source(items.drop_last(), keep.drop_last(), p);
        let i = choose|i: int|
            0 <= i < last && #[trigger] keep.drop_last()[i] && kept_count(
                keep.drop_last().take(i),
            ) == p && retained(items.drop_last(), keep.drop_last())[p] == items.drop_last()[i];
        assert(keep.drop_last().take(i) =~= keep.take(i));
    }
}

/// Of two kept elements the earlier one also comes earlier in the result.
pub proof fn lemma_kept_count_increases(keep: Seq<bool>, i: int, j: int)
    requires
        0 <= i < j <= keep.len(),
        keep[i],
    ensures
        kept_count(keep.take(i)) < kept_count(keep.take(j)),
    decreases j - i,
{
    assert(keep.take(j).drop_last() =~= keep.take(j - 1));
    if i < j - 1 {
        lemma_kept_count_increases(keep, i, j - 1);
    }
}

/// Full retention: where every flag is set, the result is the whole input.
pub proof fn lemma_retained_all<T>(items: Seq<T>, keep: Seq<bool>)
    requires
        keep.len() == items.len(),
        forall|i: int| 0 <= i < keep.len() ==> keep[i],
    ensures
        retained(items, keep) == items,
    decreases items.len(),
{
    if items.len() > 0 {
        lemma_retained_all(items.drop_last(), keep.drop_last());
    }
}

/// Full rejection: where no flag is set, the result is empty.
pub proof fn lemma_retained_none<T>(items: Seq<T>, keep: Seq<bool>)
    requires
        keep.len() == items.len(),
        forall|i: int| 0 <= i < keep.len() ==> !keep[i],
    ensures
        retained(items, keep) == Seq::<T>::empty(),
    decreases items.len(),
{
    if items.len() > 0 {
        lemma_retained_none(items.drop_last(), keep.drop_last());
    }
}

/// Before the first visit the container itself has the layout of a pass.
pub proof fn lemma_compacting_start<T>(start: Seq<T>)
    ensures
        compacting(start, start, Seq::<T>::empty(), Seq::<bool>::empty()),
{
    assert(start.subrange(0, 0) =~= Seq::<T>::empty());
}

/// The next element to visit is still the one that the container began
/// with, and the survivors so far are no more than the visits so far.
pub proof fn lemma_compacting_next<T>(now: Seq<T>, start: Seq<T>, seen: Seq<T>, keep: Seq<bool>)
    requires
        compacting(now, start, seen, keep),
        seen.len() < start.len(),
    ensures
        now[seen.len() as int] == start[seen.len() as int],
        start.contains(start[seen.len() as int]),
        retained(seen, keep).len() <= seen.len(),
{
    let k = seen.len() as int;
    let n = start.len() as int;
    lemma_retained_len(seen, keep);
    assert(now.subrange(k, n)[0] == start.subrange(k, n)[0]);
}

/// One step of a pass keeps its layout. The predicate has left `item` at the
/// next unvisited position; a rejected element stays where it is, a kept one
/// changes places with the first rejected element, if there is any.
pub proof fn lemma_compacting_step<T>(
    now: Seq<T>,
    start: Seq<T>,
    seen: Seq<T>,
    keep: Seq<bool>,
    item: T,
    flag: bool,
)
    requires
        compacting(now, start, seen, keep),
        seen.len() < start.len(),
    ensures
        compacting(
            if flag {
                swapped(
                    now.update(seen.len() as int, item),
                    retained(seen, keep).len() as int,
                    seen.len() as int,
                )
            } else {
                now.update(seen.len() as int, item)
            },
            start,
            seen.push(item),
            keep.push(flag),
        ),
        retained(seen.push(item), keep.push(flag)).len() == retained(seen, keep).len() + if flag {
            1nat
        } else {
            0nat
        },
{
    let k = seen.len() as int;
    let m = retained(seen, keep).len() as int;
    let n = start.len() as int;
    let visited = now.update(k, item);
    let next = if flag {
        swapped(visited, m, k)
    } else {
        visited
    };
    lemma_retained_len(seen, keep);
    lemma_retained_push(seen, keep, item, flag);
    let kept = retained(seen.push(item), keep.push(flag));
    assert(next.subrange(0, kept.len() as int) =~= kept);
    assert(next.subrange(k + 1, n) =~= start.subrange(k + 1, n)) by {
        let tail = next.subrange(k + 1, n);
        assert forall|j: int| 0 <= j < tail.len() implies #[trigger] tail[j] == start.subrange(
            k + 1,
            n,
        )[j] by {
            assert(now.subrange(k, n)[j + 1] == start.subrange(k, n)[j + 1]);
        }
    }
}

/// Closing the gap: dropping the rejected elements from a container with the
/// layout of a pass leaves the survivors, in order, followed by the elements
/// that were never visited. The result is shorter than the input by the
/// number of rejected elements. A pass that has visited everything thus ends
/// with exactly the survivors.
pub proof fn lemma_compacting_close<T>(now: Seq<T>, start: Seq<T>, seen: Seq<T>, keep: Seq<bool>)
    requires
        compacting(now, start, seen, keep),
    ensures
        retained(seen, keep).len() <= seen.len(),
        now.subrange(0, retained(seen, keep).len() as int) + now.subrange(
            seen.len() as int,
            now.len() as int,
        ) == retained(seen, keep) + start.subrange(seen.len() as int, start.len() as int),
        (retained(seen, keep) + start.subrange(seen.len() as int, start.len() as int)).len()
            == start.len() - (seen.len() - retained(seen, keep).len()),
        seen.len() == start.len() ==> now.subrange(
            0,
            start.len() - (seen.len() - retained(seen, keep).len()),
        ) == retained(seen, keep),
{
    lemma_retained_len(seen, keep);
}

} // verus!
