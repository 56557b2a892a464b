//! `retain_mut` for `Vec` and `VecDeque`: `retain` with a predicate that gets
//! a mutable reference to each element.
//!
//! The predicate may change an element before it decides whether the element
//! stays. Elements are visited once each, front to back, and the survivors
//! keep their order.
//!
//! # Calling it
//!
//! `Vec` and `VecDeque` have inherent methods of the same name, and a method
//! call `v.retain_mut(f)` picks those. The methods of this crate are reached
//! through the trait:
//!
//! ```
//! use retain_mut::RetainMut;
//!
//! let mut vec = vec![1, 2, 3, 4];
//! RetainMut::retain_mut(&mut vec, |x: &mut i32| {
//!     *x *= 3;
//!     *x % 2 == 0
//! });
//! assert_eq!(vec, [6, 12]);
//! ```
//!
//! # Layout
//!
//! - [`RetainMut`] is the trait, with the contract of `retain_mut`.
//! - [`model`] says what a pass leaves behind, over plain sequences.
//! - [`laws`] holds what follows for predicates that always keep, always
//!   reject, or change nothing.
//! - [`vec`] and [`deque`] implement the trait for the two containers.
//!   [`vec::Backshift`] holds the counters of a pass over a vector, for
//!   callers that drive a pass themselves.

use vstd::prelude::*;

pub mod deque;
pub mod laws;
pub mod model;
pub mod vec;

use crate::model::retained;

verus! {

/// Containers that can retain elements in place under a predicate with
/// mutable access.
pub trait RetainMut<T>: View<V = Seq<T>> {
    /// Retains only the elements for which `f` returns `true`.
    ///
    /// Every element is handed to `f` once, front to back, and `f` may change
    /// it. The container ends up holding the elements that `f` kept, as `f`
    /// left them, in the order they had.
    ///
    /// `f` must accept every element of the container.
    ///
    /// The first clause speaks of the record of the pass. For each position
    /// `i` of the container as it was, `visits[i]` is the borrow of that
    /// element that was handed to `f`, `after[i]` is the value that `f` left
    /// behind it, and `keep[i]` is what `f` answered. The container then
    /// holds `retained(after, keep)`. The clauses after it say what this
    /// comes to for a predicate that never rejects, for one that also changes
    /// nothing, for one that never keeps, and for an empty container.
    fn retain_mut<F>(&mut self, f: F) where F: FnMut(&mut T) -> bool
        requires
            forall|r: &mut T| old(self)@.contains(*r) ==> #[trigger] call_requires(f, (r,)),
        ensures
            exists|visits: Seq<&mut T>, after: Seq<T>, keep: Seq<bool>|
                #![trigger visits.len(), retained(after, keep)]
                {
                    &&& visits.len() == old(self)@.len()
                    &&& after.len() == old(self)@.len()
                    &&& keep.len() == old(self)@.len()
                    &&& forall|i: int|
                        #![trigger visits[i]]
                        #![trigger after[i]]
                        #![trigger keep[i]]
                        0 <= i < old(self)@.len() ==> {
                            &&& *visits[i] == old(self)@[i]
                            &&& *final(visits[i]) == after[i]
                            &&& call_ensures(f, (visits[i],), keep[i])
                        }
                    &&& final(self)@ == retained(after, keep)
                },
            final(self)@.len() <= old(self)@.len(),
            (forall|r: &mut T, k: bool| call_ensures(f, (r,), k) ==> k) ==> final(self)@.len()
                == old(self)@.len(),
            (forall|r: &mut T, k: bool| call_ensures(f, (r,), k) ==> k && *final(r) == *r)
                ==> final(self)@ == old(self)@,
            (forall|r: &mut T, k: bool| call_ensures(f, (r,), k) ==> !k) ==> final(self)@.len()
                == 0,
            old(self)@.len() == 0 ==> final(self)@.len() == 0,
    ;
}

} // verus!
