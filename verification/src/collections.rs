//! The `Extrema` capability, and the collections that have it.

use crate::bounds::{drawn_from, is_extrema};
use crate::scan::extrema_of;
use vstd::laws_cmp::obeys_cmp;
use vstd::prelude::*;

verus! {

/// A collection whose minimum and maximum can be found in a single pass.
///
/// Called on an owned collection, `extrema` consumes it and returns two of
/// its elements; called on a borrow, it returns references into the
/// collection.
pub trait Extrema {
    /// The type of the collection's elements.
    type Item: Ord;

    /// The elements, in the order in which they are traversed.
    spec fn elements(self) -> Seq<Self::Item>;

    /// Finds, if they exist, the minimum and maximum elements in a single
    /// pass. A collection of fewer than two elements has none.
    fn extrema(self) -> (r: Option<(Self::Item, Self::Item)>)
        ensures
            drawn_from(self.elements(), r),
            obeys_cmp::<Self::Item>() ==> is_extrema(self.elements(), r),
    ;
}

impl<T: Ord> Extrema for Vec<T> {
    type Item = T;

    open spec fn elements(self) -> Seq<T> {
        self@
    }

    fn extrema(self) -> (r: Option<(T, T)>) {
        extrema_of(self.into_iter())
    }
}

impl<'a, T: Ord> Extrema for &'a Vec<T> {
    type Item = &'a T;

    open spec fn elements(self) -> Seq<&'a T> {
        self@.as_ref()
    }

    fn extrema(self) -> (r: Option<(&'a T, &'a T)>) {
        extrema_of(self.iter())
    }
}

impl<'a, T: Ord> Extrema for &'a [T] {
    type Item = &'a T;

    open spec fn elements(self) -> Seq<&'a T> {
        self@.as_ref()
    }

    fn extrema(self) -> (r: Option<(&'a T, &'a T)>) {
        extrema_of(self.iter())
    }
}

} // verus!
