//! What it means for a pair to be the extrema of a sequence, and how such a
//! pair is kept while the sequence grows.

use crate::order::{
    at_most, lemma_at_most_reflexive, lemma_at_most_transitive, lemma_at_most_unless_preceded,
    precedes,
};
use vstd::laws_cmp::obeys_cmp;
use vstd::prelude::*;

verus! {

/// Every element of `s` lies between `lo` and `hi`, ends included.
pub open spec fn encloses<T: Ord>(lo: T, hi: T, s: Seq<T>) -> bool {
    forall|i: int| 0 <= i < s.len() ==> at_most(lo, #[trigger] s[i]) && at_most(s[i], hi)
}

/// The part of `is_extrema` that does not depend on how `T` compares: `r` is
/// absent exactly when `s` has fewer than two elements, and otherwise holds
/// two elements of `s`.
pub open spec fn drawn_from<T>(s: Seq<T>, r: Option<(T, T)>) -> bool {
    match r {
        None => s.len() < 2,
        Some((lo, hi)) => s.len() >= 2 && s.contains(lo) && s.contains(hi),
    }
}

/// `r` is the pair (minimum, maximum) of `s`: absent when `s` has fewer than
/// two elements; otherwise two elements of `s`, the first at most the second,
/// with every element of `s` between them. Among elements of the same rank
/// any one may stand for the minimum or the maximum.
pub open spec fn is_extrema<T: Ord>(s: Seq<T>, r: Option<(T, T)>) -> bool {
    &&& drawn_from(s, r)
    &&& r matches Some((lo, hi)) ==> at_most(lo, hi) && encloses(lo, hi, s)
}

/// The first two elements, the smaller one first. Equal elements keep their
/// places.
pub open spec fn in_order<T: Ord>(a: T, b: T) -> (T, T) {
    if precedes(b, a) {
        (b, a)
    } else {
        (a, b)
    }
}

/// The bounds after one more element `x`: it takes the place of `lo` if it
/// precedes `lo`, else that of `hi` if `hi` precedes it, and otherwise
/// changes nothing.
pub open spec fn widened<T: Ord>(lo: T, hi: T, x: T) -> (T, T) {
    if precedes(x, lo) {
        (x, hi)
    } else if precedes(hi, x) {
        (lo, x)
    } else {
        (lo, hi)
    }
}

/// Bounds of a sequence bound each of its elements.
pub proof fn lemma_member_is_enclosed<T: Ord>(lo: T, hi: T, s: Seq<T>, x: T)
    requires
        encloses(lo, hi, s),
        s.contains(x),
    ensures
        at_most(lo, x),
        at_most(x, hi),
{
    let i = choose|i: int| 0 <= i < s.len() && s[i] == x;
    assert(at_most(lo, s[i]) && at_most(s[i], hi));
}

/// Whichever of two elements goes first, both are drawn from the sequence
/// that they begin.
pub proof fn lemma_first_two_drawn<T>(a: T, b: T)
    ensures
        drawn_from(seq![a, b], Some((a, b))),
        drawn_from(seq![a, b], Some((b, a))),
{
    let s = seq![a, b];
    assert(s[0] == a && s[1] == b);
}

/// Two elements put in order are the extrema of the sequence that they make
/// up.
pub proof fn lemma_first_two_are_extrema<T: Ord>(a: T, b: T)
    requires
        obeys_cmp::<T>(),
    ensures
        is_extrema(seq![a, b], Some(in_order(a, b))),
{
    lemma_first_two_drawn(a, b);
    lemma_at_most_unless_preceded(a, b);
    lemma_at_most_reflexive(a);
    lemma_at_most_reflexive(b);
}

/// A pair drawn from a sequence is drawn from the sequence with one more
/// element, and so is the pair in which the new element took either place.
pub proof fn lemma_drawn_after_push<T>(s: Seq<T>, lo: T, hi: T, x: T)
    requires
        drawn_from(s, Some((lo, hi))),
    ensures
        drawn_from(s.push(x), Some((lo, hi))),
        drawn_from(s.push(x), Some((x, hi))),
        drawn_from(s.push(x), Some((lo, x))),
{
    let t = s.push(x);
    let i = choose|i: int| 0 <= i < s.len() && s[i] == lo;
    let j = choose|j: int| 0 <= j < s.len() && s[j] == hi;
    assert(t[i] == lo && t[j] == hi && t.last() == x);
}

/// Extrema of a sequence, widened by one more element, are extrema of the
/// sequence with that element appended.
pub proof fn lemma_widened_are_extrema<T: Ord>(s: Seq<T>, lo: T, hi: T, x: T)
    requires
        obeys_cmp::<T>(),
        is_extrema(s, Some((lo, hi))),
    ensures
        is_extrema(s.push(x), Some(widened(lo, hi, x))),
{
    let t = s.push(x);
    let (lower, higher) = widened(lo, hi, x);
    lemma_drawn_after_push(s, lo, hi, x);
    lemma_at_most_unless_preceded(lo, x);
    lemma_at_most_unless_preceded(x, hi);
    lemma_at_most_reflexive(x);
    if precedes(x, lo) {
        lemma_at_most_transitive(x, lo, hi);
    } else if precedes(hi, x) {
        lemma_at_most_transitive(lo, hi, x);
    }
    assert(at_most(lower, lo) && at_most(hi, higher));
    assert(at_most(lower, x) && at_most(x, higher));
    assert forall|i: int| 0 <= i < t.len() implies at_most(lower, #[trigger] t[i]) && at_most(
        t[i],
        higher,
    ) by {
        if i < s.len() {
            assert(t[i] == s[i]);
            lemma_at_most_transitive(lower, lo, s[i]);
            lemma_at_most_transitive(s[i], hi, higher);
        }
    }
}

} // verus!
