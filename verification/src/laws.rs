//! Laws that relate one search for extrema to another.

use crate::bounds::{is_extrema, lemma_member_is_enclosed};
use crate::collections::Extrema;
use crate::order::{at_most, lemma_at_most_antisymmetric, same_rank};
use vstd::laws_cmp::obeys_cmp;
use vstd::laws_eq::obeys_concrete_eq;
use vstd::prelude::*;

verus! {

/// Two results agree in value: both are absent, or both are present with
/// minima of the same rank and maxima of the same rank.
pub open spec fn same_extrema<T: Ord>(a: Option<(T, T)>, b: Option<(T, T)>) -> bool {
    match (a, b) {
        (None, None) => true,
        (Some((a_lo, a_hi)), Some((b_lo, b_hi))) => same_rank(a_lo, b_lo) && same_rank(a_hi, b_hi),
        _ => false,
    }
}

/// The result behind the references of a borrowed result.
pub open spec fn pointee<T>(r: Option<(&T, &T)>) -> Option<(T, T)> {
    match r {
        None => None,
        Some((lo, hi)) => Some((*lo, *hi)),
    }
}

/// Permuting a sequence does not change the values of its extrema: the
/// extrema of two sequences with the same elements, in whatever order, agree
/// in value. Which of several elements of the same rank is returned is left
/// open; where equality under the order is identity, the results are the
/// same.
pub proof fn lemma_extrema_of_permutation<T: Ord>(
    s1: Seq<T>,
    r1: Option<(T, T)>,
    s2: Seq<T>,
    r2: Option<(T, T)>,
)
    requires
        obeys_cmp::<T>(),
        s1.to_multiset() == s2.to_multiset(),
        is_extrema(s1, r1),
        is_extrema(s2, r2),
    ensures
        same_extrema(r1, r2),
        obeys_concrete_eq::<T>() ==> r1 == r2,
{
    s1.to_multiset_ensures();
    s2.to_multiset_ensures();
    if let (Some((lo1, hi1)), Some((lo2, hi2))) = (r1, r2) {
        assert(s2.contains(lo1) && s2.contains(hi1)) by {
            assert(s1.to_multiset().count(lo1) > 0);
            assert(s1.to_multiset().count(hi1) > 0);
        }
        assert(s1.contains(lo2) && s1.contains(hi2)) by {
            assert(s2.to_multiset().count(lo2) > 0);
            assert(s2.to_multiset().count(hi2) > 0);
        }
        lemma_member_is_enclosed(lo2, hi2, s2, lo1);
        lemma_member_is_enclosed(lo2, hi2, s2, hi1);
        lemma_member_is_enclosed(lo1, hi1, s1, lo2);
        lemma_member_is_enclosed(lo1, hi1, s1, hi2);
        lemma_at_most_antisymmetric(lo1, lo2);
        lemma_at_most_antisymmetric(hi1, hi2);
    }
}

/// Searching an owned collection and searching a borrow of it give results
/// that agree in value: the references returned for the borrow point to
/// elements of the same rank as the elements returned for the owned
/// collection.
pub proof fn lemma_borrowed_agrees_with_owned<T: Ord>(
    v: Vec<T>,
    owned: Option<(T, T)>,
    borrowed: Option<(&T, &T)>,
)
    requires
        obeys_cmp::<T>(),
        is_extrema(v.elements(), owned),
        is_extrema((&v).elements(), borrowed),
    ensures
        same_extrema(owned, pointee(borrowed)),
        obeys_concrete_eq::<T>() ==> owned == pointee(borrowed),
{
    let s = v.elements();
    let refs = (&v).elements();
    if let Some((lo, hi)) = borrowed {
        let i = choose|i: int| 0 <= i < refs.len() && refs[i] == lo;
        let j = choose|j: int| 0 <= j < refs.len() && refs[j] == hi;
        assert(s[i] == *lo && s[j] == *hi);
        assert forall|k: int| 0 <= k < s.len() implies at_most(*lo, #[trigger] s[k]) && at_most(
            s[k],
            *hi,
        ) by {
            assert(at_most(lo, refs[k]) && at_most(refs[k], hi));
        }
    }
    assert(is_extrema(s, pointee(borrowed)));
    lemma_extrema_of_permutation(s, owned, s, pointee(borrowed));
}

} // verus!
