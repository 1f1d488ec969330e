//! The total order of an element type, as contracts speak of it.
//!
//! Everything here is stated over `Ord::cmp` as vstd models it (`cmp_spec`),
//! and holds for any `T` with `obeys_cmp::<T>()`: the integer types,
//! references, tuples and options of such types.

use std::cmp::Ordering;
use vstd::laws_cmp::{
    obeys_cmp, obeys_cmp_ord, obeys_cmp_partial_ord, obeys_partial_cmp_spec_properties,
};
use vstd::laws_eq::{obeys_concrete_eq, obeys_eq_spec_properties};
use vstd::prelude::*;
use vstd::std_specs::cmp::{OrdSpec, PartialOrdSpec};

verus! {

/// `a` does not come after `b`.
pub open spec fn at_most<T: Ord>(a: T, b: T) -> bool {
    a.cmp_spec(&b) != Ordering::Greater
}

/// `a` comes strictly before `b`.
pub open spec fn precedes<T: Ord>(a: T, b: T) -> bool {
    a.cmp_spec(&b) == Ordering::Less
}

/// `a` and `b` compare as equal. They need not be the same value.
pub open spec fn same_rank<T: Ord>(a: T, b: T) -> bool {
    a.cmp_spec(&b) == Ordering::Equal
}

/// The operators `<` and `>` of executable code decide `precedes`: `a < b`
/// holds exactly when `a` precedes `b`, and `a > b` exactly when `b` precedes
/// `a`.
pub proof fn lemma_operators_follow_order<T: Ord>()
    requires
        obeys_cmp::<T>(),
    ensures
        T::obeys_partial_cmp_spec(),
        forall|a: T, b: T|
            #![trigger a.partial_cmp_spec(&b)]
            {
                &&& a.partial_cmp_spec(&b) == Some(Ordering::Less) <==> precedes(a, b)
                &&& a.partial_cmp_spec(&b) == Some(Ordering::Greater) <==> precedes(b, a)
            },
{
    reveal(obeys_cmp_partial_ord);
    reveal(obeys_cmp_ord);
    reveal(obeys_partial_cmp_spec_properties);
}

/// Of two values, one does not come after the other: `a` is at most `b`
/// exactly when `b` does not strictly precede `a`.
pub proof fn lemma_at_most_unless_preceded<T: Ord>(a: T, b: T)
    requires
        obeys_cmp::<T>(),
    ensures
        at_most(a, b) <==> !precedes(b, a),
{
    reveal(obeys_cmp_ord);
    reveal(obeys_partial_cmp_spec_properties);
}

/// Every value is at most itself.
pub proof fn lemma_at_most_reflexive<T: Ord>(a: T)
    requires
        obeys_cmp::<T>(),
    ensures
        same_rank(a, a),
        at_most(a, a),
{
    reveal(obeys_cmp_ord);
    reveal(obeys_partial_cmp_spec_properties);
}

/// `at_most` is transitive.
pub proof fn lemma_at_most_transitive<T: Ord>(a: T, b: T, c: T)
    requires
        obeys_cmp::<T>(),
        at_most(a, b),
        at_most(b, c),
    ensures
        at_most(a, c),
{
    reveal(obeys_cmp_ord);
    reveal(obeys_partial_cmp_spec_properties);
    reveal(obeys_eq_spec_properties);
}

/// Two values that are at most each other have the same rank; where equality
/// under the order is identity (as for the integers), they are the same
/// value.
pub proof fn lemma_at_most_antisymmetric<T: Ord>(a: T, b: T)
    requires
        obeys_cmp::<T>(),
        at_most(a, b),
        at_most(b, a),
    ensures
        same_rank(a, b),
        obeys_concrete_eq::<T>() ==> a == b,
{
    reveal(obeys_cmp_ord);
    reveal(obeys_partial_cmp_spec_properties);
    reveal(obeys_concrete_eq);
}

} // verus!
