//! The single pass that finds both extrema.

use crate::bounds::{
    drawn_from, is_extrema, lemma_drawn_after_push, lemma_first_two_are_extrema,
    lemma_first_two_drawn, lemma_widened_are_extrema,
};
use crate::order::lemma_operators_follow_order;
use vstd::laws_cmp::obeys_cmp;
use vstd::prelude::*;
use vstd::std_specs::iter::IteratorSpec;

verus! {

/// Finds the minimum and the maximum of what `iter` yields, in one traversal
/// and with at most two comparisons per element.
///
/// The result is `None` when `iter` yields fewer than two elements: a single
/// element is not reported as `(x, x)`. Otherwise it is `Some((min, max))`,
/// both taken from the elements yielded. Where the element type is totally
/// ordered, `min` is at most `max` and every element yielded lies between
/// them. Which of several elements of the same rank is returned is left
/// open.
///
/// The iterator must be finite and say so: it follows vstd's iterator laws
/// and carries a termination measure, as the iterators of `Vec`, of slices
/// and of ranges do.
pub fn extrema_of<I: Iterator>(iter: I) -> (r: Option<(I::Item, I::Item)>) where I::Item: Ord
    requires
        iter.obeys_prophetic_iter_laws(),
        iter.decrease() is Some,
    ensures
        drawn_from(iter.remaining(), r),
        obeys_cmp::<I::Item>() ==> is_extrema(iter.remaining(), r),
{
    let mut rest = iter;
    let first = rest.next();
    let second = rest.next();

    // Fewer than two elements have no extremes.
    if first.is_none() || second.is_none() {
        return None;
    }
    let mut min = first.unwrap();
    let mut max = second.unwrap();
    let ghost mut seen: Seq<I::Item> = seq![min, max];

    proof {
        assert(seen + rest.remaining() == iter.remaining());
        lemma_first_two_drawn(min, max);
        if obeys_cmp::<I::Item>() {
            lemma_operators_follow_order::<I::Item>();
            lemma_first_two_are_extrema(min, max);
        }
    }
    if min > max {
        std::mem::swap(&mut min, &mut max);
    }

    loop
        invariant
            rest.obeys_prophetic_iter_laws(),
            rest.decrease() is Some,
            seen + rest.remaining() == iter.remaining(),
            drawn_from(seen, Some((min, max))),
            obeys_cmp::<I::Item>() ==> is_extrema(seen, Some((min, max))),
        ensures
            drawn_from(iter.remaining(), Some((min, max))),
            obeys_cmp::<I::Item>() ==> is_extrema(iter.remaining(), Some((min, max))),
        decreases rest.decrease()->0,
    {
        match rest.next() {
            None => {
                assert(seen == iter.remaining());
                break ;
            },
            Some(x) => {
                proof {
                    lemma_drawn_after_push(seen, min, max, x);
                    if obeys_cmp::<I::Item>() {
                        lemma_operators_follow_order::<I::Item>();
                        lemma_widened_are_extrema(seen, min, max, x);
                    }
                    seen = seen.push(x);
                }
                if x < min {
                    min = x;
                } else if x > max {
                    max = x;
                }
            },
        }
    }
    Some((min, max))
}

} // verus!
