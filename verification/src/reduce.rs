//! Selection over the items of an iterator.

use crate::select::{lemma_selected_is_select, max_selected, min_selected, select_max, select_min};
use vstd::prelude::*;
use vstd::std_specs::cmp::PartialOrdSpec;
use vstd::std_specs::iter::IteratorSpec;

verus! {

/// The maximum of a sequence, taken in order: nothing for the empty
/// sequence, and otherwise the maximum of all items but the last, set
/// against the last item by [`select_max`]. An item displaces the running
/// maximum only where it is strictly greater, so of several candidates the
/// earliest is kept.
pub open spec fn reduce_max<T: PartialOrd>(items: Seq<T>) -> Option<T>
    decreases items.len(),
{
    if items.len() == 0 {
        None
    } else {
        match reduce_max(items.drop_last()) {
            None => Some(items.last()),
            Some(best) => Some(select_max(best, items.last())),
        }
    }
}

/// The minimum of a sequence, taken in order: nothing for the empty
/// sequence, and otherwise the minimum of all items but the last, set
/// against the last item by [`select_min`]. An item displaces the running
/// minimum only where it is strictly less, so of several candidates the
/// earliest is kept.
pub open spec fn reduce_min<T: PartialOrd>(items: Seq<T>) -> Option<T>
    decreases items.len(),
{
    if items.len() == 0 {
        None
    } else {
        match reduce_min(items.drop_last()) {
            None => Some(items.last()),
            Some(best) => Some(select_min(best, items.last())),
        }
    }
}

/// One pass over `items` for their maximum may return `best`: nothing
/// where there are no items, the item where there is one, and otherwise
/// what a selection between `held`, which a pass over all items but the
/// last may return, and the last item may return.
///
/// This holds of every type. Where the comparison of `T` has a
/// specification, the only outcome is [`reduce_max`].
pub open spec fn max_reduced<T: PartialOrd>(items: Seq<T>, best: Option<T>) -> bool
    decreases items.len(),
{
    if items.len() == 0 {
        best is None
    } else if items.len() == 1 {
        best == Some(items[0])
    } else {
        exists|held: T|
            {
                &&& max_reduced(items.drop_last(), Some(held))
                &&& best is Some
                &&& #[trigger] max_selected(held, items.last(), best->0)
            }
    }
}

/// One pass over `items` for their minimum may return `best`: nothing
/// where there are no items, the item where there is one, and otherwise
/// what a selection between `held`, which a pass over all items but the
/// last may return, and the last item may return.
///
/// This holds of every type. Where the comparison of `T` has a
/// specification, the only outcome is [`reduce_min`].
pub open spec fn min_reduced<T: PartialOrd>(items: Seq<T>, best: Option<T>) -> bool
    decreases items.len(),
{
    if items.len() == 0 {
        best is None
    } else if items.len() == 1 {
        best == Some(items[0])
    } else {
        exists|held: T|
            {
                &&& min_reduced(items.drop_last(), Some(held))
                &&& best is Some
                &&& #[trigger] min_selected(held, items.last(), best->0)
            }
    }
}

/// Consumes the iterator in one pass and returns its maximum, or `None`
/// if it yields nothing.
///
/// The first item is the maximum to begin with; each later item replaces
/// it only if strictly greater, so the earliest of several equal or
/// incomparable candidates is returned.
///
/// The iterator has to be one that is known to end, with a measure that
/// each item taken from it decreases: those of `Vec`, of slices and of
/// ranges are.
pub fn partial_max_iter<T: PartialOrd>(mut iter: impl Iterator<Item = T>) -> (best: Option<T>)
    requires
        iter.obeys_prophetic_iter_laws(),
        iter.decrease() is Some,
    ensures
        best is None <==> iter.remaining().len() == 0,
        best matches Some(b) ==> iter.remaining().contains(b),
        max_reduced(iter.remaining(), best),
        T::obeys_partial_cmp_spec() ==> best == reduce_max(iter.remaining()),
{
    let ghost start = iter;
    let mut max = iter.next()?;
    let ghost mut seen = seq![max];
    let ghost mut at = 0int;
    loop
        invariant
            iter.obeys_prophetic_iter_laws(),
            iter.decrease() is Some,
            start.remaining() == seen + iter.remaining(),
            0 <= at < seen.len(),
            seen[at] == max,
            max_reduced(seen, Some(max)),
        ensures
            iter.remaining().len() == 0,
        decreases iter.decrease()->0,
    {
        match iter.next() {
            Some(next) => {
                let ghost held = max;
                let ghost before = seen;
                proof {
                    seen = seen.push(next);
                }
                if next > max {
                    max = next;
                    proof {
                        at = seen.len() - 1;
                    }
                }
                proof {
                    assert(seen.drop_last() == before);
                    assert(max_selected(held, seen.last(), max));
                }
            },
            None => {
                break ;
            },
        }
    }
    proof {
        if T::obeys_partial_cmp_spec() {
            lemma_max_reduced_is_reduce(seen, Some(max));
        }
    }
    Some(max)
}

/// Consumes the iterator in one pass and returns its minimum, or `None`
/// if it yields nothing.
///
/// The first item is the minimum to begin with; each later item replaces
/// it only if strictly less, so the earliest of several equal or
/// incomparable candidates is returned.
///
/// The iterator has to be one that is known to end, with a measure that
/// each item taken from it decreases: those of `Vec`, of slices and of
/// ranges are.
pub fn partial_min_iter<T: PartialOrd>(mut iter: impl Iterator<Item = T>) -> (best: Option<T>)
    requires
        iter.obeys_prophetic_iter_laws(),
        iter.decrease() is Some,
    ensures
        best is None <==> iter.remaining().len() == 0,
        best matches Some(b) ==> iter.remaining().contains(b),
        min_reduced(iter.remaining(), best),
        T::obeys_partial_cmp_spec() ==> best == reduce_min(iter.remaining()),
{
    let ghost start = iter;
    let mut min = iter.next()?;
    let ghost mut seen = seq![min];
    let ghost mut at = 0int;
    loop
        invariant
            iter.obeys_prophetic_iter_laws(),
            iter.decrease() is Some,
            start.remaining() == seen + iter.remaining(),
            0 <= at < seen.len(),
            seen[at] == min,
            min_reduced(seen, Some(min)),
        ensures
            iter.remaining().len() == 0,
        decreases iter.decrease()->0,
    {
        match iter.next() {
            Some(next) => {
                let ghost held = min;
                let ghost before = seen;
                proof {
                    seen = seen.push(next);
                }
                if next < min {
                    min = next;
                    proof {
                        at = seen.len() - 1;
                    }
                }
                proof {
                    assert(seen.drop_last() == before);
                    assert(min_selected(held, seen.last(), min));
                }
            },
            None => {
                break ;
            },
        }
    }
    proof {
        if T::obeys_partial_cmp_spec() {
            lemma_min_reduced_is_reduce(seen, Some(min));
        }
    }
    Some(min)
}

/// Where the comparison of `T` has a specification, a pass for the
/// maximum has one outcome, which [`reduce_max`] names.
pub proof fn lemma_max_reduced_is_reduce<T: PartialOrd>(items: Seq<T>, best: Option<T>)
    requires
        T::obeys_partial_cmp_spec(),
        max_reduced(items, best),
    ensures
        best == reduce_max(items),
    decreases items.len(),
{
    if items.len() == 1 {
        assert(reduce_max(items.drop_last()) is None);
    } else if items.len() >= 2 {
        let held = choose|held: T|
            {
                &&& max_reduced(items.drop_last(), Some(held))
                &&& best is Some
                &&& #[trigger] max_selected(held, items.last(), best->0)
            };
        lemma_max_reduced_is_reduce(items.drop_last(), Some(held));
        lemma_selected_is_select(held, items.last(), best->0);
    }
}

/// Where the comparison of `T` has a specification, a pass for the
/// minimum has one outcome, which [`reduce_min`] names.
pub proof fn lemma_min_reduced_is_reduce<T: PartialOrd>(items: Seq<T>, best: Option<T>)
    requires
        T::obeys_partial_cmp_spec(),
        min_reduced(items, best),
    ensures
        best == reduce_min(items),
    decreases items.len(),
{
    if items.len() == 1 {
        assert(reduce_min(items.drop_last()) is None);
    } else if items.len() >= 2 {
        let held = choose|held: T|
            {
                &&& min_reduced(items.drop_last(), Some(held))
                &&& best is Some
                &&& #[trigger] min_selected(held, items.last(), best->0)
            };
        lemma_min_reduced_is_reduce(items.drop_last(), Some(held));
        lemma_selected_is_select(held, items.last(), best->0);
    }
}

} // verus!
