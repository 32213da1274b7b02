//! What holds of every reduction, and what holds of it under an order.

use crate::order::{
    exceeds, exceeds_is_strict_order, exceeds_is_weak_order, precedes, precedes_is_strict_order,
    precedes_is_weak_order,
};
use crate::reduce::{
    lemma_max_reduced_is_reduce, lemma_min_reduced_is_reduce, max_reduced, min_reduced,
    reduce_max, reduce_min,
};
use crate::select::{select_max, select_min};
use vstd::prelude::*;
use vstd::std_specs::cmp::PartialOrdSpec;

verus! {

/// The empty sequence has neither a maximum nor a minimum.
pub proof fn lemma_reduce_empty<T: PartialOrd>(best: Option<T>)
    ensures
        reduce_max(Seq::<T>::empty()) is None,
        reduce_min(Seq::<T>::empty()) is None,
        max_reduced(Seq::<T>::empty(), best) ==> best is None,
        min_reduced(Seq::<T>::empty(), best) ==> best is None,
{
}

/// One more item at the end of a sequence is set against the maximum or
/// minimum so far, or becomes it where there was none.
pub proof fn lemma_reduce_push<T: PartialOrd>(items: Seq<T>, next: T)
    ensures
        reduce_max(items.push(next)) == Some(
            match reduce_max(items) {
                None => next,
                Some(best) => select_max(best, next),
            },
        ),
        reduce_min(items.push(next)) == Some(
            match reduce_min(items) {
                None => next,
                Some(best) => select_min(best, next),
            },
        ),
{
    assert(items.push(next).drop_last() == items);
    assert(items.push(next).last() == next);
}

/// A sequence of one item reduces to that item.
pub proof fn lemma_reduce_single<T: PartialOrd>(only: T)
    ensures
        reduce_max(seq![only]) == Some(only),
        reduce_min(seq![only]) == Some(only),
{
    lemma_reduce_push(Seq::empty(), only);
    assert(Seq::<T>::empty().push(only) == seq![only]);
}

/// Reducing a sequence of two items is selecting between them.
pub proof fn lemma_reduce_pair<T: PartialOrd>(a: T, b: T)
    ensures
        reduce_max(seq![a, b]) == Some(select_max(a, b)),
        reduce_min(seq![a, b]) == Some(select_min(a, b)),
{
    lemma_reduce_single(a);
    lemma_reduce_push(seq![a], b);
    assert(seq![a].push(b) == seq![a, b]);
}

/// A reduction returns nothing for the empty sequence only, and otherwise
/// one of the items.
pub proof fn lemma_reduce_is_item<T: PartialOrd>(items: Seq<T>)
    ensures
        reduce_max(items) is None <==> items.len() == 0,
        reduce_min(items) is None <==> items.len() == 0,
        reduce_max(items) matches Some(best) ==> items.contains(best),
        reduce_min(items) matches Some(best) ==> items.contains(best),
    decreases items.len(),
{
    if items.len() > 0 {
        let front = items.drop_last();
        lemma_reduce_is_item(front);
        assert(items.last() == items[items.len() - 1]);
        if reduce_max(front) is Some {
            let best = reduce_max(front)->0;
            let at = choose|i: int| 0 <= i < front.len() && front[i] == best;
            assert(items[at] == best);
        }
        if reduce_min(front) is Some {
            let best = reduce_min(front)->0;
            let at = choose|i: int| 0 <= i < front.len() && front[i] == best;
            assert(items[at] == best);
        }
    }
}

/// A reduction can be repeated: where the comparison of `T` has a
/// specification, two passes over the same items, in the same order,
/// return the same item.
pub proof fn lemma_reduced_repeatable<T: PartialOrd>(
    items: Seq<T>,
    first: Option<T>,
    second: Option<T>,
)
    requires
        T::obeys_partial_cmp_spec(),
        items.len() > 0,
    ensures
        max_reduced(items, first) && max_reduced(items, second) ==> first is Some && second
            == first,
        min_reduced(items, first) && min_reduced(items, second) ==> first is Some && second
            == first,
{
    if max_reduced(items, first) && max_reduced(items, second) {
        lemma_max_reduced_is_reduce(items, first);
        lemma_max_reduced_is_reduce(items, second);
    }
    if min_reduced(items, first) && min_reduced(items, second) {
        lemma_min_reduced_is_reduce(items, first);
        lemma_min_reduced_is_reduce(items, second);
    }
    lemma_reduce_is_item(items);
}

/// Reducing what a reduction returned gives it back: a pass over the one
/// item that an earlier pass selected returns that item, for every type.
pub proof fn lemma_reduced_again<T: PartialOrd>(items: Seq<T>, best: Option<T>, again: Option<T>)
    requires
        items.len() > 0,
    ensures
        max_reduced(items, best) && max_reduced(seq![best->0], again) ==> again == best,
        min_reduced(items, best) && min_reduced(seq![best->0], again) ==> again == best,
        reduce_max(seq![reduce_max(items)->0]) == reduce_max(items),
        reduce_min(seq![reduce_min(items)->0]) == reduce_min(items),
{
    lemma_reduce_is_item(items);
    lemma_reduce_single(reduce_max(items)->0);
    lemma_reduce_single(reduce_min(items)->0);
}

/// Under a strict partial order no item is strictly greater than the
/// maximum that the reduction returns: the result is a maximal item.
pub proof fn lemma_reduce_max_is_maximal<T: PartialOrd>(items: Seq<T>)
    requires
        exceeds_is_strict_order::<T>(),
        items.len() > 0,
    ensures
        reduce_max(items) is Some,
        forall|j: int| 0 <= j < items.len() ==> !exceeds(#[trigger] items[j], reduce_max(items)->0),
    decreases items.len(),
{
    let front = items.drop_last();
    let last = items.last();
    lemma_reduce_is_item(items);
    lemma_reduce_is_item(front);
    if front.len() > 0 {
        lemma_reduce_max_is_maximal(front);
        let before = reduce_max(front)->0;
        let best = reduce_max(items)->0;
        assert forall|j: int| 0 <= j < items.len() implies !exceeds(#[trigger] items[j], best) by {
            if j < front.len() {
                assert(items[j] == front[j]);
                assert(!exceeds(front[j], before));
                if best != before {
                    assert(exceeds(last, before));
                    if exceeds(items[j], last) {
                        assert(exceeds(items[j], before));
                    }
                }
            } else {
                assert(items[j] == last);
                assert(!exceeds(last, last));
            }
        }
    }
}

/// Under a strict weak order the reduction returns the earliest item
/// that no item is strictly greater than: it is strictly greater than
/// every item before it. `at` is where that item stands.
pub proof fn lemma_reduce_max_is_earliest<T: PartialOrd>(items: Seq<T>) -> (at: int)
    requires
        exceeds_is_weak_order::<T>(),
        items.len() > 0,
    ensures
        0 <= at < items.len(),
        reduce_max(items) == Some(items[at]),
        forall|j: int| 0 <= j < items.len() ==> !exceeds(#[trigger] items[j], items[at]),
        forall|j: int| 0 <= j < at ==> exceeds(items[at], #[trigger] items[j]),
    decreases items.len(),
{
    let front = items.drop_last();
    let last = items.last();
    if front.len() == 0 {
        assert(!exceeds(last, last));
        0
    } else {
        let before = lemma_reduce_max_is_earliest(front);
        let held = front[before];
        assert(items[before] == held);
        if exceeds(last, held) {
            let at = items.len() - 1;
            assert forall|j: int| 0 <= j < items.len() implies !exceeds(#[trigger] items[j], last) by {
                if j < front.len() {
                    assert(items[j] == front[j]);
                    assert(!exceeds(front[j], held));
                    assert(!exceeds(held, last));
                } else {
                    assert(!exceeds(last, last));
                }
            }
            assert forall|j: int| 0 <= j < at implies exceeds(last, #[trigger] items[j]) by {
                assert(items[j] == front[j]);
                assert(!exceeds(front[j], held));
                if !exceeds(last, front[j]) {
                    assert(!exceeds(last, held));
                }
            }
            at
        } else {
            assert forall|j: int| 0 <= j < items.len() implies !exceeds(#[trigger] items[j], held) by {
                if j < front.len() {
                    assert(items[j] == front[j]);
                }
            }
            assert forall|j: int| 0 <= j < before implies exceeds(held, #[trigger] items[j]) by {
                assert(items[j] == front[j]);
            }
            before
        }
    }
}

/// Under a strict partial order no item is strictly less than the
/// minimum that the reduction returns: the result is a minimal item.
pub proof fn lemma_reduce_min_is_minimal<T: PartialOrd>(items: Seq<T>)
    requires
        precedes_is_strict_order::<T>(),
        items.len() > 0,
    ensures
        reduce_min(items) is Some,
        forall|j: int| 0 <= j < items.len() ==> !precedes(#[trigger] items[j], reduce_min(items)->0),
    decreases items.len(),
{
    let front = items.drop_last();
    let last = items.last();
    lemma_reduce_is_item(items);
    lemma_reduce_is_item(front);
    if front.len() > 0 {
        lemma_reduce_min_is_minimal(front);
        let before = reduce_min(front)->0;
        let best = reduce_min(items)->0;
        assert forall|j: int| 0 <= j < items.len() implies !precedes(#[trigger] items[j], best) by {
            if j < front.len() {
                assert(items[j] == front[j]);
                assert(!precedes(front[j], before));
                if best != before {
                    assert(precedes(last, before));
                    if precedes(items[j], last) {
                        assert(precedes(items[j], before));
                    }
                }
            } else {
                assert(items[j] == last);
                assert(!precedes(last, last));
            }
        }
    }
}

/// Under a strict weak order the reduction returns the earliest item
/// that no item is strictly less than: it is strictly less than
/// every item before it. `at` is where that item stands.
pub proof fn lemma_reduce_min_is_earliest<T: PartialOrd>(items: Seq<T>) -> (at: int)
    requires
        precedes_is_weak_order::<T>(),
        items.len() > 0,
    ensures
        0 <= at < items.len(),
        reduce_min(items) == Some(items[at]),
        forall|j: int| 0 <= j < items.len() ==> !precedes(#[trigger] items[j], items[at]),
        forall|j: int| 0 <= j < at ==> precedes(items[at], #[trigger] items[j]),
    decreases items.len(),
{
    let front = items.drop_last();
    let last = items.last();
    if front.len() == 0 {
        assert(!precedes(last, last));
        0
    } else {
        let before = lemma_reduce_min_is_earliest(front);
        let held = front[before];
        assert(items[before] == held);
        if precedes(last, held) {
            let at = items.len() - 1;
            assert forall|j: int| 0 <= j < items.len() implies !precedes(#[trigger] items[j], last) by {
                if j < front.len() {
                    assert(items[j] == front[j]);
                    assert(!precedes(front[j], held));
                    assert(!precedes(held, last));
                } else {
                    assert(!precedes(last, last));
                }
            }
            assert forall|j: int| 0 <= j < at implies precedes(last, #[trigger] items[j]) by {
                assert(items[j] == front[j]);
                assert(!precedes(front[j], held));
                if !precedes(last, front[j]) {
                    assert(!precedes(last, held));
                }
            }
            at
        } else {
            assert forall|j: int| 0 <= j < items.len() implies !precedes(#[trigger] items[j], held) by {
                if j < front.len() {
                    assert(items[j] == front[j]);
                }
            }
            assert forall|j: int| 0 <= j < before implies precedes(held, #[trigger] items[j]) by {
                assert(items[j] == front[j]);
            }
            before
        }
    }
}

} // verus!
