//! How the selections of a composition are grouped, and what holds of
//! its result under an order.

use crate::compose::{compose_max, compose_min, max_composed, min_composed};
use crate::order::{exceeds, exceeds_is_weak_order, precedes, precedes_is_weak_order};
use crate::select::{max_selected, min_selected, select_max, select_min};
use vstd::prelude::*;

verus! {

/// Two values are composed by selecting between them.
pub proof fn lemma_compose_two<T: PartialOrd>(a: T, b: T, chosen: T)
    ensures
        compose_max(seq![a, b]) == select_max(a, b),
        compose_min(seq![a, b]) == select_min(a, b),
        max_composed(seq![a, b], chosen) <==> max_selected(a, b, chosen),
        min_composed(seq![a, b], chosen) <==> min_selected(a, b, chosen),
{
}

/// Three values are composed to the right: the first is set against the
/// selection between the second and the third.
pub proof fn lemma_compose_three<T: PartialOrd>(a: T, b: T, c: T)
    ensures
        compose_max(seq![a, b, c]) == select_max(a, select_max(b, c)),
        compose_min(seq![a, b, c]) == select_min(a, select_min(b, c)),
{
    assert(seq![a, b, c].drop_first() == seq![b, c]);
    lemma_compose_two(b, c, a);
}

/// Four values are composed in two pairs, not one after the other: the
/// selection between the first two is set against the selection between
/// the last two.
pub proof fn lemma_compose_four<T: PartialOrd>(w: T, x: T, y: T, z: T, chosen: T)
    ensures
        compose_max(seq![w, x, y, z]) == select_max(select_max(w, x), select_max(y, z)),
        compose_min(seq![w, x, y, z]) == select_min(select_min(w, x), select_min(y, z)),
        max_composed(seq![w, x, y, z], chosen) <==> exists|left: T, right: T|
            {
                &&& max_selected(w, x, left)
                &&& max_selected(y, z, right)
                &&& #[trigger] max_selected(left, right, chosen)
            },
        min_composed(seq![w, x, y, z], chosen) <==> exists|left: T, right: T|
            {
                &&& min_selected(w, x, left)
                &&& min_selected(y, z, right)
                &&& #[trigger] min_selected(left, right, chosen)
            },
{
}

/// Five or more values, like three, are composed by setting the first
/// against the composition of the rest.
pub proof fn lemma_compose_more<T: PartialOrd>(items: Seq<T>)
    requires
        items.len() == 3 || items.len() >= 5,
    ensures
        compose_max(items) == select_max(items[0], compose_max(items.drop_first())),
        compose_min(items) == select_min(items[0], compose_min(items.drop_first())),
{
}

/// A composition returns one of the values it was given.
pub proof fn lemma_compose_is_item<T: PartialOrd>(items: Seq<T>)
    requires
        items.len() >= 2,
    ensures
        items.contains(compose_max(items)),
        items.contains(compose_min(items)),
    decreases items.len(),
{
    if items.len() == 2 || items.len() == 4 {
        let most = compose_max(items);
        let least = compose_min(items);
        assert(most == items[0] || most == items[1] || most == items[2] || most == items[3]);
        assert(least == items[0] || least == items[1] || least == items[2] || least
            == items[3]);
    } else {
        let rest = items.drop_first();
        lemma_compose_is_item(rest);
        let most = choose|i: int| 0 <= i < rest.len() && rest[i] == compose_max(rest);
        let least = choose|i: int| 0 <= i < rest.len() && rest[i] == compose_min(rest);
        assert(items[most + 1] == compose_max(rest));
        assert(items[least + 1] == compose_min(rest));
        assert(items[0] == items[0]);
    }
}

/// Under a strict weak order no value is strictly greater than the one
/// that the composition returns, however the selections are grouped.
///
/// A strict partial order is not enough: of `a`, `b`, `c` with `c`
/// strictly greater than `a` and `b` incomparable to both, the
/// composition returns `a`.
pub proof fn lemma_compose_max_is_maximum<T: PartialOrd>(items: Seq<T>)
    requires
        exceeds_is_weak_order::<T>(),
        items.len() >= 2,
    ensures
        forall|j: int| 0 <= j < items.len() ==> !exceeds(#[trigger] items[j], compose_max(items)),
    decreases items.len(),
{
    let chosen = compose_max(items);
    if items.len() == 2 {
        assert(!exceeds(items[0], items[0]) && !exceeds(items[1], items[1]));
    } else if items.len() == 4 {
        let left = select_max(items[0], items[1]);
        let right = select_max(items[2], items[3]);
        assert forall|j: int| 0 <= j < items.len() implies !exceeds(#[trigger] items[j], chosen) by {
            assert(!exceeds(items[j], items[j]));
            if j < 2 {
                assert(!exceeds(items[j], left));
                assert(!exceeds(left, chosen));
            } else {
                assert(!exceeds(items[j], right));
                assert(!exceeds(right, chosen));
            }
        }
    } else {
        let rest = items.drop_first();
        let inner = compose_max(rest);
        lemma_compose_max_is_maximum(rest);
        assert forall|j: int| 0 <= j < items.len() implies !exceeds(#[trigger] items[j], chosen) by {
            if j == 0 {
                assert(!exceeds(items[0], items[0]));
            } else {
                assert(items[j] == rest[j - 1]);
                assert(!exceeds(rest[j - 1], inner));
                assert(!exceeds(inner, chosen));
            }
        }
    }
}

/// Under a strict weak order no value is strictly less than the one
/// that the composition returns, however the selections are grouped.
///
/// A strict partial order is not enough: of `a`, `b`, `c` with `c`
/// strictly less than `a` and `b` incomparable to both, the
/// composition returns `a`.
pub proof fn lemma_compose_min_is_minimum<T: PartialOrd>(items: Seq<T>)
    requires
        precedes_is_weak_order::<T>(),
        items.len() >= 2,
    ensures
        forall|j: int| 0 <= j < items.len() ==> !precedes(#[trigger] items[j], compose_min(items)),
    decreases items.len(),
{
    let chosen = compose_min(items);
    if items.len() == 2 {
        assert(!precedes(items[0], items[0]) && !precedes(items[1], items[1]));
    } else if items.len() == 4 {
        let left = select_min(items[0], items[1]);
        let right = select_min(items[2], items[3]);
        assert forall|j: int| 0 <= j < items.len() implies !precedes(#[trigger] items[j], chosen) by {
            assert(!precedes(items[j], items[j]));
            if j < 2 {
                assert(!precedes(items[j], left));
                assert(!precedes(left, chosen));
            } else {
                assert(!precedes(items[j], right));
                assert(!precedes(right, chosen));
            }
        }
    } else {
        let rest = items.drop_first();
        let inner = compose_min(rest);
        lemma_compose_min_is_minimum(rest);
        assert forall|j: int| 0 <= j < items.len() implies !precedes(#[trigger] items[j], chosen) by {
            if j == 0 {
                assert(!precedes(items[0], items[0]));
            } else {
                assert(items[j] == rest[j - 1]);
                assert(!precedes(rest[j - 1], inner));
                assert(!precedes(inner, chosen));
            }
        }
    }
}

} // verus!
