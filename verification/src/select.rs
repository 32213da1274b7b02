//! Selection between two values.

use crate::order::{exceeds, incomparable, precedes, tied};
use vstd::prelude::*;
use vstd::std_specs::cmp::PartialOrdSpec;

verus! {

/// The greater of two values: `b` where it is strictly greater than `a`,
/// and `a` in every other case, so also where the two are equal or
/// incomparable.
pub open spec fn select_max<T: PartialOrd>(a: T, b: T) -> T {
    if exceeds(b, a) {
        b
    } else {
        a
    }
}

/// The less of two values: `b` where it is strictly less than `a`,
/// and `a` in every other case, so also where the two are equal or
/// incomparable.
pub open spec fn select_min<T: PartialOrd>(a: T, b: T) -> T {
    if precedes(b, a) {
        b
    } else {
        a
    }
}

/// One run of the selection of a maximum between `a` and `b` may return
/// `chosen`: the comparison `b > a` was made, and `chosen` is `b` if it
/// answered yes and `a` if it answered no.
///
/// This holds of every type, also of one whose comparison has no
/// specification and need not answer alike twice. Where it has one, the
/// only outcome is [`select_max`].
pub open spec fn max_selected<T: PartialOrd>(a: T, b: T, chosen: T) -> bool {
    exists|won: bool|
        {
            &&& #[trigger] call_ensures(T::gt, (&b, &a), won)
            &&& chosen == if won {
                b
            } else {
                a
            }
        }
}

/// One run of the selection of a minimum between `a` and `b` may return
/// `chosen`: the comparison `b < a` was made, and `chosen` is `b` if it
/// answered yes and `a` if it answered no.
///
/// This holds of every type. Where the comparison of `T` has a
/// specification, the only outcome is [`select_min`].
pub open spec fn min_selected<T: PartialOrd>(a: T, b: T, chosen: T) -> bool {
    exists|won: bool|
        {
            &&& #[trigger] call_ensures(T::lt, (&b, &a), won)
            &&& chosen == if won {
                b
            } else {
                a
            }
        }
}

/// Returns `right` if it is strictly greater than `left`, and `left`
/// otherwise: ties and incomparable pairs go to the first argument.
pub fn partial_max<T: PartialOrd>(left: T, right: T) -> (chosen: T)
    ensures
        max_selected(left, right, chosen),
        T::obeys_partial_cmp_spec() ==> chosen == select_max(left, right),
{
    if right > left {
        right
    } else {
        left
    }
}

/// Returns `right` if it is strictly less than `left`, and `left`
/// otherwise: ties and incomparable pairs go to the first argument.
pub fn partial_min<T: PartialOrd>(left: T, right: T) -> (chosen: T)
    ensures
        min_selected(left, right, chosen),
        T::obeys_partial_cmp_spec() ==> chosen == select_min(left, right),
{
    if right < left {
        right
    } else {
        left
    }
}

/// Where the comparison of `T` has a specification, a selection has one
/// outcome, which [`select_max`] or [`select_min`] names.
pub proof fn lemma_selected_is_select<T: PartialOrd>(a: T, b: T, chosen: T)
    requires
        T::obeys_partial_cmp_spec(),
    ensures
        max_selected(a, b, chosen) ==> chosen == select_max(a, b),
        min_selected(a, b, chosen) ==> chosen == select_min(a, b),
{
}

/// A selection returns one of its two arguments.
pub proof fn lemma_select_is_argument<T: PartialOrd>(a: T, b: T, chosen: T)
    ensures
        select_max(a, b) == a || select_max(a, b) == b,
        select_min(a, b) == a || select_min(a, b) == b,
        max_selected(a, b, chosen) || min_selected(a, b, chosen) ==> chosen == a || chosen == b,
{
}

/// Where `a` is strictly greater than `b`, the maximum of the two is `a`
/// in whichever order they are given.
///
/// The comparison must not also call `b` strictly greater than `a`: an
/// order that contradicts itself on a pair has no greater value to return.
pub proof fn lemma_select_max_greater<T: PartialOrd>(a: T, b: T)
    requires
        exceeds(a, b),
        !exceeds(b, a),
    ensures
        select_max(a, b) == a,
        select_max(b, a) == a,
{
}

/// Where `a` is strictly less than `b`, the minimum of the two is `a` in
/// whichever order they are given.
///
/// The comparison must not also call `b` strictly less than `a`.
pub proof fn lemma_select_min_less<T: PartialOrd>(a: T, b: T)
    requires
        precedes(a, b),
        !precedes(b, a),
    ensures
        select_min(a, b) == a,
        select_min(b, a) == a,
{
}

/// A value selected against itself is returned, however it compares with
/// itself.
pub proof fn lemma_select_same<T: PartialOrd>(a: T)
    ensures
        select_max(a, a) == a,
        select_min(a, a) == a,
{
}

/// Of two values that compare as equal, both selections return the first.
pub proof fn lemma_select_tied<T: PartialOrd>(a: T, b: T)
    requires
        tied(a, b),
    ensures
        select_max(a, b) == a,
        select_min(a, b) == a,
{
}

/// Of two incomparable values, both selections return the first.
pub proof fn lemma_select_incomparable<T: PartialOrd>(a: T, b: T)
    requires
        incomparable(a, b),
    ensures
        select_max(a, b) == a,
        select_min(a, b) == a,
{
}

} // verus!
