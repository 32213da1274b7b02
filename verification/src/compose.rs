//! Selection among two or more values given at once.

use crate::select::{
    lemma_selected_is_select, max_selected, min_selected, partial_max, partial_min, select_max,
    select_min,
};
use vstd::prelude::*;
use vstd::std_specs::cmp::PartialOrdSpec;

verus! {

/// The maximum of two or more values, as a composition of pairwise
/// selections.
///
/// Two values are selected between directly. Four values are paired off:
/// the first two and the last two are each selected between, and then the
/// two results. For every other count the first value is set against the
/// composition of the rest. Since ties go to the first argument of each
/// selection, the grouping decides which of several equal or incomparable
/// values is returned.
pub open spec fn compose_max<T: PartialOrd>(items: Seq<T>) -> T
    recommends
        items.len() >= 2,
    decreases items.len(),
{
    if items.len() == 4 {
        select_max(select_max(items[0], items[1]), select_max(items[2], items[3]))
    } else if items.len() <= 2 {
        select_max(items[0], items[1])
    } else {
        select_max(items[0], compose_max(items.drop_first()))
    }
}

/// The minimum of two or more values, as a composition of pairwise
/// selections, grouped as in [`compose_max`].
pub open spec fn compose_min<T: PartialOrd>(items: Seq<T>) -> T
    recommends
        items.len() >= 2,
    decreases items.len(),
{
    if items.len() == 4 {
        select_min(select_min(items[0], items[1]), select_min(items[2], items[3]))
    } else if items.len() <= 2 {
        select_min(items[0], items[1])
    } else {
        select_min(items[0], compose_min(items.drop_first()))
    }
}

/// One run of the composition for the maximum of `items` may return
/// `chosen`: the selections are made as [`compose_max`] groups them, each
/// with what one run of it may return.
///
/// This holds of every type. Where the comparison of `T` has a
/// specification, the only outcome is [`compose_max`].
pub open spec fn max_composed<T: PartialOrd>(items: Seq<T>, chosen: T) -> bool
    recommends
        items.len() >= 2,
    decreases items.len(),
{
    if items.len() == 4 {
        exists|left: T, right: T|
            {
                &&& max_selected(items[0], items[1], left)
                &&& max_selected(items[2], items[3], right)
                &&& #[trigger] max_selected(left, right, chosen)
            }
    } else if items.len() <= 2 {
        max_selected(items[0], items[1], chosen)
    } else {
        exists|inner: T|
            {
                &&& max_composed(items.drop_first(), inner)
                &&& #[trigger] max_selected(items[0], inner, chosen)
            }
    }
}

/// One run of the composition for the minimum of `items` may return
/// `chosen`: the selections are made as [`compose_min`] groups them, each
/// with what one run of it may return.
///
/// This holds of every type. Where the comparison of `T` has a
/// specification, the only outcome is [`compose_min`].
pub open spec fn min_composed<T: PartialOrd>(items: Seq<T>, chosen: T) -> bool
    recommends
        items.len() >= 2,
    decreases items.len(),
{
    if items.len() == 4 {
        exists|left: T, right: T|
            {
                &&& min_selected(items[0], items[1], left)
                &&& min_selected(items[2], items[3], right)
                &&& #[trigger] min_selected(left, right, chosen)
            }
    } else if items.len() <= 2 {
        min_selected(items[0], items[1], chosen)
    } else {
        exists|inner: T|
            {
                &&& min_composed(items.drop_first(), inner)
                &&& #[trigger] min_selected(items[0], inner, chosen)
            }
    }
}

/// Returns the maximum of two or more values, selecting pairwise as
/// [`compose_max`] groups them: two values directly, four values in two
/// pairs, and for every other count the first value against the maximum
/// of the rest.
///
/// The values are taken from the end of `items`: the last two or four
/// are selected among first, and each value before them is then set
/// against the result so far.
///
/// Fewer than two values are no input to this function: a caller that is
/// not verified checks the count before the call.
pub fn max_many<T: PartialOrd>(mut items: Vec<T>) -> (chosen: T)
    requires
        items@.len() >= 2,
    ensures
        items@.contains(chosen),
        max_composed(items@, chosen),
        T::obeys_partial_cmp_spec() ==> chosen == compose_max(items@),
{
    let ghost all = items@;
    let paired = items.len() >= 4;
    let fourth = items.pop().unwrap();
    let third = items.pop().unwrap();
    let mut chosen = if paired {
        let second = items.pop().unwrap();
        let first = items.pop().unwrap();
        let left = partial_max(first, second);
        let right = partial_max(third, fourth);
        let both = partial_max(left, right);
        proof {
            assert(max_selected(left, right, both));
        }
        both
    } else {
        partial_max(third, fourth)
    };
    let ghost mut at = choose|i: int| 0 <= i < all.len() && all[i] == chosen;
    proof {
        let end = all.skip(all.len() - end_len(all.len()));
        assert(max_composed(end, chosen));
        assert(items@ == all.take(all.len() - end_len(all.len())));
        assert forall|out: T| max_nested(items@, chosen, out) implies max_composed(all, out) by {
            lemma_max_composed_from_end(all, chosen, out);
        }
    }
    while items.len() > 0
        invariant
            all.len() >= 2,
            items@.is_prefix_of(all),
            0 <= at < all.len(),
            all[at] == chosen,
            forall|out: T| #[trigger] max_nested(items@, chosen, out) ==> max_composed(all, out),
        decreases items@.len(),
    {
        let ghost longer = items@;
        let ghost inner = chosen;
        let next = items.pop().unwrap();
        chosen = partial_max(next, chosen);
        proof {
            if chosen != inner {
                at = longer.len() - 1;
            }
            assert(longer == items@.push(next));
            assert forall|out: T| max_nested(items@, chosen, out) implies max_composed(
                all,
                out,
            ) by {
                lemma_max_nested_push(items@, next, inner, chosen, out);
            }
        }
    }
    proof {
        assert(max_nested(items@, chosen, chosen));
        if T::obeys_partial_cmp_spec() {
            lemma_max_composed_is_compose(all, chosen);
        }
    }
    chosen
}

/// Returns the minimum of two or more values, selecting pairwise as
/// [`compose_min`] groups them: two values directly, four values in two
/// pairs, and for every other count the first value against the minimum
/// of the rest.
///
/// The values are taken from the end of `items`: the last two or four
/// are selected among first, and each value before them is then set
/// against the result so far.
///
/// Fewer than two values are no input to this function: a caller that is
/// not verified checks the count before the call.
pub fn min_many<T: PartialOrd>(mut items: Vec<T>) -> (chosen: T)
    requires
        items@.len() >= 2,
    ensures
        items@.contains(chosen),
        min_composed(items@, chosen),
        T::obeys_partial_cmp_spec() ==> chosen == compose_min(items@),
{
    let ghost all = items@;
    let paired = items.len() >= 4;
    let fourth = items.pop().unwrap();
    let third = items.pop().unwrap();
    let mut chosen = if paired {
        let second = items.pop().unwrap();
        let first = items.pop().unwrap();
        let left = partial_min(first, second);
        let right = partial_min(third, fourth);
        let both = partial_min(left, right);
        proof {
            assert(min_selected(left, right, both));
        }
        both
    } else {
        partial_min(third, fourth)
    };
    let ghost mut at = choose|i: int| 0 <= i < all.len() && all[i] == chosen;
    proof {
        let end = all.skip(all.len() - end_len(all.len()));
        assert(min_composed(end, chosen));
        assert(items@ == all.take(all.len() - end_len(all.len())));
        assert forall|out: T| min_nested(items@, chosen, out) implies min_composed(all, out) by {
            lemma_min_composed_from_end(all, chosen, out);
        }
    }
    while items.len() > 0
        invariant
            all.len() >= 2,
            items@.is_prefix_of(all),
            0 <= at < all.len(),
            all[at] == chosen,
            forall|out: T| #[trigger] min_nested(items@, chosen, out) ==> min_composed(all, out),
        decreases items@.len(),
    {
        let ghost longer = items@;
        let ghost inner = chosen;
        let next = items.pop().unwrap();
        chosen = partial_min(next, chosen);
        proof {
            if chosen != inner {
                at = longer.len() - 1;
            }
            assert(longer == items@.push(next));
            assert forall|out: T| min_nested(items@, chosen, out) implies min_composed(
                all,
                out,
            ) by {
                lemma_min_nested_push(items@, next, inner, chosen, out);
            }
        }
    }
    proof {
        assert(min_nested(items@, chosen, chosen));
        if T::obeys_partial_cmp_spec() {
            lemma_min_composed_is_compose(all, chosen);
        }
    }
    chosen
}

/// Where the comparison of `T` has a specification, a composition for
/// the maximum has one outcome, which [`compose_max`] names.
pub proof fn lemma_max_composed_is_compose<T: PartialOrd>(items: Seq<T>, chosen: T)
    requires
        T::obeys_partial_cmp_spec(),
        items.len() >= 2,
        max_composed(items, chosen),
    ensures
        chosen == compose_max(items),
    decreases items.len(),
{
    if items.len() == 4 {
        let (left, right) = choose|left: T, right: T|
            {
                &&& max_selected(items[0], items[1], left)
                &&& max_selected(items[2], items[3], right)
                &&& #[trigger] max_selected(left, right, chosen)
            };
        lemma_selected_is_select(items[0], items[1], left);
        lemma_selected_is_select(items[2], items[3], right);
        lemma_selected_is_select(left, right, chosen);
    } else if items.len() == 2 {
        lemma_selected_is_select(items[0], items[1], chosen);
    } else {
        let inner = choose|inner: T|
            {
                &&& max_composed(items.drop_first(), inner)
                &&& #[trigger] max_selected(items[0], inner, chosen)
            };
        lemma_max_composed_is_compose(items.drop_first(), inner);
        lemma_selected_is_select(items[0], inner, chosen);
    }
}

/// Where the comparison of `T` has a specification, a composition for
/// the minimum has one outcome, which [`compose_min`] names.
pub proof fn lemma_min_composed_is_compose<T: PartialOrd>(items: Seq<T>, chosen: T)
    requires
        T::obeys_partial_cmp_spec(),
        items.len() >= 2,
        min_composed(items, chosen),
    ensures
        chosen == compose_min(items),
    decreases items.len(),
{
    if items.len() == 4 {
        let (left, right) = choose|left: T, right: T|
            {
                &&& min_selected(items[0], items[1], left)
                &&& min_selected(items[2], items[3], right)
                &&& #[trigger] min_selected(left, right, chosen)
            };
        lemma_selected_is_select(items[0], items[1], left);
        lemma_selected_is_select(items[2], items[3], right);
        lemma_selected_is_select(left, right, chosen);
    } else if items.len() == 2 {
        lemma_selected_is_select(items[0], items[1], chosen);
    } else {
        let inner = choose|inner: T|
            {
                &&& min_composed(items.drop_first(), inner)
                &&& #[trigger] min_selected(items[0], inner, chosen)
            };
        lemma_min_composed_is_compose(items.drop_first(), inner);
        lemma_selected_is_select(items[0], inner, chosen);
    }
}

/// How many values at the end of a composition are selected among first:
/// the last four of four or more, and else the last two.
spec fn end_len(n: nat) -> int {
    if n >= 4 {
        4
    } else {
        2
    }
}

/// Each value of `front`, from the last to the first, is set against what
/// was selected behind it, starting from `inner`; `out` is what the first
/// of these selections may return.
spec fn max_nested<T: PartialOrd>(front: Seq<T>, inner: T, out: T) -> bool
    decreases front.len(),
{
    if front.len() == 0 {
        out == inner
    } else {
        exists|behind: T|
            {
                &&& max_nested(front.drop_first(), inner, behind)
                &&& #[trigger] max_selected(front[0], behind, out)
            }
    }
}

/// A composition is its last two or four values composed, with the
/// values before them nested around the result.
proof fn lemma_max_composed_from_end<T: PartialOrd>(items: Seq<T>, inner: T, out: T)
    requires
        items.len() >= 2,
        max_composed(items.skip(items.len() - end_len(items.len())), inner),
        max_nested(items.take(items.len() - end_len(items.len())), inner, out),
    ensures
        max_composed(items, out),
    decreases items.len(),
{
    let n = items.len();
    let front = items.take(n - end_len(n));
    if n == 2 || n == 4 {
        assert(front.len() == 0);
        assert(items.skip(0) == items);
    } else {
        let rest = items.drop_first();
        let behind = choose|behind: T|
            {
                &&& max_nested(front.drop_first(), inner, behind)
                &&& #[trigger] max_selected(front[0], behind, out)
            };
        assert(rest.skip(rest.len() - end_len(rest.len())) == items.skip(n - end_len(n)));
        assert(rest.take(rest.len() - end_len(rest.len())) == front.drop_first());
        lemma_max_composed_from_end(rest, inner, behind);
        assert(front[0] == items[0]);
    }
}

/// Nesting one more value at the end of `front` is selecting between it
/// and `inner` first.
proof fn lemma_max_nested_push<T: PartialOrd>(front: Seq<T>, last: T, inner: T, mid: T, out: T)
    requires
        max_selected(last, inner, mid),
        max_nested(front, mid, out),
    ensures
        max_nested(front.push(last), inner, out),
    decreases front.len(),
{
    let longer = front.push(last);
    if front.len() == 0 {
        assert(max_nested(longer.drop_first(), inner, inner));
        assert(max_selected(longer[0], inner, out));
    } else {
        let behind = choose|behind: T|
            {
                &&& max_nested(front.drop_first(), mid, behind)
                &&& #[trigger] max_selected(front[0], behind, out)
            };
        lemma_max_nested_push(front.drop_first(), last, inner, mid, behind);
        assert(longer.drop_first() == front.drop_first().push(last));
        assert(max_selected(longer[0], behind, out));
    }
}

/// Each value of `front`, from the last to the first, is set against what
/// was selected behind it, starting from `inner`; `out` is what the first
/// of these selections may return.
spec fn min_nested<T: PartialOrd>(front: Seq<T>, inner: T, out: T) -> bool
    decreases front.len(),
{
    if front.len() == 0 {
        out == inner
    } else {
        exists|behind: T|
            {
                &&& min_nested(front.drop_first(), inner, behind)
                &&& #[trigger] min_selected(front[0], behind, out)
            }
    }
}

/// A composition is its last two or four values composed, with the
/// values before them nested around the result.
proof fn lemma_min_composed_from_end<T: PartialOrd>(items: Seq<T>, inner: T, out: T)
    requires
        items.len() >= 2,
        min_composed(items.skip(items.len() - end_len(items.len())), inner),
        min_nested(items.take(items.len() - end_len(items.len())), inner, out),
    ensures
        min_composed(items, out),
    decreases items.len(),
{
    let n = items.len();
    let front = items.take(n - end_len(n));
    if n == 2 || n == 4 {
        assert(front.len() == 0);
        assert(items.skip(0) == items);
    } else {
        let rest = items.drop_first();
        let behind = choose|behind: T|
            {
                &&& min_nested(front.drop_first(), inner, behind)
                &&& #[trigger] min_selected(front[0], behind, out)
            };
        assert(rest.skip(rest.len() - end_len(rest.len())) == items.skip(n - end_len(n)));
        assert(rest.take(rest.len() - end_len(rest.len())) == front.drop_first());
        lemma_min_composed_from_end(rest, inner, behind);
        assert(front[0] == items[0]);
    }
}

/// Nesting one more value at the end of `front` is selecting between it
/// and `inner` first.
proof fn lemma_min_nested_push<T: PartialOrd>(front: Seq<T>, last: T, inner: T, mid: T, out: T)
    requires
        min_selected(last, inner, mid),
        min_nested(front, mid, out),
    ensures
        min_nested(front.push(last), inner, out),
    decreases front.len(),
{
    let longer = front.push(last);
    if front.len() == 0 {
        assert(min_nested(longer.drop_first(), inner, inner));
        assert(min_selected(longer[0], inner, out));
    } else {
        let behind = choose|behind: T|
            {
                &&& min_nested(front.drop_first(), mid, behind)
                &&& #[trigger] min_selected(front[0], behind, out)
            };
        lemma_min_nested_push(front.drop_first(), last, inner, mid, behind);
        assert(longer.drop_first() == front.drop_first().push(last));
        assert(min_selected(longer[0], behind, out));
    }
}

} // verus!
