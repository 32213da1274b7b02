//! What a comparison says of two values, and the orders that the laws
//! of the selections are stated for.

use core::cmp::Ordering;
use vstd::prelude::*;
use vstd::std_specs::cmp::PartialOrdSpec;

verus! {

/// `later` compares strictly greater than `earlier`.
pub open spec fn exceeds<T: PartialOrd>(later: T, earlier: T) -> bool {
    later.partial_cmp_spec(&earlier) == Some(Ordering::Greater)
}

/// `later` compares strictly less than `earlier`.
pub open spec fn precedes<T: PartialOrd>(later: T, earlier: T) -> bool {
    later.partial_cmp_spec(&earlier) == Some(Ordering::Less)
}

/// Neither value compares as less than, equal to or greater than the
/// other, whichever of the two is asked.
pub open spec fn incomparable<T: PartialOrd>(a: T, b: T) -> bool {
    a.partial_cmp_spec(&b) is None && b.partial_cmp_spec(&a) is None
}

/// The two values compare as equal, whichever of the two is asked.
pub open spec fn tied<T: PartialOrd>(a: T, b: T) -> bool {
    a.partial_cmp_spec(&b) == Some(Ordering::Equal) && b.partial_cmp_spec(&a) == Some(
        Ordering::Equal,
    )
}

/// "Strictly greater" is a strict partial order on `T`: no value exceeds
/// itself, and a value that exceeds another exceeds all that the other
/// exceeds.
pub open spec fn exceeds_is_strict_order<T: PartialOrd>() -> bool {
    &&& forall|a: T| !#[trigger] exceeds(a, a)
    &&& forall|a: T, b: T, c: T| #[trigger]
        exceeds(a, b) && #[trigger] exceeds(b, c) ==> exceeds(a, c)
}

/// "Strictly greater" is a strict weak order on `T`: of two values at most
/// one exceeds the other, and "does not exceed" carries over from one pair
/// to the next. Every total order is one, and so is a partial order whose
/// incomparable values are all incomparable to the same values.
pub open spec fn exceeds_is_weak_order<T: PartialOrd>() -> bool {
    &&& forall|a: T, b: T| #[trigger] exceeds(a, b) ==> !exceeds(b, a)
    &&& forall|a: T, b: T, c: T|
        !#[trigger] exceeds(a, b) && !#[trigger] exceeds(b, c) ==> !exceeds(a, c)
}

/// "Strictly less" is a strict partial order on `T`: no value precedes
/// itself, and a value that precedes another precedes all that the other
/// precedes.
pub open spec fn precedes_is_strict_order<T: PartialOrd>() -> bool {
    &&& forall|a: T| !#[trigger] precedes(a, a)
    &&& forall|a: T, b: T, c: T| #[trigger]
        precedes(a, b) && #[trigger] precedes(b, c) ==> precedes(a, c)
}

/// "Strictly less" is a strict weak order on `T`: of two values at most
/// one precedes the other, and "does not precede" carries over from one
/// pair to the next.
pub open spec fn precedes_is_weak_order<T: PartialOrd>() -> bool {
    &&& forall|a: T, b: T| #[trigger] precedes(a, b) ==> !precedes(b, a)
    &&& forall|a: T, b: T, c: T|
        !#[trigger] precedes(a, b) && !#[trigger] precedes(b, c) ==> !precedes(a, c)
}

/// A strict weak order is a strict partial order.
pub proof fn lemma_weak_order_is_strict_order<T: PartialOrd>()
    ensures
        exceeds_is_weak_order::<T>() ==> exceeds_is_strict_order::<T>(),
        precedes_is_weak_order::<T>() ==> precedes_is_strict_order::<T>(),
{
    if exceeds_is_weak_order::<T>() {
        assert forall|a: T, b: T, c: T| #[trigger]
            exceeds(a, b) && #[trigger] exceeds(b, c) implies exceeds(a, c) by {
            assert(!exceeds(c, b));
            if !exceeds(a, c) {
                assert(!exceeds(a, b));
            }
        }
    }
    if precedes_is_weak_order::<T>() {
        assert forall|a: T, b: T, c: T| #[trigger]
            precedes(a, b) && #[trigger] precedes(b, c) implies precedes(a, c) by {
            assert(!precedes(c, b));
            if !precedes(a, c) {
                assert(!precedes(a, b));
            }
        }
    }
}

} // verus!
