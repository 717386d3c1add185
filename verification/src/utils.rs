//! Small numeric helpers.

use vstd::prelude::*;
use core::cmp::Ordering;
use vstd::std_specs::cmp::PartialOrdSpec;

verus! {

/// What `clamp` returns, for a type whose order obeys its specification.
pub open spec fn spec_clamp<T: PartialOrdSpec>(value: T, min: T, max: T) -> T {
    if value.partial_cmp_spec(&min) == Some(Ordering::Less) {
        min
    } else if value.partial_cmp_spec(&max) == Some(Ordering::Greater) {
        max
    } else {
        value
    }
}

/// Clamp a value between `min` and `max`: `min` when the value is below it,
/// else `max` when the value is above that, else the value itself.
/// (No ordering between `min` and `max` is required.)
pub fn clamp<T: Ord>(value: T, min: T, max: T) -> (r: T)
    ensures
        T::obeys_partial_cmp_spec() ==> r == spec_clamp(value, min, max),
{
    if value < min {
        min
    } else if value > max {
        max
    } else {
        value
    }
}

/// `T`'s order, as its specification gives it, is total: any two values
/// compare; `a < b` exactly when `b > a`; only equal values compare equal;
/// and `<` is transitive.
pub open spec fn total_order<T: PartialOrdSpec>() -> bool {
    &&& forall|a: T, b: T| #[trigger] a.partial_cmp_spec(&b) is Some
    &&& forall|a: T, b: T|
        (#[trigger] a.partial_cmp_spec(&b) == Some(Ordering::Less)) == (b.partial_cmp_spec(&a) == Some(
            Ordering::Greater,
        ))
    &&& forall|a: T, b: T| (#[trigger] a.partial_cmp_spec(&b) == Some(Ordering::Equal)) == (a == b)
    &&& forall|a: T, b: T, c: T|
        #[trigger] a.partial_cmp_spec(&b) == Some(Ordering::Less) && #[trigger] b.partial_cmp_spec(&c) == Some(
            Ordering::Less,
        ) ==> a.partial_cmp_spec(&c) == Some(Ordering::Less)
}

/// `a <= b` in `T`'s order.
pub open spec fn spec_le<T: PartialOrdSpec>(a: T, b: T) -> bool {
    a.partial_cmp_spec(&b) == Some(Ordering::Less) || a.partial_cmp_spec(&b) == Some(Ordering::Equal)
}

/// Clamping twice clamps once: with `min <= max` in a total order, a
/// clamped value is its own clamp.
pub proof fn law_clamp_idempotent<T: PartialOrdSpec>(value: T, min: T, max: T)
    requires
        total_order::<T>(),
        spec_le(min, max),
    ensures
        spec_clamp(spec_clamp(value, min, max), min, max) == spec_clamp(value, min, max),
{
    let c = spec_clamp(value, min, max);
    assert(value.partial_cmp_spec(&min) is Some);
    assert(value.partial_cmp_spec(&max) is Some);
    assert(min.partial_cmp_spec(&max) is Some);
    assert(max.partial_cmp_spec(&min) is Some);
    assert(min.partial_cmp_spec(&min) == Some(Ordering::Equal));
    assert(max.partial_cmp_spec(&max) == Some(Ordering::Equal));
    assert(c.partial_cmp_spec(&min) is Some);
    assert(c.partial_cmp_spec(&max) is Some);
}

/// In a total order, `a` not above `b` is `a <= b`.
proof fn lemma_not_greater<T: PartialOrdSpec>(a: T, b: T)
    requires
        total_order::<T>(),
        a.partial_cmp_spec(&b) != Some(Ordering::Greater),
    ensures
        spec_le(a, b),
{
    let o = a.partial_cmp_spec(&b);
    assert(o is Some);
    match o {
        Some(Ordering::Less) => {},
        Some(Ordering::Equal) => {},
        Some(Ordering::Greater) => {},
        None => {},
    }
}

/// Clamping keeps order: with `min <= max` in a total order, `v1 <= v2`
/// gives `clamp(v1) <= clamp(v2)`.
pub proof fn law_clamp_monotonic<T: PartialOrdSpec>(v1: T, v2: T, min: T, max: T)
    requires
        total_order::<T>(),
        spec_le(min, max),
        spec_le(v1, v2),
    ensures
        spec_le(spec_clamp(v1, min, max), spec_clamp(v2, min, max)),
{
    let lt = Some(Ordering::Less);
    let gt = Some(Ordering::Greater);
    assert(v1.partial_cmp_spec(&min) is Some);
    assert(v1.partial_cmp_spec(&max) is Some);
    assert(v2.partial_cmp_spec(&min) is Some);
    assert(v2.partial_cmp_spec(&max) is Some);
    assert(min.partial_cmp_spec(&v1) is Some);
    assert(min.partial_cmp_spec(&v2) is Some);
    assert(max.partial_cmp_spec(&v1) is Some);
    assert(max.partial_cmp_spec(&v2) is Some);
    assert(min.partial_cmp_spec(&max) is Some);
    assert(max.partial_cmp_spec(&min) is Some);
    assert(v1.partial_cmp_spec(&v2) is Some);
    assert(v2.partial_cmp_spec(&v1) is Some);
    assert(min.partial_cmp_spec(&min) == Some(Ordering::Equal));
    assert(max.partial_cmp_spec(&max) == Some(Ordering::Equal));
    if v2.partial_cmp_spec(&min) == lt {
        if v1.partial_cmp_spec(&v2) == lt {
            assert(v1.partial_cmp_spec(&min) == lt);
        }
    } else if v2.partial_cmp_spec(&max) == gt {
        if v1.partial_cmp_spec(&min) != lt && v1.partial_cmp_spec(&max) != gt {
            lemma_not_greater(v1, max);
        }
    } else {
        if v1.partial_cmp_spec(&min) == lt {
            lemma_not_greater(min, v2);
        } else if v1.partial_cmp_spec(&max) == gt {
            assert(max.partial_cmp_spec(&v1) == lt);
            if v1.partial_cmp_spec(&v2) == lt {
                assert(max.partial_cmp_spec(&v2) == lt);
            }
            assert(false);
        }
    }
}

} // verus!
