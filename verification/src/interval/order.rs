use core::cmp::Ordering;
use vstd::prelude::*;
use vstd::std_specs::cmp::{OrdSpec, PartialEqSpec, PartialOrdSpec};

verus! {

/// `a` comes strictly before `b` in the order of `T`.
pub open spec fn val_lt<T: Ord>(a: T, b: T) -> bool {
    a.cmp_spec(&b) == Ordering::Less
}

/// `a` comes strictly after `b` in the order of `T`.
pub open spec fn val_gt<T: Ord>(a: T, b: T) -> bool {
    a.cmp_spec(&b) == Ordering::Greater
}

/// `a` and `b` hold the same place in the order of `T`.
pub open spec fn val_eq<T: Ord>(a: T, b: T) -> bool {
    a.cmp_spec(&b) == Ordering::Equal
}

/// `a` does not come after `b` in the order of `T`.
pub open spec fn val_le<T: Ord>(a: T, b: T) -> bool {
    a.cmp_spec(&b) != Ordering::Greater
}

/// `a` does not come before `b` in the order of `T`.
pub open spec fn val_ge<T: Ord>(a: T, b: T) -> bool {
    a.cmp_spec(&b) != Ordering::Less
}

/// What the interval types ask of their element type: `==`, `<` and `cmp`
/// behave as their specifications say, agree with each other, and `cmp` is a
/// total order.
pub open spec fn total_order<T: Ord>() -> bool {
    &&& T::obeys_eq_spec()
    &&& T::obeys_partial_cmp_spec()
    &&& T::obeys_cmp_spec()
    &&& forall|x: T, y: T| #[trigger] x.partial_cmp_spec(&y) == Some(x.cmp_spec(&y))
    &&& forall|x: T, y: T| #[trigger] x.eq_spec(&y) <==> val_eq(x, y)
    &&& forall|x: T| #[trigger] x.cmp_spec(&x) == Ordering::Equal
    &&& forall|x: T, y: T|
        #![trigger x.cmp_spec(&y)]
        (val_lt(x, y) <==> val_gt(y, x)) && (val_eq(x, y) <==> val_eq(y, x))
    &&& forall|x: T, y: T, z: T|
        #![trigger x.cmp_spec(&y), y.cmp_spec(&z)]
        val_le(x, y) && val_le(y, z) ==> val_le(x, z) && (val_lt(x, y) || val_lt(y, z) ==> val_lt(
            x,
            z,
        ))
}

/// `i8` is totally ordered.
pub proof fn lemma_total_order_i8()
    ensures
        total_order::<i8>(),
{
}

/// `i16` is totally ordered.
pub proof fn lemma_total_order_i16()
    ensures
        total_order::<i16>(),
{
}

/// `i32` is totally ordered.
pub proof fn lemma_total_order_i32()
    ensures
        total_order::<i32>(),
{
}

/// `i64` is totally ordered.
pub proof fn lemma_total_order_i64()
    ensures
        total_order::<i64>(),
{
}

/// `u8` is totally ordered.
pub proof fn lemma_total_order_u8()
    ensures
        total_order::<u8>(),
{
}

/// `u16` is totally ordered.
pub proof fn lemma_total_order_u16()
    ensures
        total_order::<u16>(),
{
}

/// `u32` is totally ordered.
pub proof fn lemma_total_order_u32()
    ensures
        total_order::<u32>(),
{
}

/// `u64` is totally ordered.
pub proof fn lemma_total_order_u64()
    ensures
        total_order::<u64>(),
{
}

/// `usize` is totally ordered.
pub proof fn lemma_total_order_usize()
    ensures
        total_order::<usize>(),
{
}

} // verus!
