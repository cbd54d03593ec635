//! Mathematical intervals over any ordered type, with open or closed bounds.

mod bounds;
mod bounds_math;
mod interval;
mod interval_cmp;
mod interval_math;
mod order;

pub use self::bounds::{separated, Bound, LowerBound, UpperBound};
pub use self::interval::{between, normalized, proper, Interval, NonEmptyInterval};
pub use self::order::{
    lemma_total_order_i16, lemma_total_order_i32, lemma_total_order_i64, lemma_total_order_i8,
    lemma_total_order_u16, lemma_total_order_u32, lemma_total_order_u64, lemma_total_order_u8,
    lemma_total_order_usize, total_order, val_eq, val_ge, val_gt, val_le, val_lt,
};
