use super::interval::{Interval, NonEmptyInterval};
use super::order::{total_order, val_ge, val_le};
use core::cmp::Ordering;
use vstd::prelude::*;
use vstd::std_specs::cmp::PartialEqSpec;

verus! {

impl<T: Ord> PartialEq for NonEmptyInterval<T> {
    fn eq(&self, other: &Self) -> (r: bool) {
        self.lo == other.lo && self.up == other.up
    }
}

impl<T: Ord> Eq for NonEmptyInterval<T> {

}

impl<T: Ord> vstd::std_specs::cmp::PartialEqSpecImpl for NonEmptyInterval<T> {
    open spec fn obeys_eq_spec() -> bool {
        T::obeys_eq_spec()
    }

    open spec fn eq_spec(&self, other: &Self) -> bool {
        self.lo.bound.same(other.lo.bound) && self.up.bound.same(other.up.bound)
    }
}

impl<T: Ord> Interval<T> {
    /// Two intervals are the same when both are empty, or neither is and
    /// their bounds are the same.
    pub open spec fn same(self, other: Self) -> bool {
        match (self.imp, other.imp) {
            (None, None) => true,
            (Some(a), Some(b)) => a.lo.bound.same(b.lo.bound) && a.up.bound.same(b.up.bound),
            _ => false,
        }
    }

    /// The interval holds the single value `v`: both bounds are closed on it.
    pub open spec fn is_exactly(self, v: T) -> bool {
        match self.imp {
            None => false,
            Some(a) => a.lo.bound.val.eq_spec(&v) && a.lo.bound.is_closed && a.up.bound.val.eq_spec(
                &v,
            ) && a.up.bound.is_closed,
        }
    }
}

impl<T: Ord> PartialEq for Interval<T> {
    fn eq(&self, other: &Self) -> (r: bool) {
        match (&self.imp, &other.imp) {
            (None, None) => true,
            (Some(a), Some(b)) => *a == *b,
            _ => false,
        }
    }
}

impl<T: Ord> Eq for Interval<T> {

}

impl<T: Ord> vstd::std_specs::cmp::PartialEqSpecImpl for Interval<T> {
    open spec fn obeys_eq_spec() -> bool {
        T::obeys_eq_spec()
    }

    open spec fn eq_spec(&self, other: &Self) -> bool {
        self.same(*other)
    }
}

impl<T> PartialOrd<T> for Interval<T> where T: Ord {
    /// `Less` where the interval lies below `val`, `Greater` where it lies
    /// above, `Equal` where it holds `val` alone, else nothing.
    fn partial_cmp(&self, val: &T) -> (r: Option<Ordering>)
        ensures
            total_order::<T>() ==> r == (if self.below_val(*val) {
                Some(Ordering::Less)
            } else if self.above_val(*val) {
                Some(Ordering::Greater)
            } else if self.is_exactly(*val) {
                Some(Ordering::Equal)
            } else {
                None
            }),
    {
        if self.lt(val) {
            return Some(Ordering::Less);
        }
        if self.gt(val) {
            return Some(Ordering::Greater);
        }
        if self.eq(val) {
            return Some(Ordering::Equal);
        }
        None
    }

    /// Every value of the interval lies before `val`.
    fn lt(&self, val: &T) -> (r: bool)
        ensures
            total_order::<T>() ==> r == self.below_val(*val),
    {
        match self.upper() {
            None => false,
            Some(up) => *up < *val,
        }
    }

    /// No value of the interval lies after `val`.
    fn le(&self, val: &T) -> (r: bool)
        ensures
            total_order::<T>() ==> r == (self.imp is Some && val_le(self.up().bound.val, *val)),
    {
        match self.upper() {
            None => false,
            Some(up) => *up <= *val,
        }
    }

    /// Every value of the interval lies after `val`.
    fn gt(&self, val: &T) -> (r: bool)
        ensures
            total_order::<T>() ==> r == self.above_val(*val),
    {
        match self.lower() {
            None => false,
            Some(lo) => *lo > *val,
        }
    }

    /// No value of the interval lies before `val`.
    fn ge(&self, val: &T) -> (r: bool)
        ensures
            total_order::<T>() ==> r == (self.imp is Some && val_ge(self.lo().bound.val, *val)),
    {
        match self.lower() {
            None => false,
            Some(low) => *low >= *val,
        }
    }
}

impl<T> vstd::std_specs::cmp::PartialOrdSpecImpl<T> for Interval<T> where T: Ord {
    /// An interval can be at once `<=` and `>=` a value without being equal
    /// to it, so these comparisons are no partial order; each states its own
    /// result.
    open spec fn obeys_partial_cmp_spec() -> bool {
        false
    }

    open spec fn partial_cmp_spec(&self, val: &T) -> Option<Ordering> {
        if self.below_val(*val) {
            Some(Ordering::Less)
        } else if self.above_val(*val) {
            Some(Ordering::Greater)
        } else if self.is_exactly(*val) {
            Some(Ordering::Equal)
        } else {
            None
        }
    }
}

impl<T> PartialEq<T> for Interval<T> where T: Ord {
    /// An interval equals a value when it holds that value alone.
    fn eq(&self, val: &T) -> (r: bool) {
        match self.bounds() {
            None => false,
            Some((a, b)) => *a == *val && *b == *val,
        }
    }
}

impl<T> vstd::std_specs::cmp::PartialEqSpecImpl<T> for Interval<T> where T: Ord {
    open spec fn obeys_eq_spec() -> bool {
        T::obeys_eq_spec()
    }

    open spec fn eq_spec(&self, val: &T) -> bool {
        self.is_exactly(*val)
    }
}

impl<T> PartialOrd for Interval<T> where T: Ord {
    /// `Greater` where the interval lies above `other`, `Less` where it lies
    /// below, `Equal` where the two are the same, else nothing.
    fn partial_cmp(&self, other: &Self) -> (r: Option<Ordering>)
        ensures
            total_order::<T>() ==> r == (if self.above(*other) {
                Some(Ordering::Greater)
            } else if self.below(*other) {
                Some(Ordering::Less)
            } else if self.same(*other) {
                Some(Ordering::Equal)
            } else {
                None
            }),
    {
        if self.gt(other) {
            return Some(Ordering::Greater);
        }
        if self.lt(other) {
            return Some(Ordering::Less);
        }
        if self.eq(other) {
            return Some(Ordering::Equal);
        }
        None
    }

    /// Every value of the interval lies before every value of `other`.
    fn lt(&self, other: &Self) -> (r: bool)
        ensures
            total_order::<T>() ==> r == self.below(*other),
    {
        match self.upper() {
            None => false,
            Some(s) => match other.lower() {
                None => false,
                Some(o) => *s < *o,
            },
        }
    }

    /// No value of the interval lies after any value of `other`, as far as
    /// the values of the bounds show.
    fn le(&self, other: &Self) -> (r: bool)
        ensures
            total_order::<T>() ==> r == (self.imp is Some && other.imp is Some && val_le(
                self.up().bound.val,
                other.lo().bound.val,
            )),
    {
        match self.upper() {
            None => false,
            Some(s) => match other.lower() {
                None => false,
                Some(o) => *s <= *o,
            },
        }
    }

    /// Every value of the interval lies after every value of `other`.
    fn gt(&self, other: &Self) -> (r: bool)
        ensures
            total_order::<T>() ==> r == self.above(*other),
    {
        match self.lower() {
            None => false,
            Some(s) => match other.upper() {
                None => false,
                Some(o) => *s > *o,
            },
        }
    }

    /// No value of the interval lies before any value of `other`, as far as
    /// the values of the bounds show.
    fn ge(&self, other: &Self) -> (r: bool)
        ensures
            total_order::<T>() ==> r == (self.imp is Some && other.imp is Some && val_ge(
                self.lo().bound.val,
                other.up().bound.val,
            )),
    {
        match self.lower() {
            None => false,
            Some(s) => match other.upper() {
                None => false,
                Some(o) => *s >= *o,
            },
        }
    }
}

impl<T> vstd::std_specs::cmp::PartialOrdSpecImpl for Interval<T> where T: Ord {
    /// Two intervals that share one closed end are at once `<=` and `>=`
    /// without being equal, so these comparisons are no partial order; each
    /// states its own result.
    open spec fn obeys_partial_cmp_spec() -> bool {
        false
    }

    open spec fn partial_cmp_spec(&self, other: &Self) -> Option<Ordering> {
        if self.above(*other) {
            Some(Ordering::Greater)
        } else if self.below(*other) {
            Some(Ordering::Less)
        } else if self.same(*other) {
            Some(Ordering::Equal)
        } else {
            None
        }
    }
}

} // verus!
