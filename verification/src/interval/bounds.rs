use super::order::{total_order, val_eq, val_ge, val_gt, val_le, val_lt};
use core::cmp::Ordering;
use vstd::prelude::*;
use vstd::std_specs::cmp::{OrdSpec, PartialEqSpec};

verus! {

/// The part that lower and upper bounds share: a value, and whether the
/// value itself belongs to the interval.
#[derive(Clone, Copy, Debug, Hash)]
pub struct Bound<T> where T: Ord {
    pub val: T,
    pub is_closed: bool,
}

impl<T> Bound<T> where T: Ord {
    /// Returns the value of the bound.
    pub fn val(&self) -> (r: &T)
        ensures
            *r == self.val,
    {
        &self.val
    }

    /// Indicates if the bound is closed.
    pub fn is_closed(&self) -> (r: bool)
        ensures
            r == self.is_closed,
    {
        self.is_closed
    }

    /// Creates a bound.
    pub fn new(val: T, is_closed: bool) -> (r: Self)
        ensures
            r.val == val,
            r.is_closed == is_closed,
    {
        Self { val, is_closed }
    }

    /// Takes the bound apart into its value and its closedness.
    pub fn into_tuple(self) -> (r: (T, bool))
        ensures
            r == (self.val, self.is_closed),
    {
        (self.val, self.is_closed)
    }

    /// Two bounds are the same when their values are equal and both are
    /// closed or both open.
    pub open spec fn same(self, other: Self) -> bool {
        self.val.eq_spec(&other.val) && self.is_closed == other.is_closed
    }
}

impl<T: Ord> PartialEq for Bound<T> {
    fn eq(&self, other: &Self) -> (r: bool) {
        self.val == other.val && self.is_closed == other.is_closed
    }
}

impl<T: Ord> Eq for Bound<T> {

}

impl<T: Ord> vstd::std_specs::cmp::PartialEqSpecImpl for Bound<T> {
    open spec fn obeys_eq_spec() -> bool {
        T::obeys_eq_spec()
    }

    open spec fn eq_spec(&self, other: &Self) -> bool {
        self.same(*other)
    }
}

/// The lower bound of an interval.
///
/// Of two lower bounds with the same value the closed one comes first: it
/// lets one more value into the interval.
#[derive(Clone, Copy, Debug, Hash)]
pub struct LowerBound<T> where T: Ord {
    pub bound: Bound<T>,
}

/// The upper bound of an interval.
///
/// Of two upper bounds with the same value the open one comes first: it
/// keeps one more value out of the interval.
#[derive(Clone, Copy, Debug, Hash)]
pub struct UpperBound<T> where T: Ord {
    pub bound: Bound<T>,
}

/// There is room between an upper bound and a lower bound that follows it:
/// the lower one lies beyond the upper one, or both exclude the value that
/// they share.
pub open spec fn separated<T: Ord>(l: LowerBound<T>, u: UpperBound<T>) -> bool {
    val_gt(l.bound.val, u.bound.val) || (val_eq(u.bound.val, l.bound.val) && !u.bound.is_closed
        && !l.bound.is_closed)
}

fn are_separated<T>(l: &LowerBound<T>, u: &UpperBound<T>) -> (r: bool) where T: Ord
    ensures
        total_order::<T>() ==> r == separated(*l, *u),
{
    *l.val() > *u.val() || (*u.val() == *l.val() && !u.is_closed() && !l.is_closed())
}

impl<T> LowerBound<T> where T: Ord {
    /// How this lower bound stands to another one.
    pub open spec fn order(self, other: Self) -> Ordering {
        match self.bound.val.cmp_spec(&other.bound.val) {
            Ordering::Greater => Ordering::Greater,
            Ordering::Less => Ordering::Less,
            Ordering::Equal => {
                if self.bound.is_closed == other.bound.is_closed {
                    Ordering::Equal
                } else if self.bound.is_closed {
                    Ordering::Less
                } else {
                    Ordering::Greater
                }
            },
        }
    }

    /// The later of two lower bounds, and `other` where they are equal.
    pub open spec fn later(self, other: Self) -> Self {
        if other.order(self) == Ordering::Less {
            self
        } else {
            other
        }
    }

    /// The earlier of two lower bounds, and `self` where they are equal.
    pub open spec fn earlier(self, other: Self) -> Self {
        if other.order(self) == Ordering::Less {
            other
        } else {
            self
        }
    }

    /// How this lower bound stands to a single value: an open bound lies
    /// beyond the value it names.
    pub open spec fn order_to_val(self, v: T) -> Ordering {
        match self.bound.val.cmp_spec(&v) {
            Ordering::Greater => Ordering::Greater,
            Ordering::Less => Ordering::Less,
            Ordering::Equal => if self.bound.is_closed {
                Ordering::Equal
            } else {
                Ordering::Greater
            },
        }
    }

    /// This lower bound lies before the upper bound `u`, or the two share a
    /// value that one of them excludes.
    pub open spec fn before_upper(self, u: UpperBound<T>) -> bool {
        val_lt(self.bound.val, u.bound.val) || (val_eq(self.bound.val, u.bound.val) && (
        !self.bound.is_closed || !u.bound.is_closed))
    }

    /// This lower bound lies beyond the upper bound `u`, or the two share a
    /// value that one of them excludes.
    pub open spec fn after_upper(self, u: UpperBound<T>) -> bool {
        val_gt(self.bound.val, u.bound.val) || (val_eq(self.bound.val, u.bound.val) && (
        !self.bound.is_closed || !u.bound.is_closed))
    }

    /// Checks if there is some space between this bound and an upper bound.
    pub fn is_separated_from(&self, other: &UpperBound<T>) -> (r: bool)
        ensures
            total_order::<T>() ==> r == separated(*self, *other),
    {
        are_separated(self, other)
    }

    /// Creates a lower bound.
    pub fn new(val: T, is_closed: bool) -> (r: Self)
        ensures
            r.bound.val == val,
            r.bound.is_closed == is_closed,
    {
        Self { bound: Bound::new(val, is_closed) }
    }

    /// Returns the value of the bound.
    pub fn val(&self) -> (r: &T)
        ensures
            *r == self.bound.val,
    {
        self.bound.val()
    }

    /// Indicates if the bound is closed.
    pub fn is_closed(&self) -> (r: bool)
        ensures
            r == self.bound.is_closed,
    {
        self.bound.is_closed()
    }

    /// Exchanges the value and the closedness of this bound with those of an
    /// upper bound.
    pub fn swap(&mut self, other: &mut UpperBound<T>)
        ensures
            final(self).bound == old(other).bound,
            final(other).bound == old(self).bound,
    {
        core::mem::swap(&mut self.bound, &mut other.bound)
    }

    /// Takes the bound apart into its value and its closedness.
    pub fn into_tuple(self) -> (r: (T, bool))
        ensures
            r == (self.bound.val, self.bound.is_closed),
    {
        self.bound.into_tuple()
    }

    /// Compares two lower bounds.
    pub fn cmp(&self, other: &Self) -> (r: Ordering)
        ensures
            total_order::<T>() ==> r == self.order(*other),
    {
        match self.val().cmp(other.val()) {
            Ordering::Greater => Ordering::Greater,
            Ordering::Less => Ordering::Less,
            Ordering::Equal => {
                if self.is_closed() == other.is_closed() {
                    Ordering::Equal
                } else {
                    if self.is_closed() {
                        Ordering::Less
                    } else {
                        Ordering::Greater
                    }
                }
            },
        }
    }

    /// Returns the later of two lower bounds, and `other` where they are equal.
    pub fn max(self, other: Self) -> (r: Self)
        ensures
            total_order::<T>() ==> r == self.later(other),
    {
        match other.cmp(&self) {
            Ordering::Less => self,
            _ => other,
        }
    }

    /// Returns the earlier of two lower bounds, and `self` where they are equal.
    pub fn min(self, other: Self) -> (r: Self)
        ensures
            total_order::<T>() ==> r == self.earlier(other),
    {
        match other.cmp(&self) {
            Ordering::Less => other,
            _ => self,
        }
    }
}

impl<T: Ord> PartialEq for LowerBound<T> {
    fn eq(&self, other: &Self) -> (r: bool) {
        self.bound == other.bound
    }
}

impl<T: Ord> Eq for LowerBound<T> {

}

impl<T: Ord> vstd::std_specs::cmp::PartialEqSpecImpl for LowerBound<T> {
    open spec fn obeys_eq_spec() -> bool {
        T::obeys_eq_spec()
    }

    open spec fn eq_spec(&self, other: &Self) -> bool {
        self.bound.same(other.bound)
    }
}

impl<T: Ord> PartialOrd for LowerBound<T> {
    fn partial_cmp(&self, other: &Self) -> (r: Option<Ordering>) {
        match self.val().cmp(other.val()) {
            Ordering::Greater => Some(Ordering::Greater),
            Ordering::Less => Some(Ordering::Less),
            Ordering::Equal => {
                if self.is_closed() == other.is_closed() {
                    Some(Ordering::Equal)
                } else {
                    if self.is_closed() {
                        Some(Ordering::Less)
                    } else {
                        Some(Ordering::Greater)
                    }
                }
            },
        }
    }
}

impl<T: Ord> vstd::std_specs::cmp::PartialOrdSpecImpl for LowerBound<T> {
    open spec fn obeys_partial_cmp_spec() -> bool {
        total_order::<T>()
    }

    open spec fn partial_cmp_spec(&self, other: &Self) -> Option<Ordering> {
        Some(self.order(*other))
    }
}

impl<T: Ord> PartialOrd<UpperBound<T>> for LowerBound<T> {
    /// `Less` where `lt` holds, else `Greater` where `gt` holds, else nothing.
    fn partial_cmp(&self, other: &UpperBound<T>) -> (r: Option<Ordering>)
        ensures
            total_order::<T>() ==> r == (if self.before_upper(*other) {
                Some(Ordering::Less)
            } else if self.after_upper(*other) {
                Some(Ordering::Greater)
            } else {
                None
            }),
    {
        if self.lt(other) {
            return Some(Ordering::Less);
        }
        if self.gt(other) {
            return Some(Ordering::Greater);
        }
        None
    }

    fn lt(&self, other: &UpperBound<T>) -> (r: bool)
        ensures
            total_order::<T>() ==> r == self.before_upper(*other),
    {
        match self.val().cmp(other.val()) {
            Ordering::Greater => false,
            Ordering::Less => true,
            Ordering::Equal => !self.is_closed() || !other.is_closed(),
        }
    }

    fn le(&self, other: &UpperBound<T>) -> (r: bool)
        ensures
            total_order::<T>() ==> r == val_le(self.bound.val, other.bound.val),
    {
        *self.val() <= *other.val()
    }

    fn gt(&self, other: &UpperBound<T>) -> (r: bool)
        ensures
            total_order::<T>() ==> r == self.after_upper(*other),
    {
        match self.val().cmp(other.val()) {
            Ordering::Greater => true,
            Ordering::Less => false,
            Ordering::Equal => !self.is_closed() || !other.is_closed(),
        }
    }

    fn ge(&self, other: &UpperBound<T>) -> (r: bool)
        ensures
            total_order::<T>() ==> r == val_ge(self.bound.val, other.bound.val),
    {
        *self.val() >= *other.val()
    }
}

impl<T: Ord> vstd::std_specs::cmp::PartialOrdSpecImpl<UpperBound<T>> for LowerBound<T> {
    /// A lower and an upper bound on the same value are both before and
    /// after each other where one of them is open, so these comparisons are
    /// no partial order; each states its own result.
    open spec fn obeys_partial_cmp_spec() -> bool {
        false
    }

    open spec fn partial_cmp_spec(&self, other: &UpperBound<T>) -> Option<Ordering> {
        if self.before_upper(*other) {
            Some(Ordering::Less)
        } else if self.after_upper(*other) {
            Some(Ordering::Greater)
        } else {
            None
        }
    }
}

impl<T: Ord> PartialEq<UpperBound<T>> for LowerBound<T> {
    /// A lower bound is never equal to an upper bound.
    fn eq(&self, _other: &UpperBound<T>) -> (r: bool)
        ensures
            !r,
    {
        false
    }

    /// Nor does `!=` hold between a lower and an upper bound.
    fn ne(&self, _other: &UpperBound<T>) -> (r: bool)
        ensures
            !r,
    {
        false
    }
}

impl<T: Ord> vstd::std_specs::cmp::PartialEqSpecImpl<UpperBound<T>> for LowerBound<T> {
    /// Both `==` and `!=` are false here, so they are no equality; each
    /// states its own result.
    open spec fn obeys_eq_spec() -> bool {
        false
    }

    open spec fn eq_spec(&self, other: &UpperBound<T>) -> bool {
        false
    }
}

impl<T: Ord> PartialOrd<T> for LowerBound<T> {
    fn partial_cmp(&self, other: &T) -> (r: Option<Ordering>) {
        match self.val().cmp(other) {
            Ordering::Greater => Some(Ordering::Greater),
            Ordering::Less => Some(Ordering::Less),
            Ordering::Equal => if self.is_closed() {
                Some(Ordering::Equal)
            } else {
                Some(Ordering::Greater)
            },
        }
    }

    fn lt(&self, other: &T) -> (r: bool) {
        *self.val() < *other
    }

    fn le(&self, other: &T) -> (r: bool) {
        *self.val() < *other || *self.val() == *other && self.is_closed()
    }

    fn gt(&self, other: &T) -> (r: bool) {
        *self.val() > *other || *self.val() == *other && !self.is_closed()
    }

    fn ge(&self, other: &T) -> (r: bool) {
        *self.val() >= *other
    }
}

impl<T: Ord> vstd::std_specs::cmp::PartialOrdSpecImpl<T> for LowerBound<T> {
    open spec fn obeys_partial_cmp_spec() -> bool {
        total_order::<T>()
    }

    open spec fn partial_cmp_spec(&self, other: &T) -> Option<Ordering> {
        Some(self.order_to_val(*other))
    }
}

impl<T: Ord> PartialEq<T> for LowerBound<T> {
    fn eq(&self, other: &T) -> (r: bool) {
        *self.val() == *other && self.is_closed()
    }
}

impl<T: Ord> vstd::std_specs::cmp::PartialEqSpecImpl<T> for LowerBound<T> {
    open spec fn obeys_eq_spec() -> bool {
        T::obeys_eq_spec()
    }

    open spec fn eq_spec(&self, other: &T) -> bool {
        self.bound.val.eq_spec(other) && self.bound.is_closed
    }
}

impl<T> UpperBound<T> where T: Ord {
    /// How this upper bound stands to another one.
    pub open spec fn order(self, other: Self) -> Ordering {
        match self.bound.val.cmp_spec(&other.bound.val) {
            Ordering::Greater => Ordering::Greater,
            Ordering::Less => Ordering::Less,
            Ordering::Equal => {
                if self.bound.is_closed == other.bound.is_closed {
                    Ordering::Equal
                } else if self.bound.is_closed {
                    Ordering::Greater
                } else {
                    Ordering::Less
                }
            },
        }
    }

    /// The later of two upper bounds, and `other` where they are equal.
    pub open spec fn later(self, other: Self) -> Self {
        if other.order(self) == Ordering::Less {
            self
        } else {
            other
        }
    }

    /// The earlier of two upper bounds, and `self` where they are equal.
    pub open spec fn earlier(self, other: Self) -> Self {
        if other.order(self) == Ordering::Less {
            other
        } else {
            self
        }
    }

    /// How this upper bound stands to a single value: an open bound lies
    /// before the value it names.
    pub open spec fn order_to_val(self, v: T) -> Ordering {
        match self.bound.val.cmp_spec(&v) {
            Ordering::Greater => Ordering::Greater,
            Ordering::Less => Ordering::Less,
            Ordering::Equal => if self.bound.is_closed {
                Ordering::Equal
            } else {
                Ordering::Less
            },
        }
    }

    /// This upper bound lies before the lower bound `l`, or the two share a
    /// value that one of them excludes.
    pub open spec fn before_lower(self, l: LowerBound<T>) -> bool {
        val_lt(self.bound.val, l.bound.val) || (val_eq(self.bound.val, l.bound.val) && (
        !self.bound.is_closed || !l.bound.is_closed))
    }

    /// This upper bound lies beyond the lower bound `l`, or the two share a
    /// value that one of them excludes.
    pub open spec fn after_lower(self, l: LowerBound<T>) -> bool {
        val_gt(self.bound.val, l.bound.val) || (val_eq(self.bound.val, l.bound.val) && (
        !self.bound.is_closed || !l.bound.is_closed))
    }

    /// Checks if there is some space between this bound and a lower bound.
    pub fn is_separated_from(&self, other: &LowerBound<T>) -> (r: bool)
        ensures
            total_order::<T>() ==> r == separated(*other, *self),
    {
        are_separated(other, self)
    }

    /// Returns the value of the bound.
    pub fn val(&self) -> (r: &T)
        ensures
            *r == self.bound.val,
    {
        self.bound.val()
    }

    /// Indicates if the bound is closed.
    pub fn is_closed(&self) -> (r: bool)
        ensures
            r == self.bound.is_closed,
    {
        self.bound.is_closed()
    }

    /// Creates an upper bound.
    pub fn new(val: T, is_closed: bool) -> (r: Self)
        ensures
            r.bound.val == val,
            r.bound.is_closed == is_closed,
    {
        Self { bound: Bound::new(val, is_closed) }
    }

    /// Takes the bound apart into its value and its closedness.
    pub fn into_tuple(self) -> (r: (T, bool))
        ensures
            r == (self.bound.val, self.bound.is_closed),
    {
        self.bound.into_tuple()
    }

    /// Compares two upper bounds.
    pub fn cmp(&self, other: &Self) -> (r: Ordering)
        ensures
            total_order::<T>() ==> r == self.order(*other),
    {
        match self.val().cmp(other.val()) {
            Ordering::Greater => Ordering::Greater,
            Ordering::Less => Ordering::Less,
            Ordering::Equal => {
                if self.is_closed() == other.is_closed() {
                    Ordering::Equal
                } else {
                    if self.is_closed() {
                        Ordering::Greater
                    } else {
                        Ordering::Less
                    }
                }
            },
        }
    }

    /// Returns the later of two upper bounds, and `other` where they are equal.
    pub fn max(self, other: Self) -> (r: Self)
        ensures
            total_order::<T>() ==> r == self.later(other),
    {
        match other.cmp(&self) {
            Ordering::Less => self,
            _ => other,
        }
    }

    /// Returns the earlier of two upper bounds, and `self` where they are equal.
    pub fn min(self, other: Self) -> (r: Self)
        ensures
            total_order::<T>() ==> r == self.earlier(other),
    {
        match other.cmp(&self) {
            Ordering::Less => other,
            _ => self,
        }
    }
}

impl<T: Ord> PartialEq for UpperBound<T> {
    fn eq(&self, other: &Self) -> (r: bool) {
        self.bound == other.bound
    }
}

impl<T: Ord> Eq for UpperBound<T> {

}

impl<T: Ord> vstd::std_specs::cmp::PartialEqSpecImpl for UpperBound<T> {
    open spec fn obeys_eq_spec() -> bool {
        T::obeys_eq_spec()
    }

    open spec fn eq_spec(&self, other: &Self) -> bool {
        self.bound.same(other.bound)
    }
}

impl<T: Ord> PartialOrd for UpperBound<T> {
    fn partial_cmp(&self, other: &Self) -> (r: Option<Ordering>) {
        match self.val().cmp(other.val()) {
            Ordering::Greater => Some(Ordering::Greater),
            Ordering::Less => Some(Ordering::Less),
            Ordering::Equal => {
                if self.is_closed() == other.is_closed() {
                    Some(Ordering::Equal)
                } else {
                    if self.is_closed() {
                        Some(Ordering::Greater)
                    } else {
                        Some(Ordering::Less)
                    }
                }
            },
        }
    }
}

impl<T: Ord> vstd::std_specs::cmp::PartialOrdSpecImpl for UpperBound<T> {
    open spec fn obeys_partial_cmp_spec() -> bool {
        total_order::<T>()
    }

    open spec fn partial_cmp_spec(&self, other: &Self) -> Option<Ordering> {
        Some(self.order(*other))
    }
}

impl<T: Ord> PartialOrd<LowerBound<T>> for UpperBound<T> {
    /// `Less` where `lt` holds, else `Greater` where `gt` holds, else nothing.
    fn partial_cmp(&self, other: &LowerBound<T>) -> (r: Option<Ordering>)
        ensures
            total_order::<T>() ==> r == (if self.before_lower(*other) {
                Some(Ordering::Less)
            } else if self.after_lower(*other) {
                Some(Ordering::Greater)
            } else {
                None
            }),
    {
        if self.lt(other) {
            return Some(Ordering::Less);
        }
        if self.gt(other) {
            return Some(Ordering::Greater);
        }
        None
    }

    fn lt(&self, other: &LowerBound<T>) -> (r: bool)
        ensures
            total_order::<T>() ==> r == self.before_lower(*other),
    {
        match self.val().cmp(other.val()) {
            Ordering::Greater => false,
            Ordering::Less => true,
            Ordering::Equal => !self.is_closed() || !other.is_closed(),
        }
    }

    fn le(&self, other: &LowerBound<T>) -> (r: bool)
        ensures
            total_order::<T>() ==> r == val_le(self.bound.val, other.bound.val),
    {
        *self.val() <= *other.val()
    }

    fn gt(&self, other: &LowerBound<T>) -> (r: bool)
        ensures
            total_order::<T>() ==> r == self.after_lower(*other),
    {
        match self.val().cmp(other.val()) {
            Ordering::Greater => true,
            Ordering::Less => false,
            Ordering::Equal => !self.is_closed() || !other.is_closed(),
        }
    }

    fn ge(&self, other: &LowerBound<T>) -> (r: bool)
        ensures
            total_order::<T>() ==> r == val_ge(self.bound.val, other.bound.val),
    {
        *self.val() >= *other.val()
    }
}

impl<T: Ord> vstd::std_specs::cmp::PartialOrdSpecImpl<LowerBound<T>> for UpperBound<T> {
    /// An upper and a lower bound on the same value are both before and
    /// after each other where one of them is open, so these comparisons are
    /// no partial order; each states its own result.
    open spec fn obeys_partial_cmp_spec() -> bool {
        false
    }

    open spec fn partial_cmp_spec(&self, other: &LowerBound<T>) -> Option<Ordering> {
        if self.before_lower(*other) {
            Some(Ordering::Less)
        } else if self.after_lower(*other) {
            Some(Ordering::Greater)
        } else {
            None
        }
    }
}

impl<T: Ord> PartialEq<LowerBound<T>> for UpperBound<T> {
    /// An upper bound is never equal to a lower bound.
    fn eq(&self, _other: &LowerBound<T>) -> (r: bool)
        ensures
            !r,
    {
        false
    }

    /// Nor does `!=` hold between an upper and a lower bound.
    fn ne(&self, _other: &LowerBound<T>) -> (r: bool)
        ensures
            !r,
    {
        false
    }
}

impl<T: Ord> vstd::std_specs::cmp::PartialEqSpecImpl<LowerBound<T>> for UpperBound<T> {
    /// Both `==` and `!=` are false here, so they are no equality; each
    /// states its own result.
    open spec fn obeys_eq_spec() -> bool {
        false
    }

    open spec fn eq_spec(&self, other: &LowerBound<T>) -> bool {
        false
    }
}

impl<T: Ord> PartialOrd<T> for UpperBound<T> {
    fn partial_cmp(&self, other: &T) -> (r: Option<Ordering>) {
        match self.val().cmp(other) {
            Ordering::Greater => Some(Ordering::Greater),
            Ordering::Less => Some(Ordering::Less),
            Ordering::Equal => if self.is_closed() {
                Some(Ordering::Equal)
            } else {
                Some(Ordering::Less)
            },
        }
    }

    fn lt(&self, other: &T) -> (r: bool) {
        *self.val() < *other || *self.val() == *other && !self.is_closed()
    }

    fn le(&self, other: &T) -> (r: bool) {
        *self.val() <= *other
    }

    fn gt(&self, other: &T) -> (r: bool) {
        *self.val() > *other
    }

    fn ge(&self, other: &T) -> (r: bool) {
        *self.val() > *other || *self.val() == *other && self.is_closed()
    }
}

impl<T: Ord> vstd::std_specs::cmp::PartialOrdSpecImpl<T> for UpperBound<T> {
    open spec fn obeys_partial_cmp_spec() -> bool {
        total_order::<T>()
    }

    open spec fn partial_cmp_spec(&self, other: &T) -> Option<Ordering> {
        Some(self.order_to_val(*other))
    }
}

impl<T: Ord> PartialEq<T> for UpperBound<T> {
    fn eq(&self, other: &T) -> (r: bool) {
        *self.val() == *other && self.is_closed()
    }
}

impl<T: Ord> vstd::std_specs::cmp::PartialEqSpecImpl<T> for UpperBound<T> {
    open spec fn obeys_eq_spec() -> bool {
        T::obeys_eq_spec()
    }

    open spec fn eq_spec(&self, other: &T) -> bool {
        self.bound.val.eq_spec(other) && self.bound.is_closed
    }
}

} // verus!
