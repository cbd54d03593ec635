use super::bounds::{separated, Bound, LowerBound, UpperBound};
use super::order::{total_order, val_eq, val_gt, val_le, val_lt};
use core::cmp::Ordering;
use vstd::prelude::*;
use vstd::std_specs::cmp::PartialEqSpec;

verus! {

/// An interval that holds at least one value, given by its two bounds.
///
/// Arithmetic can turn such an interval into an empty one, which is why
/// `Interval` wraps it.
#[derive(Clone, Copy, Debug, Hash)]
pub struct NonEmptyInterval<T> where T: Ord {
    pub lo: LowerBound<T>,
    pub up: UpperBound<T>,
}

/// A mathematical interval: the empty set, or the values between a lower and
/// an upper bound, each of which is open or closed.
#[derive(Clone, Copy, Debug, Hash)]
pub struct Interval<T> where T: Ord {
    pub imp: Option<NonEmptyInterval<T>>,
}

/// A pair of bounds encloses at least one value as far as the bounds
/// themselves show: the lower value lies before the upper one, or both are
/// the same value and closed.
pub open spec fn proper<T: Ord>(lo: T, loc: bool, up: T, upc: bool) -> bool {
    val_lt(lo, up) || (val_eq(lo, up) && loc && upc)
}

/// The interval with the given bounds.
pub open spec fn between<T: Ord>(lo: T, loc: bool, up: T, upc: bool) -> Interval<T> {
    Interval {
        imp: Some(
            NonEmptyInterval {
                lo: LowerBound { bound: Bound { val: lo, is_closed: loc } },
                up: UpperBound { bound: Bound { val: up, is_closed: upc } },
            },
        ),
    }
}

/// The interval that a pair of bounds stands for after arithmetic on them:
/// bounds that came out in the wrong order change places, and bounds on one
/// value that are not both closed leave nothing.
pub open spec fn normalized<T: Ord>(lo: T, loc: bool, up: T, upc: bool) -> Interval<T> {
    if val_gt(lo, up) {
        between(up, upc, lo, loc)
    } else if val_eq(lo, up) && (!loc || !upc) {
        Interval { imp: None }
    } else {
        between(lo, loc, up, upc)
    }
}

impl<T> Interval<T> where T: Ord {
    /// Well-formedness: an interval that is not empty has proper bounds.
    pub open spec fn wf(self) -> bool {
        match self.imp {
            None => true,
            Some(a) => proper(a.lo.bound.val, a.lo.bound.is_closed, a.up.bound.val, a.up.bound.is_closed),
        }
    }

    /// The lower bound of an interval that is not empty.
    pub open spec fn lo(self) -> LowerBound<T>
        recommends
            self.imp is Some,
    {
        self.imp->0.lo
    }

    /// The upper bound of an interval that is not empty.
    pub open spec fn up(self) -> UpperBound<T>
        recommends
            self.imp is Some,
    {
        self.imp->0.up
    }

    /// The whole interval lies above `v`. Nothing lies above or below an
    /// empty interval.
    pub open spec fn above_val(self, v: T) -> bool {
        self.imp is Some && self.lo().order_to_val(v) == Ordering::Greater
    }

    /// The whole interval lies below `v`.
    pub open spec fn below_val(self, v: T) -> bool {
        self.imp is Some && self.up().order_to_val(v) == Ordering::Less
    }

    /// The whole interval lies above `other`; neither is empty.
    pub open spec fn above(self, other: Self) -> bool {
        self.imp is Some && other.imp is Some && self.lo().after_upper(other.up())
    }

    /// The whole interval lies below `other`; neither is empty.
    pub open spec fn below(self, other: Self) -> bool {
        self.imp is Some && other.imp is Some && self.up().before_lower(other.lo())
    }

    /// The bounds of `other` lie within the bounds of this interval. The
    /// empty interval lies within every interval, and holds only itself.
    pub open spec fn encloses(self, other: Self) -> bool {
        match (self.imp, other.imp) {
            (None, _) => other.imp is None,
            (Some(_), None) => true,
            (Some(a), Some(b)) => a.lo.order(b.lo) != Ordering::Greater && a.up.order(b.up)
                != Ordering::Less,
        }
    }

    /// The two intervals leave no room between them, so that their union is
    /// an interval. An empty interval merges with any.
    pub open spec fn mergeable(self, other: Self) -> bool {
        match (self.imp, other.imp) {
            (Some(a), Some(b)) => !(separated(b.lo, a.up) || separated(a.lo, b.up)),
            _ => true,
        }
    }

    /// The interval from the earlier of the two lower bounds to the later of
    /// the two upper bounds; where one interval is empty, the other one.
    /// Of two equal lower bounds that of `self` is taken, of two equal upper
    /// bounds that of `other`.
    pub open spec fn hull(self, other: Self) -> Self {
        match (self.imp, other.imp) {
            (_, None) => self,
            (None, _) => other,
            (Some(a), Some(b)) => Interval {
                imp: Some(NonEmptyInterval { lo: a.lo.earlier(b.lo), up: a.up.later(b.up) }),
            },
        }
    }

    /// As `hull`, but of two equal bounds that of `self` is taken.
    pub open spec fn extended(self, other: Self) -> Self {
        match (self.imp, other.imp) {
            (_, None) => self,
            (None, _) => other,
            (Some(a), Some(b)) => Interval {
                imp: Some(NonEmptyInterval { lo: a.lo.earlier(b.lo), up: b.up.later(a.up) }),
            },
        }
    }

    /// The interval from the later of the two lower bounds to the earlier of
    /// the two upper bounds, or the empty interval where one lies wholly
    /// above the other or one is empty. Of two equal lower bounds that of
    /// `other` is taken, of two equal upper bounds that of `self`.
    pub open spec fn common(self, other: Self) -> Self {
        match (self.imp, other.imp) {
            (Some(a), Some(b)) => if self.above(other) || self.below(other) {
                Interval { imp: None }
            } else {
                Interval {
                    imp: Some(NonEmptyInterval { lo: a.lo.later(b.lo), up: a.up.earlier(b.up) }),
                }
            },
            _ => Interval { imp: None },
        }
    }

    /// As `common`, but of two equal bounds that of `self` is taken.
    pub open spec fn narrowed(self, other: Self) -> Self {
        match (self.imp, other.imp) {
            (Some(a), Some(b)) => if self.above(other) || self.below(other) {
                Interval { imp: None }
            } else {
                Interval {
                    imp: Some(NonEmptyInterval { lo: b.lo.later(a.lo), up: a.up.earlier(b.up) }),
                }
            },
            _ => Interval { imp: None },
        }
    }

    /// Creates an interval that is not empty from two values and their
    /// closedness.
    pub fn new(lower: T, lower_closed: bool, upper: T, upper_closed: bool) -> (r: Self)
        requires
            total_order::<T>(),
            proper(lower, lower_closed, upper, upper_closed),
        ensures
            r == between(lower, lower_closed, upper, upper_closed),
            r.wf(),
    {
        Self::create_checked(lower, lower_closed, upper, upper_closed)
    }

    /// Creates an interval that is not empty from a lower and an upper bound.
    pub fn from_bounds(lo: LowerBound<T>, up: UpperBound<T>) -> (r: Self)
        requires
            total_order::<T>(),
            proper(lo.bound.val, lo.bound.is_closed, up.bound.val, up.bound.is_closed),
        ensures
            r == (Interval { imp: Some(NonEmptyInterval { lo, up }) }),
            r.wf(),
    {
        let (l, lc) = lo.into_tuple();
        let (u, uc) = up.into_tuple();
        Self::create_checked(l, lc, u, uc)
    }

    /// Creates an interval from bounds that are known to be proper.
    pub fn create_checked(lo: T, loc: bool, up: T, upc: bool) -> (r: Self)
        requires
            total_order::<T>(),
            proper(lo, loc, up, upc),
        ensures
            r == between(lo, loc, up, upc),
            r.wf(),
    {
        if lo > up {
            return vstd::pervasive::unreached();
        }
        if lo == up && (!loc || !upc) {
            return vstd::pervasive::unreached();
        }
        Self {
            imp: Some(NonEmptyInterval { lo: LowerBound::new(lo, loc), up: UpperBound::new(up, upc) }),
        }
    }

    /// Creates an interval from any two bounds: bounds in the wrong order
    /// change places, and bounds that enclose nothing give the empty interval.
    pub fn create_friendly(lo: T, loc: bool, up: T, upc: bool) -> (r: Self)
        ensures
            total_order::<T>() ==> r == normalized(lo, loc, up, upc) && r.wf(),
    {
        let mut i = Self {
            imp: Some(NonEmptyInterval { lo: LowerBound::new(lo, loc), up: UpperBound::new(up, upc) }),
        };
        i.fix_after_modification();
        i
    }

    /// Creates an interval that holds the single value `val`.
    pub fn single(val: T) -> (r: Self) where T: Clone
        ensures
            r.imp is Some,
            r.up().bound.val == val,
            cloned(val, r.lo().bound.val),
            r.lo().bound.is_closed,
            r.up().bound.is_closed,
    {
        Self {
            imp: Some(
                NonEmptyInterval { lo: LowerBound::new(val.clone(), true), up: UpperBound::new(val, true) },
            ),
        }
    }

    /// Creates an interval with both bounds open.
    pub fn open(low: T, up: T) -> (r: Self)
        requires
            total_order::<T>(),
            val_lt(low, up),
        ensures
            r == between(low, false, up, false),
            r.wf(),
    {
        Self::create_checked(low, false, up, false)
    }

    /// Creates an interval with both bounds closed.
    pub fn closed(low: T, up: T) -> (r: Self)
        requires
            total_order::<T>(),
            val_le(low, up),
        ensures
            r == between(low, true, up, true),
            r.wf(),
    {
        Self::create_checked(low, true, up, true)
    }

    /// Creates an interval with the lower bound closed and the upper one open.
    pub fn lower_closed(low: T, up: T) -> (r: Self)
        requires
            total_order::<T>(),
            val_lt(low, up),
        ensures
            r == between(low, true, up, false),
            r.wf(),
    {
        Self::create_checked(low, true, up, false)
    }

    /// Creates an interval with the lower bound open and the upper one closed.
    pub fn upper_closed(low: T, up: T) -> (r: Self)
        requires
            total_order::<T>(),
            val_lt(low, up),
        ensures
            r == between(low, false, up, true),
            r.wf(),
    {
        Self::create_checked(low, false, up, true)
    }

    /// Creates an empty interval.
    pub fn empty() -> (r: Self)
        ensures
            r.imp is None,
            r.wf(),
    {
        Self { imp: None }
    }

    /// Takes the interval apart into the values and closedness of its
    /// bounds, the lower bound first; `None` if it is empty.
    pub fn into_tuple(self) -> (r: Option<(T, bool, T, bool)>)
        ensures
            r == (match self.imp {
                None => None,
                Some(a) => Some(
                    (a.lo.bound.val, a.lo.bound.is_closed, a.up.bound.val, a.up.bound.is_closed),
                ),
            }),
    {
        match self.imp {
            None => None,
            Some(a) => {
                let (lo, loc) = a.lo.into_tuple();
                let (up, upc) = a.up.into_tuple();
                Some((lo, loc, up, upc))
            },
        }
    }

    /// Takes the interval apart into its two bounds; `None` if it is empty.
    pub fn into_bounds(self) -> (r: Option<(LowerBound<T>, UpperBound<T>)>)
        ensures
            r == (match self.imp {
                None => None,
                Some(a) => Some((a.lo, a.up)),
            }),
    {
        match self.imp {
            None => None,
            Some(a) => Some((a.lo, a.up)),
        }
    }

    /// Puts the bounds right after arithmetic on them: bounds in the wrong
    /// order change places, and bounds that enclose nothing are given up.
    pub fn fix_after_modification(&mut self)
        ensures
            total_order::<T>() ==> *final(self) == (match old(self).imp {
                None => *old(self),
                Some(a) => normalized(
                    a.lo.bound.val,
                    a.lo.bound.is_closed,
                    a.up.bound.val,
                    a.up.bound.is_closed,
                ),
            }),
            total_order::<T>() ==> final(self).wf(),
    {
        let mut set_empty = false;
        match self.imp.as_mut() {
            Some(a) => {
                if *a.lo.val() > *a.up.val() {
                    a.lo.swap(&mut a.up)
                }
                if *a.lo.val() == *a.up.val() && (!a.lo.is_closed() || !a.up.is_closed()) {
                    set_empty = true;
                }
            },
            None => {},
        }
        if set_empty {
            self.imp = None;
        }
    }

    /// Returns the upper bound; `None` if the interval is empty.
    pub fn upper(&self) -> (r: Option<&UpperBound<T>>)
        ensures
            r == (match self.imp {
                None => None,
                Some(a) => Some(&a.up),
            }),
    {
        match &self.imp {
            None => None,
            Some(a) => Some(&a.up),
        }
    }

    /// Returns the lower bound; `None` if the interval is empty.
    pub fn lower(&self) -> (r: Option<&LowerBound<T>>)
        ensures
            r == (match self.imp {
                None => None,
                Some(a) => Some(&a.lo),
            }),
    {
        match &self.imp {
            None => None,
            Some(a) => Some(&a.lo),
        }
    }

    /// Returns both bounds; `None` if the interval is empty.
    pub fn bounds(&self) -> (r: Option<(&LowerBound<T>, &UpperBound<T>)>)
        ensures
            r == (match self.imp {
                None => None,
                Some(a) => Some((&a.lo, &a.up)),
            }),
    {
        match &self.imp {
            None => None,
            Some(a) => Some((&a.lo, &a.up)),
        }
    }

    /// Checks if the interval is empty.
    pub fn is_empty(&self) -> (r: bool)
        ensures
            r == (self.imp is None),
    {
        self.imp.is_none()
    }

    /// Checks if the interval holds a single value.
    pub fn is_single(&self) -> (r: bool)
        ensures
            T::obeys_eq_spec() ==> r == (self.imp is Some && self.lo().bound.val.eq_spec(
                &self.up().bound.val,
            )),
    {
        match &self.imp {
            Some(a) => *a.lo.val() == *a.up.val(),
            None => false,
        }
    }

    /// Checks if the lower bound is closed; `None` if the interval is empty.
    pub fn is_lower_closed(&self) -> (r: Option<bool>)
        ensures
            r == (match self.imp {
                None => None,
                Some(a) => Some(a.lo.bound.is_closed),
            }),
    {
        match &self.imp {
            None => None,
            Some(a) => Some(a.lo.is_closed()),
        }
    }

    /// Checks if the upper bound is closed; `None` if the interval is empty.
    pub fn is_upper_closed(&self) -> (r: Option<bool>)
        ensures
            r == (match self.imp {
                None => None,
                Some(a) => Some(a.up.bound.is_closed),
            }),
    {
        match &self.imp {
            None => None,
            Some(a) => Some(a.up.is_closed()),
        }
    }
}

impl<T> Interval<T> where T: Ord {
    /// Checks if the interval lies neither wholly above nor wholly below
    /// `val`. This holds of the empty interval and every value.
    pub fn contains_val(&self, val: &T) -> (r: bool)
        ensures
            total_order::<T>() ==> r == !(self.above_val(*val) || self.below_val(*val)),
    {
        !(self.gt(val) || self.lt(val))
    }

    /// Checks if the bounds of `other` lie within the bounds of this interval.
    pub fn contains_interval(&self, other: &Self) -> (r: bool)
        ensures
            total_order::<T>() ==> r == self.encloses(*other),
    {
        let (l, u) = match self.bounds() {
            None => return other.is_empty(),
            Some(a) => a,
        };
        let (ol, ou) = match other.bounds() {
            None => return true,
            Some(a) => a,
        };
        *l <= *ol && *u >= *ou
    }

    /// Checks if two intervals can be merged into one.
    pub fn can_be_merged(&self, other: &Self) -> (r: bool)
        ensures
            total_order::<T>() ==> r == self.mergeable(*other),
    {
        let (lo, up) = match self.bounds() {
            None => return true,
            Some(a) => a,
        };
        let (olo, oup) = match other.bounds() {
            None => return true,
            Some(a) => a,
        };
        !(up.is_separated_from(olo) || oup.is_separated_from(lo))
    }

    /// Merges two intervals into one, or hands both back where there is room
    /// between them.
    pub fn into_merged(self, other: Self) -> (r: Result<Self, (Self, Self)>)
        requires
            total_order::<T>(),
            self.wf(),
            other.wf(),
        ensures
            r == (if self.mergeable(other) {
                Ok(self.hull(other))
            } else {
                Err((self, other))
            }),
            r is Ok ==> r->Ok_0.wf(),
    {
        if !self.can_be_merged(&other) {
            return Err((self, other));
        }
        if other.is_empty() {
            return Ok(self);
        }
        if self.is_empty() {
            return Ok(other);
        }
        let (l1, u1) = self.into_bounds().unwrap();
        let (l2, u2) = other.into_bounds().unwrap();
        Ok(Self::from_bounds(l1.min(l2), u1.max(u2)))
    }

    /// Merges `other` into this interval, or hands `other` back and leaves
    /// this interval as it is where there is room between them.
    pub fn merge(&mut self, other: Self) -> (r: Result<(), Self>)
        requires
            total_order::<T>(),
        ensures
            old(self).mergeable(other) ==> r is Ok && *final(self) == old(self).extended(other),
            !old(self).mergeable(other) ==> r == Err::<(), Self>(other) && *final(self) == *old(
                self),
            old(self).wf() && other.wf() ==> final(self).wf(),
    {
        let mut other = other;
        if !self.can_be_merged(&other) {
            return Err(other)
        }
        if self.imp.is_none() {
            core::mem::swap(self, &mut other);
            return Ok(());
        }
        let mut o = match other.imp {
            None => return Ok(()),
            Some(a) => a,
        };
        let s = self.imp.as_mut().unwrap();
        if o.lo < s.lo {
            core::mem::swap(&mut o.lo, &mut s.lo)
        }
        if o.up > s.up {
            core::mem::swap(&mut o.up, &mut s.up)
        }
        Ok(())
    }

    /// Checks if neither interval lies wholly above the other. This holds
    /// where one of them is empty.
    pub fn intersects(&self, other: &Self) -> (r: bool)
        ensures
            total_order::<T>() ==> r == !(self.above(*other) || self.below(*other)),
    {
        !(self.gt(other) || self.lt(other))
    }

    /// Converts two intervals into their intersection.
    pub fn into_intersection(self, other: Self) -> (r: Self)
        requires
            total_order::<T>(),
            self.wf(),
            other.wf(),
        ensures
            r == self.common(other),
            r.wf(),
    {
        if self.is_empty() {
            return self;
        }
        if other.is_empty() {
            return other;
        }
        if !self.intersects(&other) {
            return Self::empty();
        }
        let (l1, u1) = self.into_bounds().unwrap();
        let (l2, u2) = other.into_bounds().unwrap();
        Self::from_bounds(l1.max(l2), u1.min(u2))
    }

    /// Makes this interval the intersection of itself and `other`.
    pub fn intersection(&mut self, other: Self)
        requires
            total_order::<T>(),
        ensures
            *final(self) == old(self).narrowed(other),
            old(self).wf() && other.wf() ==> final(self).wf(),
    {
        if self.is_empty() || other.is_empty() || *self > other || *self < other {
            self.imp = None;
            return ;
        }
        let s = self.imp.as_mut().unwrap();
        let mut o = other.imp.unwrap();
        if s.lo < o.lo {
            core::mem::swap(&mut s.lo, &mut o.lo)
        }
        if s.up > o.up {
            core::mem::swap(&mut s.up, &mut o.up)
        }
    }

    /// Converts two intervals into the one that spans both of them.
    pub fn into_span(self, other: Self) -> (r: Self)
        requires
            total_order::<T>(),
            self.wf(),
            other.wf(),
        ensures
            r == self.hull(other),
            r.wf(),
    {
        if other.is_empty() {
            return self;
        }
        if self.is_empty() {
            return other;
        }
        let (l1, u1) = self.into_bounds().unwrap();
        let (l2, u2) = other.into_bounds().unwrap();
        Self::from_bounds(l1.min(l2), u1.max(u2))
    }

    /// Extends this interval so that it spans itself and `other`.
    pub fn span(&mut self, other: Self)
        requires
            total_order::<T>(),
        ensures
            *final(self) == old(self).extended(other),
            old(self).wf() && other.wf() ==> final(self).wf(),
    {
        let mut other = other;
        if other.is_empty() {
            return ;
        }
        if self.is_empty() {
            core::mem::swap(self, &mut other);
            return ;
        }
        let s = self.imp.as_mut().unwrap();
        let o = other.imp.as_mut().unwrap();
        if o.lo < s.lo {
            core::mem::swap(&mut o.lo, &mut s.lo);
        }
        if o.up > s.up {
            core::mem::swap(&mut s.up, &mut o.up);
        }
    }
}

} // verus!
