use super::interval::{normalized, Interval};
use super::order::total_order;
use crate::clone_law::exact_clone;
use core::ops::{Add, Div, Mul, Neg, Sub};
use vstd::prelude::*;
use vstd::std_specs::ops::{AddSpec, DivSpec, MulSpec, NegSpec, SubSpec};

verus! {

impl<T, U> Add<U> for Interval<T> where T: Ord + Add<U, Output = T>, U: Clone {
    type Output = Self;

    /// Adds `rhs` to both bounds. An empty interval stays empty.
    fn add(self, rhs: U) -> (r: Self)
        ensures
            total_order::<T>() && T::obeys_add_spec() ==> (match self.imp {
                None => r.imp is None,
                Some(a) => exists|c: U|
                    cloned(rhs, c) && r == normalized(
                        a.lo.bound.val.add_spec(rhs),
                        a.lo.bound.is_closed,
                        a.up.bound.val.add_spec(c),
                        a.up.bound.is_closed,
                    ),
            }),
            total_order::<T>() ==> r.wf(),
    {
        match self.imp {
            Some(mut a) => {
                let copy = rhs.clone();
                assert(cloned(rhs, copy));
                a.up = a.up + copy;
                a.lo = a.lo + rhs;
                let mut result = Self { imp: Some(a) };
                result.fix_after_modification();
                result
            },
            None => self,
        }
    }
}

impl<T, U> vstd::std_specs::ops::AddSpecImpl<U> for Interval<T> where T: Ord + Add<U, Output = T>, U: Clone {
    open spec fn obeys_add_spec() -> bool {
        total_order::<T>() && T::obeys_add_spec() && exact_clone::<U>()
    }

    open spec fn add_req(self, rhs: U) -> bool {
        match self.imp {
            None => true,
            Some(a) => a.lo.bound.val.add_req(rhs) && forall|c: U|
                cloned(rhs, c) ==> a.up.bound.val.add_req(c),
        }
    }

    open spec fn add_spec(self, rhs: U) -> Self {
        match self.imp {
            None => self,
            Some(a) => normalized(
                a.lo.bound.val.add_spec(rhs),
                a.lo.bound.is_closed,
                a.up.bound.val.add_spec(rhs),
                a.up.bound.is_closed,
            ),
        }
    }
}

impl<T, U> Sub<U> for Interval<T> where T: Ord + Sub<U, Output = T>, U: Clone {
    type Output = Self;

    /// Subtracts `rhs` from both bounds. An empty interval stays empty.
    fn sub(self, rhs: U) -> (r: Self)
        ensures
            total_order::<T>() && T::obeys_sub_spec() ==> (match self.imp {
                None => r.imp is None,
                Some(a) => exists|c: U|
                    cloned(rhs, c) && r == normalized(
                        a.lo.bound.val.sub_spec(rhs),
                        a.lo.bound.is_closed,
                        a.up.bound.val.sub_spec(c),
                        a.up.bound.is_closed,
                    ),
            }),
            total_order::<T>() ==> r.wf(),
    {
        match self.imp {
            Some(mut a) => {
                let copy = rhs.clone();
                assert(cloned(rhs, copy));
                a.up = a.up - copy;
                a.lo = a.lo - rhs;
                let mut result = Self { imp: Some(a) };
                result.fix_after_modification();
                result
            },
            None => self,
        }
    }
}

impl<T, U> vstd::std_specs::ops::SubSpecImpl<U> for Interval<T> where T: Ord + Sub<U, Output = T>, U: Clone {
    open spec fn obeys_sub_spec() -> bool {
        total_order::<T>() && T::obeys_sub_spec() && exact_clone::<U>()
    }

    open spec fn sub_req(self, rhs: U) -> bool {
        match self.imp {
            None => true,
            Some(a) => a.lo.bound.val.sub_req(rhs) && forall|c: U|
                cloned(rhs, c) ==> a.up.bound.val.sub_req(c),
        }
    }

    open spec fn sub_spec(self, rhs: U) -> Self {
        match self.imp {
            None => self,
            Some(a) => normalized(
                a.lo.bound.val.sub_spec(rhs),
                a.lo.bound.is_closed,
                a.up.bound.val.sub_spec(rhs),
                a.up.bound.is_closed,
            ),
        }
    }
}

impl<T, U> Mul<U> for Interval<T> where T: Ord + Mul<U, Output = T>, U: Clone {
    type Output = Self;

    /// Multiplies both bounds by `rhs` and puts them right again: a negative
    /// factor turns them round, and a factor of zero leaves one value or
    /// nothing. An empty interval stays empty.
    fn mul(self, rhs: U) -> (r: Self)
        ensures
            total_order::<T>() && T::obeys_mul_spec() ==> (match self.imp {
                None => r.imp is None,
                Some(a) => exists|c: U|
                    cloned(rhs, c) && r == normalized(
                        a.lo.bound.val.mul_spec(rhs),
                        a.lo.bound.is_closed,
                        a.up.bound.val.mul_spec(c),
                        a.up.bound.is_closed,
                    ),
            }),
            total_order::<T>() ==> r.wf(),
    {
        match self.imp {
            Some(mut a) => {
                let copy = rhs.clone();
                assert(cloned(rhs, copy));
                a.up = a.up * copy;
                a.lo = a.lo * rhs;
                let mut result = Self { imp: Some(a) };
                result.fix_after_modification();
                result
            },
            None => self,
        }
    }
}

impl<T, U> vstd::std_specs::ops::MulSpecImpl<U> for Interval<T> where T: Ord + Mul<U, Output = T>, U: Clone {
    open spec fn obeys_mul_spec() -> bool {
        total_order::<T>() && T::obeys_mul_spec() && exact_clone::<U>()
    }

    open spec fn mul_req(self, rhs: U) -> bool {
        match self.imp {
            None => true,
            Some(a) => a.lo.bound.val.mul_req(rhs) && forall|c: U|
                cloned(rhs, c) ==> a.up.bound.val.mul_req(c),
        }
    }

    open spec fn mul_spec(self, rhs: U) -> Self {
        match self.imp {
            None => self,
            Some(a) => normalized(
                a.lo.bound.val.mul_spec(rhs),
                a.lo.bound.is_closed,
                a.up.bound.val.mul_spec(rhs),
                a.up.bound.is_closed,
            ),
        }
    }
}

impl<T, U> Div<U> for Interval<T> where T: Ord + Div<U, Output = T>, U: Clone {
    type Output = Self;

    /// Divides both bounds by `rhs` and puts them right again: a negative
    /// divisor turns them round, and integer quotients can leave nothing
    /// between them. An empty interval stays empty.
    fn div(self, rhs: U) -> (r: Self)
        ensures
            total_order::<T>() && T::obeys_div_spec() ==> (match self.imp {
                None => r.imp is None,
                Some(a) => exists|c: U|
                    cloned(rhs, c) && r == normalized(
                        a.lo.bound.val.div_spec(rhs),
                        a.lo.bound.is_closed,
                        a.up.bound.val.div_spec(c),
                        a.up.bound.is_closed,
                    ),
            }),
            total_order::<T>() ==> r.wf(),
    {
        match self.imp {
            Some(mut a) => {
                let copy = rhs.clone();
                assert(cloned(rhs, copy));
                a.up = a.up / copy;
                a.lo = a.lo / rhs;
                let mut result = Self { imp: Some(a) };
                result.fix_after_modification();
                result
            },
            None => self,
        }
    }
}

impl<T, U> vstd::std_specs::ops::DivSpecImpl<U> for Interval<T> where T: Ord + Div<U, Output = T>, U: Clone {
    open spec fn obeys_div_spec() -> bool {
        total_order::<T>() && T::obeys_div_spec() && exact_clone::<U>()
    }

    open spec fn div_req(self, rhs: U) -> bool {
        match self.imp {
            None => true,
            Some(a) => a.lo.bound.val.div_req(rhs) && forall|c: U|
                cloned(rhs, c) ==> a.up.bound.val.div_req(c),
        }
    }

    open spec fn div_spec(self, rhs: U) -> Self {
        match self.imp {
            None => self,
            Some(a) => normalized(
                a.lo.bound.val.div_spec(rhs),
                a.lo.bound.is_closed,
                a.up.bound.val.div_spec(rhs),
                a.up.bound.is_closed,
            ),
        }
    }
}

impl<T> Interval<T> where T: Ord + Copy {
    /// Adds `rhs` to both bounds in place. An empty interval stays empty.
    pub fn add_assign(&mut self, rhs: T) where T: Add<T, Output = T>
        requires
            old(self).imp is Some ==> old(self).lo().bound.val.add_req(rhs) && old(
                self).up().bound.val.add_req(rhs),
        ensures
            total_order::<T>() && T::obeys_add_spec() ==> *final(self) == (match old(self).imp {
                None => *old(self),
                Some(a) => normalized(
                    a.lo.bound.val.add_spec(rhs),
                    a.lo.bound.is_closed,
                    a.up.bound.val.add_spec(rhs),
                    a.up.bound.is_closed,
                ),
            }),
            total_order::<T>() ==> final(self).wf(),
    {
        match self.imp.as_mut() {
            Some(a) => {
                a.lo.add_assign(rhs);
                a.up.add_assign(rhs);
            },
            None => {},
        }
        self.fix_after_modification()
    }

    /// Subtracts `rhs` from both bounds in place. An empty interval stays
    /// empty.
    pub fn sub_assign(&mut self, rhs: T) where T: Sub<T, Output = T>
        requires
            old(self).imp is Some ==> old(self).lo().bound.val.sub_req(rhs) && old(
                self).up().bound.val.sub_req(rhs),
        ensures
            total_order::<T>() && T::obeys_sub_spec() ==> *final(self) == (match old(self).imp {
                None => *old(self),
                Some(a) => normalized(
                    a.lo.bound.val.sub_spec(rhs),
                    a.lo.bound.is_closed,
                    a.up.bound.val.sub_spec(rhs),
                    a.up.bound.is_closed,
                ),
            }),
            total_order::<T>() ==> final(self).wf(),
    {
        match self.imp.as_mut() {
            Some(a) => {
                a.lo.sub_assign(rhs);
                a.up.sub_assign(rhs);
            },
            None => {},
        }
        self.fix_after_modification()
    }

    /// Multiplies both bounds by `rhs` in place and puts them right again.
    /// An empty interval stays empty.
    pub fn mul_assign(&mut self, rhs: T) where T: Mul<T, Output = T>
        requires
            old(self).imp is Some ==> old(self).lo().bound.val.mul_req(rhs) && old(
                self).up().bound.val.mul_req(rhs),
        ensures
            total_order::<T>() && T::obeys_mul_spec() ==> *final(self) == (match old(self).imp {
                None => *old(self),
                Some(a) => normalized(
                    a.lo.bound.val.mul_spec(rhs),
                    a.lo.bound.is_closed,
                    a.up.bound.val.mul_spec(rhs),
                    a.up.bound.is_closed,
                ),
            }),
            total_order::<T>() ==> final(self).wf(),
    {
        match self.imp.as_mut() {
            Some(a) => {
                a.lo.mul_assign(rhs);
                a.up.mul_assign(rhs);
            },
            None => {},
        }
        self.fix_after_modification()
    }

    /// Divides both bounds by `rhs` in place and puts them right again. An
    /// empty interval stays empty.
    pub fn div_assign(&mut self, rhs: T) where T: Div<T, Output = T>
        requires
            old(self).imp is Some ==> old(self).lo().bound.val.div_req(rhs) && old(
                self).up().bound.val.div_req(rhs),
        ensures
            total_order::<T>() && T::obeys_div_spec() ==> *final(self) == (match old(self).imp {
                None => *old(self),
                Some(a) => normalized(
                    a.lo.bound.val.div_spec(rhs),
                    a.lo.bound.is_closed,
                    a.up.bound.val.div_spec(rhs),
                    a.up.bound.is_closed,
                ),
            }),
            total_order::<T>() ==> final(self).wf(),
    {
        match self.imp.as_mut() {
            Some(a) => {
                a.lo.div_assign(rhs);
                a.up.div_assign(rhs);
            },
            None => {},
        }
        self.fix_after_modification()
    }

}

impl<T> Neg for Interval<T> where T: Ord + Neg<Output = T> {
    type Output = Self;

    /// Negates both bounds, which thereby change places. An empty interval
    /// stays empty.
    fn neg(self) -> (r: Self)
        ensures
            total_order::<T>() ==> r.wf(),
    {
        match self.into_tuple() {
            None => Self::empty(),
            Some((l, lc, u, uc)) => Self::create_friendly(u.neg(), uc, l.neg(), lc),
        }
    }
}

impl<T> vstd::std_specs::ops::NegSpecImpl for Interval<T> where T: Ord + Neg<Output = T> {
    open spec fn obeys_neg_spec() -> bool {
        total_order::<T>() && T::obeys_neg_spec()
    }

    open spec fn neg_req(self) -> bool {
        match self.imp {
            None => true,
            Some(a) => a.lo.bound.val.neg_req() && a.up.bound.val.neg_req(),
        }
    }

    open spec fn neg_spec(self) -> Self {
        match self.imp {
            None => Interval { imp: None },
            Some(a) => normalized(
                a.up.bound.val.neg_spec(),
                a.up.bound.is_closed,
                a.lo.bound.val.neg_spec(),
                a.lo.bound.is_closed,
            ),
        }
    }
}

} // verus!
