use super::bounds::{Bound, LowerBound, UpperBound};
use core::ops::{Add, Div, Mul, Sub};
use vstd::prelude::*;
use vstd::std_specs::ops::{AddSpec, DivSpec, MulSpec, SubSpec};

verus! {

impl<T, U> Add<U> for Bound<T> where T: Ord + Add<U, Output = T> {
    type Output = Bound<T>;

    /// Adds `rhs` to the value of the bound; its closedness stays.
    fn add(self, rhs: U) -> (r: Bound<T>) {
        Bound { val: self.val + rhs, is_closed: self.is_closed }
    }
}

impl<T, U> vstd::std_specs::ops::AddSpecImpl<U> for Bound<T> where T: Ord + Add<U, Output = T> {
    open spec fn obeys_add_spec() -> bool {
        T::obeys_add_spec()
    }

    open spec fn add_req(self, rhs: U) -> bool {
        self.val.add_req(rhs)
    }

    open spec fn add_spec(self, rhs: U) -> Bound<T> {
        Bound { val: self.val.add_spec(rhs), is_closed: self.is_closed }
    }
}

impl<T, U> Sub<U> for Bound<T> where T: Ord + Sub<U, Output = T> {
    type Output = Bound<T>;

    /// Subtracts `rhs` from the value of the bound; its closedness stays.
    fn sub(self, rhs: U) -> (r: Bound<T>) {
        Bound { val: self.val - rhs, is_closed: self.is_closed }
    }
}

impl<T, U> vstd::std_specs::ops::SubSpecImpl<U> for Bound<T> where T: Ord + Sub<U, Output = T> {
    open spec fn obeys_sub_spec() -> bool {
        T::obeys_sub_spec()
    }

    open spec fn sub_req(self, rhs: U) -> bool {
        self.val.sub_req(rhs)
    }

    open spec fn sub_spec(self, rhs: U) -> Bound<T> {
        Bound { val: self.val.sub_spec(rhs), is_closed: self.is_closed }
    }
}

impl<T, U> Mul<U> for Bound<T> where T: Ord + Mul<U, Output = T> {
    type Output = Bound<T>;

    /// Multiplies the value of the bound by `rhs`; its closedness stays.
    fn mul(self, rhs: U) -> (r: Bound<T>) {
        Bound { val: self.val * rhs, is_closed: self.is_closed }
    }
}

impl<T, U> vstd::std_specs::ops::MulSpecImpl<U> for Bound<T> where T: Ord + Mul<U, Output = T> {
    open spec fn obeys_mul_spec() -> bool {
        T::obeys_mul_spec()
    }

    open spec fn mul_req(self, rhs: U) -> bool {
        self.val.mul_req(rhs)
    }

    open spec fn mul_spec(self, rhs: U) -> Bound<T> {
        Bound { val: self.val.mul_spec(rhs), is_closed: self.is_closed }
    }
}

impl<T, U> Div<U> for Bound<T> where T: Ord + Div<U, Output = T> {
    type Output = Bound<T>;

    /// Divides the value of the bound by `rhs`; its closedness stays.
    fn div(self, rhs: U) -> (r: Bound<T>) {
        Bound { val: self.val / rhs, is_closed: self.is_closed }
    }
}

impl<T, U> vstd::std_specs::ops::DivSpecImpl<U> for Bound<T> where T: Ord + Div<U, Output = T> {
    open spec fn obeys_div_spec() -> bool {
        T::obeys_div_spec()
    }

    open spec fn div_req(self, rhs: U) -> bool {
        self.val.div_req(rhs)
    }

    open spec fn div_spec(self, rhs: U) -> Bound<T> {
        Bound { val: self.val.div_spec(rhs), is_closed: self.is_closed }
    }
}

impl<T> Bound<T> where T: Ord + Copy {
    /// Adds `rhs` to the value of the bound; its closedness stays.
    pub fn add_assign<U>(&mut self, rhs: U) where T: Add<U, Output = T>
        requires
            old(self).val.add_req(rhs),
        ensures
            T::obeys_add_spec() ==> final(self).val == old(self).val.add_spec(rhs),
            final(self).is_closed == old(self).is_closed,
    {
        self.val = self.val + rhs;
    }

    /// Subtracts `rhs` from the value of the bound; its closedness stays.
    pub fn sub_assign<U>(&mut self, rhs: U) where T: Sub<U, Output = T>
        requires
            old(self).val.sub_req(rhs),
        ensures
            T::obeys_sub_spec() ==> final(self).val == old(self).val.sub_spec(rhs),
            final(self).is_closed == old(self).is_closed,
    {
        self.val = self.val - rhs;
    }

    /// Multiplies the value of the bound by `rhs`; its closedness stays.
    pub fn mul_assign<U>(&mut self, rhs: U) where T: Mul<U, Output = T>
        requires
            old(self).val.mul_req(rhs),
        ensures
            T::obeys_mul_spec() ==> final(self).val == old(self).val.mul_spec(rhs),
            final(self).is_closed == old(self).is_closed,
    {
        self.val = self.val * rhs;
    }

    /// Divides the value of the bound by `rhs`; its closedness stays.
    pub fn div_assign<U>(&mut self, rhs: U) where T: Div<U, Output = T>
        requires
            old(self).val.div_req(rhs),
        ensures
            T::obeys_div_spec() ==> final(self).val == old(self).val.div_spec(rhs),
            final(self).is_closed == old(self).is_closed,
    {
        self.val = self.val / rhs;
    }

}

impl<T, U> Add<U> for LowerBound<T> where T: Ord + Add<U, Output = T> {
    type Output = Self;

    /// Adds `rhs` to the value of the lower bound; its closedness stays.
    fn add(self, rhs: U) -> (r: Self) {
        Self { bound: self.bound + rhs }
    }
}

impl<T, U> vstd::std_specs::ops::AddSpecImpl<U> for LowerBound<T> where T: Ord + Add<U, Output = T> {
    open spec fn obeys_add_spec() -> bool {
        T::obeys_add_spec()
    }

    open spec fn add_req(self, rhs: U) -> bool {
        self.bound.val.add_req(rhs)
    }

    open spec fn add_spec(self, rhs: U) -> Self {
        LowerBound { bound: Bound { val: self.bound.val.add_spec(rhs), is_closed: self.bound.is_closed } }
    }
}

impl<T, U> Sub<U> for LowerBound<T> where T: Ord + Sub<U, Output = T> {
    type Output = Self;

    /// Subtracts `rhs` from the value of the lower bound; its closedness stays.
    fn sub(self, rhs: U) -> (r: Self) {
        Self { bound: self.bound - rhs }
    }
}

impl<T, U> vstd::std_specs::ops::SubSpecImpl<U> for LowerBound<T> where T: Ord + Sub<U, Output = T> {
    open spec fn obeys_sub_spec() -> bool {
        T::obeys_sub_spec()
    }

    open spec fn sub_req(self, rhs: U) -> bool {
        self.bound.val.sub_req(rhs)
    }

    open spec fn sub_spec(self, rhs: U) -> Self {
        LowerBound { bound: Bound { val: self.bound.val.sub_spec(rhs), is_closed: self.bound.is_closed } }
    }
}

impl<T, U> Mul<U> for LowerBound<T> where T: Ord + Mul<U, Output = T> {
    type Output = Self;

    /// Multiplies the value of the lower bound by `rhs`; its closedness stays.
    fn mul(self, rhs: U) -> (r: Self) {
        Self { bound: self.bound * rhs }
    }
}

impl<T, U> vstd::std_specs::ops::MulSpecImpl<U> for LowerBound<T> where T: Ord + Mul<U, Output = T> {
    open spec fn obeys_mul_spec() -> bool {
        T::obeys_mul_spec()
    }

    open spec fn mul_req(self, rhs: U) -> bool {
        self.bound.val.mul_req(rhs)
    }

    open spec fn mul_spec(self, rhs: U) -> Self {
        LowerBound { bound: Bound { val: self.bound.val.mul_spec(rhs), is_closed: self.bound.is_closed } }
    }
}

impl<T, U> Div<U> for LowerBound<T> where T: Ord + Div<U, Output = T> {
    type Output = Self;

    /// Divides the value of the lower bound by `rhs`; its closedness stays.
    fn div(self, rhs: U) -> (r: Self) {
        Self { bound: self.bound / rhs }
    }
}

impl<T, U> vstd::std_specs::ops::DivSpecImpl<U> for LowerBound<T> where T: Ord + Div<U, Output = T> {
    open spec fn obeys_div_spec() -> bool {
        T::obeys_div_spec()
    }

    open spec fn div_req(self, rhs: U) -> bool {
        self.bound.val.div_req(rhs)
    }

    open spec fn div_spec(self, rhs: U) -> Self {
        LowerBound { bound: Bound { val: self.bound.val.div_spec(rhs), is_closed: self.bound.is_closed } }
    }
}

impl<T> LowerBound<T> where T: Ord + Copy {
    /// Adds `rhs` to the value of the lower bound; its closedness stays.
    pub fn add_assign<U>(&mut self, rhs: U) where T: Add<U, Output = T>
        requires
            old(self).bound.val.add_req(rhs),
        ensures
            T::obeys_add_spec() ==> final(self).bound.val == old(self).bound.val.add_spec(rhs),
            final(self).bound.is_closed == old(self).bound.is_closed,
    {
        self.bound.add_assign(rhs);
    }

    /// Subtracts `rhs` from the value of the lower bound; its closedness stays.
    pub fn sub_assign<U>(&mut self, rhs: U) where T: Sub<U, Output = T>
        requires
            old(self).bound.val.sub_req(rhs),
        ensures
            T::obeys_sub_spec() ==> final(self).bound.val == old(self).bound.val.sub_spec(rhs),
            final(self).bound.is_closed == old(self).bound.is_closed,
    {
        self.bound.sub_assign(rhs);
    }

    /// Multiplies the value of the lower bound by `rhs`; its closedness stays.
    pub fn mul_assign<U>(&mut self, rhs: U) where T: Mul<U, Output = T>
        requires
            old(self).bound.val.mul_req(rhs),
        ensures
            T::obeys_mul_spec() ==> final(self).bound.val == old(self).bound.val.mul_spec(rhs),
            final(self).bound.is_closed == old(self).bound.is_closed,
    {
        self.bound.mul_assign(rhs);
    }

    /// Divides the value of the lower bound by `rhs`; its closedness stays.
    pub fn div_assign<U>(&mut self, rhs: U) where T: Div<U, Output = T>
        requires
            old(self).bound.val.div_req(rhs),
        ensures
            T::obeys_div_spec() ==> final(self).bound.val == old(self).bound.val.div_spec(rhs),
            final(self).bound.is_closed == old(self).bound.is_closed,
    {
        self.bound.div_assign(rhs);
    }

}

impl<T, U> Add<U> for UpperBound<T> where T: Ord + Add<U, Output = T> {
    type Output = Self;

    /// Adds `rhs` to the value of the upper bound; its closedness stays.
    fn add(self, rhs: U) -> (r: Self) {
        Self { bound: self.bound + rhs }
    }
}

impl<T, U> vstd::std_specs::ops::AddSpecImpl<U> for UpperBound<T> where T: Ord + Add<U, Output = T> {
    open spec fn obeys_add_spec() -> bool {
        T::obeys_add_spec()
    }

    open spec fn add_req(self, rhs: U) -> bool {
        self.bound.val.add_req(rhs)
    }

    open spec fn add_spec(self, rhs: U) -> Self {
        UpperBound { bound: Bound { val: self.bound.val.add_spec(rhs), is_closed: self.bound.is_closed } }
    }
}

impl<T, U> Sub<U> for UpperBound<T> where T: Ord + Sub<U, Output = T> {
    type Output = Self;

    /// Subtracts `rhs` from the value of the upper bound; its closedness stays.
    fn sub(self, rhs: U) -> (r: Self) {
        Self { bound: self.bound - rhs }
    }
}

impl<T, U> vstd::std_specs::ops::SubSpecImpl<U> for UpperBound<T> where T: Ord + Sub<U, Output = T> {
    open spec fn obeys_sub_spec() -> bool {
        T::obeys_sub_spec()
    }

    open spec fn sub_req(self, rhs: U) -> bool {
        self.bound.val.sub_req(rhs)
    }

    open spec fn sub_spec(self, rhs: U) -> Self {
        UpperBound { bound: Bound { val: self.bound.val.sub_spec(rhs), is_closed: self.bound.is_closed } }
    }
}

impl<T, U> Mul<U> for UpperBound<T> where T: Ord + Mul<U, Output = T> {
    type Output = Self;

    /// Multiplies the value of the upper bound by `rhs`; its closedness stays.
    fn mul(self, rhs: U) -> (r: Self) {
        Self { bound: self.bound * rhs }
    }
}

impl<T, U> vstd::std_specs::ops::MulSpecImpl<U> for UpperBound<T> where T: Ord + Mul<U, Output = T> {
    open spec fn obeys_mul_spec() -> bool {
        T::obeys_mul_spec()
    }

    open spec fn mul_req(self, rhs: U) -> bool {
        self.bound.val.mul_req(rhs)
    }

    open spec fn mul_spec(self, rhs: U) -> Self {
        UpperBound { bound: Bound { val: self.bound.val.mul_spec(rhs), is_closed: self.bound.is_closed } }
    }
}

impl<T, U> Div<U> for UpperBound<T> where T: Ord + Div<U, Output = T> {
    type Output = Self;

    /// Divides the value of the upper bound by `rhs`; its closedness stays.
    fn div(self, rhs: U) -> (r: Self) {
        Self { bound: self.bound / rhs }
    }
}

impl<T, U> vstd::std_specs::ops::DivSpecImpl<U> for UpperBound<T> where T: Ord + Div<U, Output = T> {
    open spec fn obeys_div_spec() -> bool {
        T::obeys_div_spec()
    }

    open spec fn div_req(self, rhs: U) -> bool {
        self.bound.val.div_req(rhs)
    }

    open spec fn div_spec(self, rhs: U) -> Self {
        UpperBound { bound: Bound { val: self.bound.val.div_spec(rhs), is_closed: self.bound.is_closed } }
    }
}

impl<T> UpperBound<T> where T: Ord + Copy {
    /// Adds `rhs` to the value of the upper bound; its closedness stays.
    pub fn add_assign<U>(&mut self, rhs: U) where T: Add<U, Output = T>
        requires
            old(self).bound.val.add_req(rhs),
        ensures
            T::obeys_add_spec() ==> final(self).bound.val == old(self).bound.val.add_spec(rhs),
            final(self).bound.is_closed == old(self).bound.is_closed,
    {
        self.bound.add_assign(rhs);
    }

    /// Subtracts `rhs` from the value of the upper bound; its closedness stays.
    pub fn sub_assign<U>(&mut self, rhs: U) where T: Sub<U, Output = T>
        requires
            old(self).bound.val.sub_req(rhs),
        ensures
            T::obeys_sub_spec() ==> final(self).bound.val == old(self).bound.val.sub_spec(rhs),
            final(self).bound.is_closed == old(self).bound.is_closed,
    {
        self.bound.sub_assign(rhs);
    }

    /// Multiplies the value of the upper bound by `rhs`; its closedness stays.
    pub fn mul_assign<U>(&mut self, rhs: U) where T: Mul<U, Output = T>
        requires
            old(self).bound.val.mul_req(rhs),
        ensures
            T::obeys_mul_spec() ==> final(self).bound.val == old(self).bound.val.mul_spec(rhs),
            final(self).bound.is_closed == old(self).bound.is_closed,
    {
        self.bound.mul_assign(rhs);
    }

    /// Divides the value of the upper bound by `rhs`; its closedness stays.
    pub fn div_assign<U>(&mut self, rhs: U) where T: Div<U, Output = T>
        requires
            old(self).bound.val.div_req(rhs),
        ensures
            T::obeys_div_spec() ==> final(self).bound.val == old(self).bound.val.div_spec(rhs),
            final(self).bound.is_closed == old(self).bound.is_closed,
    {
        self.bound.div_assign(rhs);
    }

}

} // verus!
