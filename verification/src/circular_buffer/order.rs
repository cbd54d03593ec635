use super::circular::CircularBuffer;
use core::cmp::Ordering;
use vstd::prelude::*;
use vstd::std_specs::cmp::{OrdSpec, PartialEqSpec, PartialOrdSpec};

verus! {

/// Whether two sequences have the same length and hold equal elements, place
/// by place, as the elements' own `==` sees it.
pub open spec fn elementwise_eq<T: PartialEq>(a: Seq<T>, b: Seq<T>) -> bool {
    &&& a.len() == b.len()
    &&& forall|i: int| 0 <= i < a.len() ==> (#[trigger] a[i]).eq_spec(&b[i])
}

/// Lexicographic comparison of two sequences by the elements' partial order:
/// the first place where the elements are not equal decides; where one
/// sequence is a prefix of the other, the shorter one is less.
pub open spec fn lexicographic_partial<T: PartialOrd>(a: Seq<T>, b: Seq<T>) -> Option<Ordering>
    decreases a.len(),
{
    if a.len() == 0 {
        if b.len() == 0 {
            Some(Ordering::Equal)
        } else {
            Some(Ordering::Less)
        }
    } else if b.len() == 0 {
        Some(Ordering::Greater)
    } else {
        match a[0].partial_cmp_spec(&b[0]) {
            Some(Ordering::Equal) => lexicographic_partial(a.drop_first(), b.drop_first()),
            decided => decided,
        }
    }
}

/// Lexicographic comparison of two sequences by the elements' total order.
pub open spec fn lexicographic<T: Ord>(a: Seq<T>, b: Seq<T>) -> Ordering
    decreases a.len(),
{
    if a.len() == 0 {
        if b.len() == 0 {
            Ordering::Equal
        } else {
            Ordering::Less
        }
    } else if b.len() == 0 {
        Ordering::Greater
    } else {
        match a[0].cmp_spec(&b[0]) {
            Ordering::Equal => lexicographic(a.drop_first(), b.drop_first()),
            decided => decided,
        }
    }
}

impl<T> CircularBuffer<T> {
    /// Two buffers are equal when they hold equal elements in the same order,
    /// wherever these lie in the storage.
    pub fn eq(&self, other: &Self) -> (r: bool) where T: PartialEq
        requires
            self.wf(),
            other.wf(),
        ensures
            T::obeys_eq_spec() ==> r == elementwise_eq(self@, other@),
    {
        let n = self.len();
        if n != other.len() {
            return false;
        }
        let mut i: usize = 0;
        while i < n
            invariant
                self.wf(),
                other.wf(),
                n == self@.len(),
                n == other@.len(),
                i <= n,
                T::obeys_eq_spec() ==> forall|k: int|
                    0 <= k < i ==> (#[trigger] self@[k]).eq_spec(&other@[k]),
            decreases n - i,
        {
            if !(self[i] == other[i]) {
                return false;
            }
            i += 1;
        }
        true
    }

    /// A buffer equals a slice when it holds equal elements in the same order.
    pub fn eq_slice(&self, other: &[T]) -> (r: bool) where T: PartialEq
        requires
            self.wf(),
        ensures
            T::obeys_eq_spec() ==> r == elementwise_eq(self@, other@),
    {
        let n = self.len();
        if n != other.len() {
            return false;
        }
        let mut i: usize = 0;
        while i < n
            invariant
                self.wf(),
                n == self@.len(),
                n == other@.len(),
                i <= n,
                T::obeys_eq_spec() ==> forall|k: int|
                    0 <= k < i ==> (#[trigger] self@[k]).eq_spec(&other@[k]),
            decreases n - i,
        {
            if !(self[i] == other[i]) {
                return false;
            }
            i += 1;
        }
        true
    }

    /// Compares two buffers lexicographically, front to back, by the
    /// elements' partial order.
    pub fn partial_cmp(&self, other: &Self) -> (r: Option<Ordering>) where T: PartialOrd
        requires
            self.wf(),
            other.wf(),
        ensures
            T::obeys_partial_cmp_spec() ==> r == lexicographic_partial(self@, other@),
    {
        let n = self.len();
        let m = other.len();
        let mut i: usize = 0;
        let ghost k: int = 0;
        proof {
            assert(self@.skip(0) =~= self@);
            assert(other@.skip(0) =~= other@);
        }
        loop
            invariant
                self.wf(),
                other.wf(),
                n == self@.len(),
                m == other@.len(),
                k == i,
                i <= n,
                i <= m,
                T::obeys_partial_cmp_spec() ==> lexicographic_partial(self@, other@)
                    == lexicographic_partial(self@.skip(k), other@.skip(k)),
            decreases n - i,
        {
            if i == n {
                return if i == m {
                    Some(Ordering::Equal)
                } else {
                    Some(Ordering::Less)
                };
            }
            if i == m {
                return Some(Ordering::Greater);
            }
            proof {
                assert(self@.skip(k)[0] == self@[k]);
                assert(other@.skip(k)[0] == other@[k]);
                assert(self@.skip(k).drop_first() =~= self@.skip(k + 1));
                assert(other@.skip(k).drop_first() =~= other@.skip(k + 1));
            }
            match self[i].partial_cmp(&other[i]) {
                Some(Ordering::Equal) => {},
                decided => {
                    return decided;
                },
            }
            i += 1;
            proof {
                k = k + 1;
            }
        }
    }

    /// Compares two buffers lexicographically, front to back, by the
    /// elements' total order.
    pub fn cmp(&self, other: &Self) -> (r: Ordering) where T: Ord
        requires
            self.wf(),
            other.wf(),
        ensures
            T::obeys_cmp_spec() ==> r == lexicographic(self@, other@),
    {
        let n = self.len();
        let m = other.len();
        let mut i: usize = 0;
        let ghost k: int = 0;
        proof {
            assert(self@.skip(0) =~= self@);
            assert(other@.skip(0) =~= other@);
        }
        loop
            invariant
                self.wf(),
                other.wf(),
                n == self@.len(),
                m == other@.len(),
                k == i,
                i <= n,
                i <= m,
                T::obeys_cmp_spec() ==> lexicographic(self@, other@) == lexicographic(
                    self@.skip(k),
                    other@.skip(k),
                ),
            decreases n - i,
        {
            if i == n {
                return if i == m {
                    Ordering::Equal
                } else {
                    Ordering::Less
                };
            }
            if i == m {
                return Ordering::Greater;
            }
            proof {
                assert(self@.skip(k)[0] == self@[k]);
                assert(other@.skip(k)[0] == other@[k]);
                assert(self@.skip(k).drop_first() =~= self@.skip(k + 1));
                assert(other@.skip(k).drop_first() =~= other@.skip(k + 1));
            }
            match self[i].cmp(&other[i]) {
                Ordering::Equal => {},
                decided => {
                    return decided;
                },
            }
            i += 1;
            proof {
                k = k + 1;
            }
        }
    }
}

} // verus!
