use super::iter::{Drain, IntoIter};
use vstd::prelude::*;

verus! {

/// A double-ended queue of fixed capacity that overwrites on overflow.
///
/// The storage has one slot more than the capacity, so that two cursors are
/// enough to tell an empty buffer from a full one. A slot holds `Some` value
/// exactly when it lies in the window that starts at `start` and ends just
/// before `end`, wrapping round the end of the storage.
pub struct CircularBuffer<T> {
    buffer: Vec<Option<T>>,
    start: usize,
    end: usize,
}

impl<T> View for CircularBuffer<T> {
    type V = Seq<T>;

    /// The elements from front to back.
    open spec fn view(&self) -> Seq<T> {
        Seq::new(self.spec_len(), |i: int| self.slots()[self.physical(i)].unwrap())
    }
}

impl<T> CircularBuffer<T> {
    /// The backing storage, slot by slot.
    pub closed spec fn slots(&self) -> Seq<Option<T>> {
        self.buffer@
    }

    /// Physical index of the first element.
    pub closed spec fn start_pos(&self) -> int {
        self.start as int
    }

    /// Physical index one past the last element.
    pub closed spec fn end_pos(&self) -> int {
        self.end as int
    }

    /// Whether the physical slot `p` lies in the window of live elements.
    pub open spec fn in_window(&self, p: int) -> bool {
        if self.start_pos() <= self.end_pos() {
            self.start_pos() <= p < self.end_pos()
        } else {
            self.start_pos() <= p < self.slots().len() || 0 <= p < self.end_pos()
        }
    }

    /// Well-formedness: both cursors point into the storage, and exactly the
    /// slots of the window are occupied.
    pub open spec fn wf(&self) -> bool {
        &&& 0 <= self.start_pos() < self.slots().len()
        &&& 0 <= self.end_pos() < self.slots().len()
        &&& forall|p: int|
            0 <= p < self.slots().len() ==> ((#[trigger] self.slots()[p]) is Some
                <==> self.in_window(p))
    }

    /// Number of live elements.
    pub open spec fn spec_len(&self) -> nat {
        if self.start_pos() <= self.end_pos() {
            (self.end_pos() - self.start_pos()) as nat
        } else {
            (self.slots().len() + self.end_pos() - self.start_pos()) as nat
        }
    }

    /// Largest number of elements the buffer can hold.
    pub open spec fn spec_capacity(&self) -> nat {
        (self.slots().len() - 1) as nat
    }

    /// Physical slot of the element with logical index `i`.
    pub open spec fn physical(&self, i: int) -> int {
        if self.start_pos() + i < self.slots().len() {
            self.start_pos() + i
        } else {
            self.start_pos() + i - self.slots().len()
        }
    }

    /// The cursor position that follows `p`, wrapping at the end of the storage.
    pub open spec fn next_pos(&self, p: int) -> int {
        if p + 1 == self.slots().len() {
            0
        } else {
            p + 1
        }
    }

    /// The cursor position that precedes `p`, wrapping at the start of the storage.
    pub open spec fn prev_pos(&self, p: int) -> int {
        if p == 0 {
            self.slots().len() - 1
        } else {
            p - 1
        }
    }

    /// Physical index just past the first run of live slots.
    pub open spec fn first_run_end(&self) -> int {
        if self.start_pos() <= self.end_pos() {
            self.end_pos()
        } else {
            self.slots().len() as int
        }
    }

    /// Length of the run of live slots that wrapped to the start of the storage.
    pub open spec fn wrapped_len(&self) -> int {
        if self.start_pos() <= self.end_pos() {
            0
        } else {
            self.end_pos()
        }
    }

    /// Whether every slot of `s` holds a value.
    pub open spec fn all_occupied(s: Seq<Option<T>>) -> bool {
        forall|i: int| 0 <= i < s.len() ==> (#[trigger] s[i]) is Some
    }

    /// The values held by a run of occupied slots.
    pub open spec fn values(s: Seq<Option<T>>) -> Seq<T> {
        Seq::new(s.len(), |i: int| s[i].unwrap())
    }

    /// The last `n` elements of `s`, or all of `s` if it has no more than `n`.
    pub open spec fn keep_last(s: Seq<T>, n: nat) -> Seq<T> {
        if s.len() <= n {
            s
        } else {
            s.subrange(s.len() - n, s.len() as int)
        }
    }

    /// The first `n` elements of `s`, or all of `s` if it has no more than `n`.
    pub open spec fn keep_first(s: Seq<T>, n: nat) -> Seq<T> {
        if s.len() <= n {
            s
        } else {
            s.subrange(0, n as int)
        }
    }
}

impl<T> CircularBuffer<T> {
    /// Creates an empty buffer with room for `capacity` elements.
    pub fn new(capacity: usize) -> (r: Self)
        requires
            capacity < usize::MAX,
        ensures
            r.wf(),
            r@ == Seq::<T>::empty(),
            r.spec_capacity() == capacity,
            r.start_pos() == 0,
            r.end_pos() == 0,
    {
        Self::with_capacity(capacity)
    }

    /// Creates an empty buffer with room for `capacity` elements.
    pub fn with_capacity(capacity: usize) -> (r: Self)
        requires
            capacity < usize::MAX,
        ensures
            r.wf(),
            r@ == Seq::<T>::empty(),
            r.spec_capacity() == capacity,
            r.start_pos() == 0,
            r.end_pos() == 0,
    {
        let mut buffer: Vec<Option<T>> = Vec::with_capacity(capacity + 1);
        let mut i: usize = 0;
        while i < capacity + 1
            invariant
                capacity < usize::MAX,
                i <= capacity + 1,
                buffer@.len() == i,
                forall|p: int| 0 <= p < i ==> (#[trigger] buffer@[p]) is None,
            decreases capacity + 1 - i,
        {
            buffer.push(None);
            i += 1;
        }
        let r = Self { buffer, start: 0, end: 0 };
        assert(r@ =~= Seq::<T>::empty());
        r
    }

    /// Returns the current number of elements.
    pub fn len(&self) -> (n: usize)
        requires
            self.wf(),
        ensures
            n == self@.len(),
            n == self.spec_len(),
            n <= self.spec_capacity(),
    {
        if self.start <= self.end {
            self.end - self.start
        } else {
            self.buffer.len() - (self.start - self.end)
        }
    }

    /// Returns the largest number of elements the buffer can hold.
    pub fn capacity(&self) -> (n: usize)
        requires
            self.wf(),
        ensures
            n == self.spec_capacity(),
    {
        self.buffer.len() - 1
    }

    /// Checks if the buffer holds no element.
    pub fn is_empty(&self) -> (b: bool)
        requires
            self.wf(),
        ensures
            b <==> self@.len() == 0,
            b <==> self.start_pos() == self.end_pos(),
    {
        self.end == self.start
    }

    /// Checks if the buffer holds as many elements as it can.
    pub fn is_full(&self) -> (b: bool)
        requires
            self.wf(),
        ensures
            b <==> self@.len() == self.spec_capacity(),
    {
        self.len() == self.capacity()
    }
}

impl<T> CircularBuffer<T> {
    fn internal_index(&self, index: usize) -> (p: usize)
        requires
            self.wf(),
            index < self@.len(),
        ensures
            p == self.physical(index as int),
            0 <= p < self.slots().len(),
            self.in_window(p as int),
    {
        if self.buffer.len() - self.start > index {
            self.start + index
        } else {
            index - (self.buffer.len() - self.start)
        }
    }

    fn incr_end(&mut self)
        requires
            old(self).end_pos() < old(self).slots().len(),
        ensures
            final(self).slots() == old(self).slots(),
            final(self).start_pos() == old(self).start_pos(),
            final(self).end_pos() == old(self).next_pos(old(self).end_pos()),
    {
        let storage_len = self.buffer.len();
        self.end = if self.end + 1 == storage_len {
            0
        } else {
            self.end + 1
        }
    }

    fn decr_end(&mut self)
        requires
            0 <= old(self).end_pos() < old(self).slots().len(),
        ensures
            final(self).slots() == old(self).slots(),
            final(self).start_pos() == old(self).start_pos(),
            final(self).end_pos() == old(self).prev_pos(old(self).end_pos()),
    {
        self.end = if self.end == 0 {
            self.buffer.len() - 1
        } else {
            self.end - 1
        }
    }

    fn incr_start(&mut self)
        requires
            old(self).start_pos() < old(self).slots().len(),
        ensures
            final(self).slots() == old(self).slots(),
            final(self).end_pos() == old(self).end_pos(),
            final(self).start_pos() == old(self).next_pos(old(self).start_pos()),
    {
        let storage_len = self.buffer.len();
        self.start = if self.start + 1 == storage_len {
            0
        } else {
            self.start + 1
        }
    }

    fn decr_start(&mut self)
        requires
            0 <= old(self).start_pos() < old(self).slots().len(),
        ensures
            final(self).slots() == old(self).slots(),
            final(self).end_pos() == old(self).end_pos(),
            final(self).start_pos() == old(self).prev_pos(old(self).start_pos()),
    {
        self.start = if self.start == 0 {
            self.buffer.len() - 1
        } else {
            self.start - 1
        }
    }

    fn pop_at(&mut self, index: usize) -> (val: T)
        requires
            index < old(self).slots().len(),
            old(self).slots()[index as int] is Some,
        ensures
            val == old(self).slots()[index as int].unwrap(),
            final(self).slots() == old(self).slots().update(index as int, None),
            final(self).start_pos() == old(self).start_pos(),
            final(self).end_pos() == old(self).end_pos(),
    {
        let taken = self.buffer[index].take();
        taken.unwrap()
    }

    fn push_at(&mut self, val: T, index: usize)
        requires
            index < old(self).slots().len(),
        ensures
            final(self).slots() == old(self).slots().update(index as int, Some(val)),
            final(self).start_pos() == old(self).start_pos(),
            final(self).end_pos() == old(self).end_pos(),
    {
        self.buffer[index] = Some(val);
    }

    fn swap_slots(&mut self, pa: usize, pb: usize)
        requires
            pa < old(self).slots().len(),
            pb < old(self).slots().len(),
        ensures
            final(self).slots() == old(self).slots().update(
                pa as int,
                old(self).slots()[pb as int],
            ).update(pb as int, old(self).slots()[pa as int]),
            final(self).start_pos() == old(self).start_pos(),
            final(self).end_pos() == old(self).end_pos(),
    {
        let va = self.buffer[pa].take();
        let vb = self.buffer[pb].take();
        self.buffer[pa] = vb;
        self.buffer[pb] = va;
        proof {
            assert(self.buffer@ =~= old(self).buffer@.update(
                pa as int,
                old(self).buffer@[pb as int],
            ).update(pb as int, old(self).buffer@[pa as int]));
        }
    }
}

impl<T> CircularBuffer<T> {
    /// Places `val` behind the last element.
    ///
    /// A full buffer first gives up its first element. A buffer of capacity
    /// zero stays empty: the value is dropped.
    pub fn push_back(&mut self, val: T)
        requires
            old(self).wf(),
        ensures
            final(self).wf(),
            final(self).spec_capacity() == old(self).spec_capacity(),
            final(self)@ == Self::keep_last(old(self)@.push(val), old(self).spec_capacity()),
            old(self).spec_capacity() > 0 ==> final(self).end_pos() == old(self).next_pos(
                old(self).end_pos(),
            ),
            old(self)@.len() < old(self).spec_capacity() ==> final(self).start_pos() == old(self).start_pos(),
            old(self)@.len() == old(self).spec_capacity() > 0 ==> final(self).start_pos() == old(self).next_pos(old(self).start_pos()),
            old(self).spec_capacity() == 0 ==> final(self).start_pos() == old(self).start_pos()
                && final(self).end_pos() == old(self).end_pos(),
    {
        if self.is_full() {
            if self.capacity() == 0 {
                return ;
            } else {
                self.pop_front();
            }
        }
        let ghost mid = *self;
        self.push_at(val, self.end);
        self.incr_end();
        proof {
            assert(final(self)@ =~= mid@.push(val));
        }
    }

    /// Places `val` before the first element.
    ///
    /// A full buffer first gives up its last element. A buffer of capacity
    /// zero stays empty: the value is dropped.
    pub fn push_front(&mut self, val: T)
        requires
            old(self).wf(),
        ensures
            final(self).wf(),
            final(self).spec_capacity() == old(self).spec_capacity(),
            final(self)@ == Self::keep_first(seq![val] + old(self)@, old(self).spec_capacity()),
            old(self).spec_capacity() > 0 ==> final(self).start_pos() == old(self).prev_pos(
                old(self).start_pos(),
            ),
            old(self)@.len() < old(self).spec_capacity() ==> final(self).end_pos() == old(self).end_pos(),
            old(self)@.len() == old(self).spec_capacity() > 0 ==> final(self).end_pos() == old(self).prev_pos(old(self).end_pos()),
            old(self).spec_capacity() == 0 ==> final(self).start_pos() == old(self).start_pos()
                && final(self).end_pos() == old(self).end_pos(),
    {
        if self.is_full() {
            if self.capacity() == 0 {
                return ;
            } else {
                self.pop_back();
            }
        }
        let ghost mid = *self;
        self.decr_start();
        self.push_at(val, self.start);
        proof {
            assert(final(self)@ =~= seq![val] + mid@);
        }
    }

    /// Removes the last element and returns it, or `None` if the buffer is empty.
    pub fn pop_back(&mut self) -> (r: Option<T>)
        requires
            old(self).wf(),
        ensures
            final(self).wf(),
            final(self).spec_capacity() == old(self).spec_capacity(),
            final(self).start_pos() == old(self).start_pos(),
            old(self)@.len() == 0 ==> r is None && final(self)@ == old(self)@ && final(self).end_pos() == old(self).end_pos(),
            old(self)@.len() > 0 ==> r == Some(old(self)@.last()) && final(self)@ == old(self)@.drop_last() && final(self).end_pos() == old(self).prev_pos(old(self).end_pos()),
    {
        if self.is_empty() {
            None
        } else {
            self.decr_end();
            let val = self.pop_at(self.end);
            proof {
                assert(final(self)@ =~= old(self)@.drop_last());
            }
            Some(val)
        }
    }

    /// Removes the first element and returns it, or `None` if the buffer is empty.
    pub fn pop_front(&mut self) -> (r: Option<T>)
        requires
            old(self).wf(),
        ensures
            final(self).wf(),
            final(self).spec_capacity() == old(self).spec_capacity(),
            final(self).end_pos() == old(self).end_pos(),
            old(self)@.len() == 0 ==> r is None && final(self)@ == old(self)@ && final(self).start_pos() == old(self).start_pos(),
            old(self)@.len() > 0 ==> r == Some(old(self)@[0]) && final(self)@ == old(self)@.subrange(1, old(self)@.len() as int) && final(self).start_pos() == old(self).next_pos(old(self).start_pos()),
    {
        if self.is_empty() {
            None
        } else {
            let val = self.pop_at(self.start);
            self.incr_start();
            proof {
                assert(final(self)@ =~= old(self)@.subrange(1, old(self)@.len() as int));
            }
            Some(val)
        }
    }

    /// Removes every element.
    pub fn clear(&mut self)
        requires
            old(self).wf(),
        ensures
            final(self).wf(),
            final(self).spec_capacity() == old(self).spec_capacity(),
            final(self)@ == Seq::<T>::empty(),
            final(self).start_pos() == old(self).start_pos(),
            final(self).end_pos() == old(self).start_pos(),
    {
        loop
            invariant
                self.wf(),
                self.spec_capacity() == old(self).spec_capacity(),
                self.start_pos() == old(self).start_pos(),
            ensures
                self@.len() == 0,
            decreases self@.len(),
        {
            match self.pop_back() {
                Some(_) => {},
                None => break ,
            }
        }
        proof {
            assert(self@ =~= Seq::<T>::empty());
        }
    }
}

impl<T> CircularBuffer<T> {
    /// Returns a reference to the first element, or `None` if the buffer is empty.
    pub fn first(&self) -> (r: Option<&T>)
        requires
            self.wf(),
        ensures
            self@.len() == 0 ==> r is None,
            self@.len() > 0 ==> r == Some(&self@[0]),
    {
        if self.is_empty() {
            None
        } else {
            self.buffer[self.internal_index(0)].as_ref()
        }
    }

    /// Returns a mutable reference to the first element, or `None` if the
    /// buffer is empty.
    pub fn first_mut(&mut self) -> (r: Option<&mut T>)
        requires
            old(self).wf(),
        ensures
            final(self).wf(),
            final(self).spec_capacity() == old(self).spec_capacity(),
            final(self).start_pos() == old(self).start_pos(),
            final(self).end_pos() == old(self).end_pos(),
            old(self)@.len() == 0 ==> r is None && final(self)@ == old(self)@,
            old(self)@.len() > 0 ==> r is Some && *r.unwrap() == old(self)@[0] && final(self)@
                == old(self)@.update(0, *final(r.unwrap())),
    {
        if self.is_empty() {
            None
        } else {
            let p = self.internal_index(0);
            self.buffer[p].as_mut()
        }
    }

    /// Returns a reference to the last element, or `None` if the buffer is empty.
    pub fn last(&self) -> (r: Option<&T>)
        requires
            self.wf(),
        ensures
            self@.len() == 0 ==> r is None,
            self@.len() > 0 ==> r == Some(&self@.last()),
    {
        if self.is_empty() {
            None
        } else {
            self.buffer[self.internal_index(self.len() - 1)].as_ref()
        }
    }

    /// Returns a mutable reference to the last element, or `None` if the
    /// buffer is empty.
    pub fn last_mut(&mut self) -> (r: Option<&mut T>)
        requires
            old(self).wf(),
        ensures
            final(self).wf(),
            final(self).spec_capacity() == old(self).spec_capacity(),
            final(self).start_pos() == old(self).start_pos(),
            final(self).end_pos() == old(self).end_pos(),
            old(self)@.len() == 0 ==> r is None && final(self)@ == old(self)@,
            old(self)@.len() > 0 ==> r is Some && *r.unwrap() == old(self)@.last() && final(
                self)@ == old(self)@.update(old(self)@.len() - 1, *final(r.unwrap())),
    {
        if self.is_empty() {
            None
        } else {
            let p = self.internal_index(self.len() - 1);
            self.buffer[p].as_mut()
        }
    }

    /// Swaps the elements at the logical indices `a` and `b`.
    pub fn swap(&mut self, a: usize, b: usize)
        requires
            old(self).wf(),
            a < old(self)@.len(),
            b < old(self)@.len(),
        ensures
            final(self).wf(),
            final(self).spec_capacity() == old(self).spec_capacity(),
            final(self).start_pos() == old(self).start_pos(),
            final(self).end_pos() == old(self).end_pos(),
            final(self)@ == old(self)@.update(a as int, old(self)@[b as int]).update(
                b as int,
                old(self)@[a as int],
            ),
    {
        let pa = self.internal_index(a);
        let pb = self.internal_index(b);
        self.swap_slots(pa, pb);
        proof {
            assert(final(self)@ =~= old(self)@.update(a as int, old(self)@[b as int]).update(
                b as int,
                old(self)@[a as int],
            ));
        }
    }

    /// Reverses the order of the elements.
    pub fn reverse(&mut self)
        requires
            old(self).wf(),
        ensures
            final(self).wf(),
            final(self).spec_capacity() == old(self).spec_capacity(),
            final(self).start_pos() == old(self).start_pos(),
            final(self).end_pos() == old(self).end_pos(),
            final(self)@ == old(self)@.reverse(),
    {
        let n = self.len();
        let mut a: usize = 0;
        while a < n / 2
            invariant
                self.wf(),
                n == self@.len(),
                n == old(self)@.len(),
                a <= n / 2,
                self.spec_capacity() == old(self).spec_capacity(),
                self.start_pos() == old(self).start_pos(),
                self.end_pos() == old(self).end_pos(),
                forall|i: int| 0 <= i < a ==> self@[i] == old(self)@[n - 1 - i],
                forall|i: int| n - a <= i < n ==> self@[i] == old(self)@[n - 1 - i],
                forall|i: int| a <= i < n - a ==> self@[i] == old(self)@[i],
            decreases n / 2 - a,
        {
            let b = n - a - 1;
            self.swap(a, b);
            a += 1;
        }
        proof {
            assert(self@ =~= old(self)@.reverse());
        }
    }
}

impl<T> core::ops::Index<usize> for CircularBuffer<T> {
    type Output = T;

    /// The element with logical index `index`, counted from the front.
    fn index(&self, index: usize) -> (r: &T)
        ensures
            *r == self@[index as int],
    {
        self.buffer[self.internal_index(index)].as_ref().unwrap()
    }
}

impl<T> vstd::std_specs::core::IndexSpecImpl<usize> for CircularBuffer<T> {
    open spec fn index_req(&self, index: &usize) -> bool {
        self.wf() && *index < self@.len()
    }
}

impl<T> core::ops::IndexMut<usize> for CircularBuffer<T> {
    /// The element with logical index `index`, counted from the front.
    fn index_mut(&mut self, index: usize) -> (r: &mut T)
        requires
            old(self).wf(),
            index < old(self)@.len(),
        ensures
            *r == old(self)@[index as int],
            final(self)@ == old(self)@.update(index as int, *final(r)),
            final(self).wf(),
            final(self).spec_capacity() == old(self).spec_capacity(),
            final(self).start_pos() == old(self).start_pos(),
            final(self).end_pos() == old(self).end_pos(),
    {
        let p = self.internal_index(index);
        self.buffer[p].as_mut().unwrap()
    }
}

/// Std's `<[T]>::rotate_left`: the first `mid` elements move to the end of
/// the slice and the others move to its front, each group keeping its order.
/// Std panics where `mid` exceeds the length.
pub assume_specification<Elem>[ <[Elem]>::rotate_left ](slice: &mut [Elem], mid: usize)
    requires
        mid <= old(slice)@.len(),
    ensures
        final(slice)@ == old(slice)@.subrange(mid as int, old(slice)@.len() as int) + old(
            slice)@.subrange(0, mid as int),
;

impl<T> CircularBuffer<T> {
    /// Returns the live slots as two views into the storage: the run that
    /// begins at the first element, and the run that wrapped round to the start
    /// of the storage, which is empty unless the window wraps.
    pub fn slices(&self) -> (r: (&[Option<T>], &[Option<T>]))
        requires
            self.wf(),
        ensures
            r.0@ == self.slots().subrange(self.start_pos(), self.first_run_end()),
            r.1@ == self.slots().subrange(0, self.wrapped_len()),
            Self::all_occupied(r.0@),
            Self::all_occupied(r.1@),
            Self::values(r.0@) + Self::values(r.1@) == self@,
    {
        let storage = self.buffer.as_slice();
        let r = if self.start <= self.end {
            (
                vstd::slice::slice_subrange(storage, self.start, self.end),
                vstd::slice::slice_subrange(storage, 0, 0),
            )
        } else {
            (
                vstd::slice::slice_subrange(storage, self.start, storage.len()),
                vstd::slice::slice_subrange(storage, 0, self.end),
            )
        };
        proof {
            assert(Self::values(r.0@) + Self::values(r.1@) =~= self@);
        }
        r
    }

    /// Returns the live slots as two mutable views into the storage, laid out
    /// as `slices` lays them out.
    ///
    /// The buffer stays well formed as long as every slot of both views is
    /// left occupied; it then holds the values the views hold at the end.
    pub fn slices_mut(&mut self) -> (r: (&mut [Option<T>], &mut [Option<T>]))
        requires
            old(self).wf(),
        ensures
            r.0@ == old(self).slots().subrange(old(self).start_pos(), old(self).first_run_end()),
            r.1@ == old(self).slots().subrange(0, old(self).wrapped_len()),
            Self::all_occupied(r.0@),
            Self::all_occupied(r.1@),
            Self::values(r.0@) + Self::values(r.1@) == old(self)@,
            final(self).start_pos() == old(self).start_pos(),
            final(self).end_pos() == old(self).end_pos(),
            final(self).slots() == final(r.1)@ + old(self).slots().subrange(
                old(self).wrapped_len(),
                old(self).start_pos(),
            ) + final(r.0)@ + old(self).slots().subrange(
                old(self).first_run_end(),
                old(self).slots().len() as int,
            ),
            final(r.0)@.len() == r.0@.len() && final(r.1)@.len() == r.1@.len()
                && Self::all_occupied(final(r.0)@) && Self::all_occupied(final(r.1)@) ==> final(
                self).wf() && final(self).spec_capacity() == old(self).spec_capacity() && final(
                self)@ == Self::values(final(r.0)@) + Self::values(final(r.1)@),
    {
        proof {
            assert(Self::values(
                old(self).slots().subrange(old(self).start_pos(), old(self).first_run_end()),
            ) + Self::values(old(self).slots().subrange(0, old(self).wrapped_len()))
                =~= old(self)@);
        }
        let start = self.start;
        let end = self.end;
        let storage = self.buffer.as_mut_slice();
        if start <= end {
            let (x, _tail) = storage.split_at_mut(end);
            let (head, a) = x.split_at_mut(start);
            let (b, _gap) = head.split_at_mut(0);
            (a, b)
        } else {
            let (x, a) = storage.split_at_mut(start);
            let (b, _gap) = x.split_at_mut(end);
            (a, b)
        }
    }

    /// Rotates the storage so that the first element lies in slot 0 and the
    /// elements form one run, and returns that run as a mutable view.
    ///
    /// The buffer stays well formed as long as every slot of the view is left
    /// occupied; it then holds the values the view holds at the end.
    pub fn linearize(&mut self) -> (r: &mut [Option<T>])
        requires
            old(self).wf(),
        ensures
            Self::all_occupied(r@),
            Self::values(r@) == old(self)@,
            final(self).start_pos() == 0,
            final(self).end_pos() == old(self)@.len(),
            final(self).slots() == final(r)@ + Seq::new(
                (old(self).spec_capacity() + 1 - old(self)@.len()) as nat,
                |i: int| None::<T>,
            ),
            final(r)@.len() == r@.len() && Self::all_occupied(final(r)@) ==> final(self).wf()
                && final(self).spec_capacity() == old(self).spec_capacity() && final(self)@
                == Self::values(final(r)@),
    {
        let len = self.len();
        let start = self.start;
        proof {
            let rotated = self.buffer@.subrange(start as int, self.buffer@.len() as int)
                + self.buffer@.subrange(0, start as int);
            assert(Self::values(rotated.subrange(0, len as int)) =~= self@);
            assert(rotated.subrange(len as int, rotated.len() as int) =~= Seq::new(
                (self.spec_capacity() + 1 - len) as nat,
                |i: int| None::<T>,
            ));
        }
        self.end = len;
        self.start = 0;
        let storage = self.buffer.as_mut_slice();
        storage.rotate_left(start);
        let (r, _vacant) = storage.split_at_mut(len);
        r
    }

    /// Changes the capacity to `capacity`, keeping the most recent elements
    /// where the buffer held more than that.
    pub fn resize(&mut self, capacity: usize)
        requires
            old(self).wf(),
            capacity < usize::MAX,
        ensures
            final(self).wf(),
            final(self).spec_capacity() == capacity,
            final(self)@ == Self::keep_last(old(self)@, capacity as nat),
            final(self).start_pos() == 0,
            final(self).end_pos() == final(self)@.len(),
    {
        let mut new_buf: Vec<Option<T>> = Vec::with_capacity(capacity + 1);
        let to_be_skipped = if self.len() > capacity {
            self.len() - capacity
        } else {
            0
        };
        let mut skipped: usize = 0;
        while skipped < to_be_skipped
            invariant
                self.wf(),
                skipped <= to_be_skipped <= old(self)@.len(),
                self@ == old(self)@.subrange(skipped as int, old(self)@.len() as int),
            decreases to_be_skipped - skipped,
        {
            self.pop_front();
            skipped += 1;
        }
        let ghost kept = self@;
        loop
            invariant
                self.wf(),
                kept.len() <= capacity,
                new_buf@.len() + self@.len() == kept.len(),
                Self::all_occupied(new_buf@),
                Self::values(new_buf@) + self@ == kept,
            ensures
                self@.len() == 0,
            decreases self@.len(),
        {
            match self.pop_front() {
                Some(val) => {
                    let ghost before = new_buf@;
                    new_buf.push(Some(val));
                    proof {
                        assert(Self::values(new_buf@) =~= Self::values(before).push(val));
                        assert(Self::values(new_buf@) + self@ =~= kept);
                    }
                },
                None => break ,
            }
        }
        let elem_num = new_buf.len();
        proof {
            assert(Self::values(new_buf@) =~= kept);
        }
        while new_buf.len() < capacity + 1
            invariant
                capacity < usize::MAX,
                elem_num <= new_buf@.len() <= capacity + 1,
                forall|p: int| 0 <= p < elem_num ==> (#[trigger] new_buf@[p]) is Some,
                forall|p: int| elem_num <= p < new_buf@.len() ==> (#[trigger] new_buf@[p]) is None,
                Self::values(new_buf@.subrange(0, elem_num as int)) == kept,
            decreases capacity + 1 - new_buf@.len(),
        {
            let ghost before = new_buf@;
            new_buf.push(None);
            proof {
                assert(new_buf@.subrange(0, elem_num as int) =~= before.subrange(
                    0,
                    elem_num as int,
                ));
            }
        }
        self.buffer = new_buf;
        self.start = 0;
        self.end = elem_num;
        proof {
            assert(self@ =~= Self::values(self.buffer@.subrange(0, elem_num as int)));
        }
    }
}

impl<T> CircularBuffer<T> {
    /// Returns references to the elements, front to back.
    pub fn iter(&self) -> (r: Vec<&T>)
        requires
            self.wf(),
        ensures
            r@.len() == self@.len(),
            forall|i: int| 0 <= i < r@.len() ==> *(#[trigger] r@[i]) == self@[i],
    {
        let (a, b) = self.slices();
        let mut r: Vec<&T> = Vec::new();
        let mut i: usize = 0;
        while i < a.len()
            invariant
                i <= a@.len(),
                Self::all_occupied(a@),
                r@.len() == i,
                forall|k: int| 0 <= k < i ==> *(#[trigger] r@[k]) == a@[k].unwrap(),
            decreases a@.len() - i,
        {
            r.push(a[i].as_ref().unwrap());
            i += 1;
        }
        let mut j: usize = 0;
        while j < b.len()
            invariant
                j <= b@.len(),
                Self::all_occupied(b@),
                r@.len() == a@.len() + j,
                forall|k: int| 0 <= k < a@.len() ==> *(#[trigger] r@[k]) == a@[k].unwrap(),
                forall|k: int| 0 <= k < j ==> *(#[trigger] r@[a@.len() + k]) == b@[k].unwrap(),
            decreases b@.len() - j,
        {
            r.push(b[j].as_ref().unwrap());
            j += 1;
        }
        proof {
            let joined = Self::values(a@) + Self::values(b@);
            assert forall|i: int| 0 <= i < r@.len() implies *(#[trigger] r@[i]) == self@[i] by {
                if i < a@.len() {
                    assert(joined[i] == a@[i].unwrap());
                } else {
                    assert(r@[i] == r@[a@.len() + (i - a@.len())]);
                    assert(joined[i] == b@[i - a@.len()].unwrap());
                }
            }
        }
        r
    }

    fn collect_mut<'a>(run: &'a mut [Option<T>], out: &mut Vec<&'a mut T>)
        requires
            Self::all_occupied(old(run)@),
        ensures
            final(out)@.len() == old(out)@.len() + old(run)@.len(),
            forall|i: int| 0 <= i < old(out)@.len() ==> final(out)@[i] == old(out)@[i],
            forall|i: int|
                0 <= i < old(run)@.len() ==> *(#[trigger] final(out)@[old(out)@.len() + i]) == old(
                    run)@[i].unwrap(),
            final(run)@.len() == old(run)@.len(),
            forall|i: int|
                0 <= i < old(run)@.len() ==> (#[trigger] final(run)@[i]) == Some(
                    *final(final(out)@[old(out)@.len() + i]),
                ),
    {
        let ghost base = out@.len();
        let ghost total = run@.len();
        let ghost run_at_end = final(run)@;
        let ghost run_at_start = run@;
        let mut rest = run;
        let ghost done: int = 0;
        proof {
            assert(rest@ =~= run_at_start.subrange(0, total as int));
            assert(final(rest)@ =~= run_at_end.subrange(0, run_at_end.len() as int));
        }
        while rest.len() > 0
            invariant
                0 <= done <= total,
                done <= run_at_end.len(),
                out@.len() == base + done,
                base == old(out)@.len(),
                rest@ == run_at_start.subrange(done, total as int),
                Self::all_occupied(run_at_start),
                total == run_at_start.len(),
                forall|i: int| 0 <= i < base ==> out@[i] == old(out)@[i],
                forall|i: int|
                    base <= i < base + done ==> *(#[trigger] out@[i]) == run_at_start[i
                        - base].unwrap(),
                final(rest)@ == run_at_end.subrange(done, run_at_end.len() as int),
                forall|i: int|
                    base <= i < base + done ==> run_at_end[i - base] == Some(
                        *final(#[trigger] out@[i]),
                    ),
            decreases rest@.len(),
        {
            let ghost rest_end = final(rest)@;
            let ghost rest_now = rest@;
            let ghost out_before = out@;
            let (head, tail) = rest.split_at_mut(1);
            let ghost head_end = final(head)@;
            let ghost tail_end = final(tail)@;
            proof {
                assert(rest_end == head_end + tail_end);
                assert(head@[0] == run_at_start[done]);
                assert(tail@ =~= run_at_start.subrange(done + 1, total as int));
            }
            match head.first_mut() {
                Some(slot) => match slot.as_mut() {
                    Some(val) => {
                        proof {
                            assert(head_end.len() == 1);
                            assert(head_end[0] == Some(*final(val)));
                            assert(rest_end == run_at_end.subrange(
                                done,
                                run_at_end.len() as int,
                            ));
                            assert(rest_end.len() == 1 + tail_end.len());
                            assert(done < run_at_end.len());
                            assert forall|i: int| 0 <= i < tail_end.len() implies tail_end[i]
                                == run_at_end[done + 1 + i] by {
                                assert(rest_end[i + 1] == tail_end[i]);
                                assert(rest_end[i + 1] == run_at_end[done + (i + 1)]);
                            }
                            assert(rest_end[0] == head_end[0]);
                            assert(run_at_end[done] == rest_end[0]);
                            assert(tail_end =~= run_at_end.subrange(
                                done + 1,
                                run_at_end.len() as int,
                            ));
                        }
                        out.push(val);
                    },
                    None => {},
                },
                None => {},
            }
            rest = tail;
            proof {
                done = done + 1;
            }
        }
        proof {
            assert(run_at_end.len() == total);
        }
    }

    /// Returns mutable references to the elements, front to back.
    pub fn iter_mut(&mut self) -> (r: Vec<&mut T>)
        requires
            old(self).wf(),
        ensures
            r@.len() == old(self)@.len(),
            forall|i: int| 0 <= i < r@.len() ==> *(#[trigger] r@[i]) == old(self)@[i],
            final(self).wf(),
            final(self).spec_capacity() == old(self).spec_capacity(),
            final(self).start_pos() == old(self).start_pos(),
            final(self).end_pos() == old(self).end_pos(),
            final(self)@.len() == old(self)@.len(),
            forall|i: int| 0 <= i < r@.len() ==> final(self)@[i] == *final(#[trigger] r@[i]),
    {
        let (a, b) = self.slices_mut();
        let ghost first_run = a@;
        let ghost wrapped_run = b@;
        let mut r: Vec<&mut T> = Vec::new();
        Self::collect_mut(a, &mut r);
        let ghost first_refs = r@;
        Self::collect_mut(b, &mut r);
        proof {
            let joined = Self::values(first_run) + Self::values(wrapped_run);
            assert forall|i: int| 0 <= i < r@.len() implies *(#[trigger] r@[i]) == old(
                self)@[i] by {
                if i < first_run.len() {
                    assert(r@[i] == first_refs[0 + i]);
                    assert(joined[i] == first_run[i].unwrap());
                } else {
                    assert(r@[i] == r@[first_run.len() + (i - first_run.len())]);
                    assert(joined[i] == wrapped_run[i - first_run.len()].unwrap());
                }
            }
        }
        r
    }

    /// Returns a draining walk over the buffer, which removes the elements
    /// from the front one by one as they are asked for.
    pub fn drain(&mut self) -> (r: Drain<'_, T>)
        ensures
            *r.buf == *old(self),
            *final(r.buf) == *final(self),
    {
        Drain::new(self)
    }

    /// Returns an owning walk over the buffer, front to back.
    pub fn into_iter(self) -> (r: IntoIter<T>)
        requires
            self.wf(),
        ensures
            r.wf(),
            r.remaining() == self@,
    {
        IntoIter::new(self)
    }

    /// Pushes each element of `items` at the back, in order; where the buffer
    /// overflows, the oldest elements leave at the front.
    pub fn extend(&mut self, items: Vec<T>)
        requires
            old(self).wf(),
        ensures
            final(self).wf(),
            final(self).spec_capacity() == old(self).spec_capacity(),
            final(self)@ == Self::keep_last(old(self)@ + items@, old(self).spec_capacity()),
    {
        let ghost cap = self.spec_capacity();
        for el in it: items
            invariant
                self.wf(),
                self.spec_capacity() == cap,
                cap == old(self).spec_capacity(),
                it.seq() == items@,
                self@ == Self::keep_last(
                    old(self)@ + items@.subrange(0, it.index() as int),
                    cap,
                ),
        {
            proof {
                let done = old(self)@ + items@.subrange(0, it.index() as int);
                assert(done.push(el) =~= old(self)@ + items@.subrange(0, it.index() + 1));
                assert(Self::keep_last(Self::keep_last(done, cap).push(el), cap)
                    =~= Self::keep_last(done.push(el), cap));
            }
            self.push_back(el);
        }
        proof {
            assert(items@.subrange(0, items@.len() as int) =~= items@);
        }
    }

    /// Pushes a clone of each element of `items` at the back, in order; where
    /// the buffer overflows, the oldest elements leave at the front.
    pub fn extend_ref(&mut self, items: &[T]) where T: Clone
        requires
            old(self).wf(),
        ensures
            final(self).wf(),
            final(self).spec_capacity() == old(self).spec_capacity(),
            exists|copies: Seq<T>|
                {
                    &&& copies.len() == items@.len()
                    &&& forall|i: int|
                        0 <= i < copies.len() ==> cloned(items@[i], #[trigger] copies[i])
                    &&& final(self)@ == Self::keep_last(
                        old(self)@ + copies,
                        old(self).spec_capacity(),
                    )
                },
    {
        let ghost cap = self.spec_capacity();
        let ghost copies: Seq<T> = Seq::empty();
        let mut i: usize = 0;
        while i < items.len()
            invariant
                self.wf(),
                self.spec_capacity() == cap,
                cap == old(self).spec_capacity(),
                i <= items@.len(),
                copies.len() == i,
                forall|k: int| 0 <= k < i ==> cloned(items@[k], #[trigger] copies[k]),
                self@ == Self::keep_last(old(self)@ + copies, cap),
            decreases items@.len() - i,
        {
            let el = items[i].clone();
            proof {
                let done = old(self)@ + copies;
                assert(done.push(el) =~= old(self)@ + copies.push(el));
                assert(Self::keep_last(Self::keep_last(done, cap).push(el), cap)
                    =~= Self::keep_last(done.push(el), cap));
                copies = copies.push(el);
            }
            self.push_back(el);
            i += 1;
        }
    }

    /// Moves every element of `other` to the back of `self`, in order; where
    /// `self` overflows, its oldest elements leave at the front.
    pub fn append(&mut self, other: &mut Self)
        requires
            old(self).wf(),
            old(other).wf(),
        ensures
            final(self).wf(),
            final(other).wf(),
            final(self).spec_capacity() == old(self).spec_capacity(),
            final(other).spec_capacity() == old(other).spec_capacity(),
            final(other)@ == Seq::<T>::empty(),
            final(self)@ == Self::keep_last(old(self)@ + old(other)@, old(self).spec_capacity()),
    {
        let ghost cap = self.spec_capacity();
        let ghost moved: Seq<T> = Seq::empty();
        let ghost other_at_end = *final(other);
        let mut drain = other.drain();
        loop
            invariant
                self.wf(),
                drain.buf.wf(),
                self.spec_capacity() == cap,
                cap == old(self).spec_capacity(),
                drain.buf.spec_capacity() == old(other).spec_capacity(),
                moved + drain.buf@ == old(other)@,
                self@ == Self::keep_last(old(self)@ + moved, cap),
                *final(drain.buf) == other_at_end,
            ensures
                drain.buf@.len() == 0,
            decreases drain.buf@.len(),
        {
            match drain.next() {
                Some(el) => {
                    proof {
                        let done = old(self)@ + moved;
                        assert(done.push(el) =~= old(self)@ + moved.push(el));
                        assert(Self::keep_last(Self::keep_last(done, cap).push(el), cap)
                            =~= Self::keep_last(done.push(el), cap));
                        assert(moved.push(el) + drain.buf@ =~= old(other)@);
                        moved = moved.push(el);
                    }
                    self.push_back(el);
                },
                None => break ,
            }
        }
        proof {
            assert(moved =~= old(other)@);
            assert(drain.buf@ =~= Seq::<T>::empty());
        }
    }
}

impl<T> CircularBuffer<T> {
    /// Builds a full buffer that holds `items` front to back; its capacity is
    /// their number.
    pub fn from_iter(items: Vec<T>) -> (r: Self)
        ensures
            r.wf(),
            r@ == items@,
            r.spec_capacity() == items@.len(),
            r.start_pos() == 0,
            r.end_pos() == items@.len(),
    {
        let end = items.len();
        let mut buffer: Vec<Option<T>> = Vec::new();
        for el in it: items
            invariant
                it.seq() == items@,
                buffer@.len() == it.index(),
                forall|p: int| 0 <= p < buffer@.len() ==> (#[trigger] buffer@[p]) == Some(items@[p]),
        {
            buffer.push(Some(el));
        }
        buffer.push(None);
        let r = Self { buffer, start: 0, end };
        proof {
            assert(r@ =~= items@);
        }
        r
    }

    /// Builds a full buffer that holds clones of `items` front to back; its
    /// capacity is their number.
    pub fn from_iter_ref(items: &[T]) -> (r: Self) where T: Clone
        ensures
            r.wf(),
            r@.len() == items@.len(),
            forall|i: int| 0 <= i < items@.len() ==> cloned(items@[i], #[trigger] r@[i]),
            r.spec_capacity() == items@.len(),
            r.start_pos() == 0,
            r.end_pos() == items@.len(),
    {
        let end = items.len();
        let mut buffer: Vec<Option<T>> = Vec::new();
        let mut i: usize = 0;
        while i < end
            invariant
                end == items@.len(),
                i <= end,
                buffer@.len() == i,
                forall|p: int|
                    0 <= p < i ==> (#[trigger] buffer@[p]) is Some && cloned(
                        items@[p],
                        buffer@[p].unwrap(),
                    ),
            decreases end - i,
        {
            buffer.push(Some(items[i].clone()));
            i += 1;
        }
        buffer.push(None);
        Self { buffer, start: 0, end }
    }
}

impl<T> From<Vec<T>> for CircularBuffer<T> {
    /// Builds a full buffer that holds `v` front to back; its capacity is the
    /// length of `v`.
    fn from(v: Vec<T>) -> (r: Self)
        ensures
            r.wf(),
            r@ == v@,
            r.spec_capacity() == v@.len(),
            r.start_pos() == 0,
            r.end_pos() == v@.len(),
    {
        Self::from_iter(v)
    }
}

impl<T> vstd::std_specs::convert::FromSpecImpl<Vec<T>> for CircularBuffer<T> {
    /// The buffer's layout is not a function of the elements alone, so what
    /// `from` returns is stated by its own postcondition.
    open spec fn obeys_from_spec() -> bool {
        false
    }

    open spec fn from_spec(v: Vec<T>) -> Self {
        arbitrary()
    }
}

impl<T: Clone> Clone for CircularBuffer<T> {
    /// Clones the storage slot by slot; the cursors stay where they are.
    fn clone(&self) -> (r: Self)
        ensures
            r.start_pos() == self.start_pos(),
            r.end_pos() == self.end_pos(),
            r.slots().len() == self.slots().len(),
            forall|p: int|
                0 <= p < self.slots().len() ==> ((#[trigger] r.slots()[p]) is Some
                    <==> self.slots()[p] is Some),
            forall|p: int|
                0 <= p < self.slots().len() && self.slots()[p] is Some ==> cloned(
                    self.slots()[p].unwrap(),
                    (#[trigger] r.slots()[p]).unwrap(),
                ),
            self.wf() ==> r.wf() && r@.len() == self@.len() && forall|i: int|
                0 <= i < self@.len() ==> cloned(self@[i], #[trigger] r@[i]),
    {
        let mut buffer: Vec<Option<T>> = Vec::new();
        let mut i: usize = 0;
        while i < self.buffer.len()
            invariant
                i <= self.buffer@.len(),
                buffer@.len() == i,
                forall|p: int|
                    0 <= p < i ==> ((#[trigger] buffer@[p]) is Some <==> self.buffer@[p] is Some),
                forall|p: int|
                    0 <= p < i && self.buffer@[p] is Some ==> cloned(
                        self.buffer@[p].unwrap(),
                        (#[trigger] buffer@[p]).unwrap(),
                    ),
            decreases self.buffer@.len() - i,
        {
            buffer.push(self.buffer[i].clone());
            i += 1;
        }
        Self { buffer, start: self.start, end: self.end }
    }
}

} // verus!
