use super::circular::CircularBuffer;
use vstd::prelude::*;

verus! {

/// A draining walk over a `CircularBuffer`: each step removes the first
/// element of the borrowed buffer and hands it out.
pub struct Drain<'a, T> {
    pub buf: &'a mut CircularBuffer<T>,
}

impl<'a, T> Drain<'a, T> {
    /// Starts draining `buf`.
    pub fn new(buf: &'a mut CircularBuffer<T>) -> (r: Self)
        ensures
            *r.buf == *old(buf),
            *final(r.buf) == *final(buf),
    {
        Drain { buf }
    }

    /// Removes the first element of the buffer and returns it, or `None` once
    /// the buffer is empty.
    pub fn next(&mut self) -> (r: Option<T>)
        requires
            old(self).buf.wf(),
        ensures
            final(self).buf.wf(),
            final(self).buf.spec_capacity() == old(self).buf.spec_capacity(),
            old(self).buf@.len() == 0 ==> r is None && final(self).buf@ == old(self).buf@,
            old(self).buf@.len() > 0 ==> r == Some(old(self).buf@[0]) && final(self).buf@ == old(
                self).buf@.subrange(1, old(self).buf@.len() as int),
            *final(final(self).buf) == *final(old(self).buf),
    {
        self.buf.pop_front()
    }
}

/// An owning walk over a `CircularBuffer`: each step removes the first
/// element of the buffer and hands it out.
pub struct IntoIter<T> {
    buf: CircularBuffer<T>,
}

impl<T> IntoIter<T> {
    /// The elements not yet handed out, in the order in which they will come.
    pub closed spec fn remaining(&self) -> Seq<T> {
        self.buf@
    }

    /// Whether the buffer that is walked over is well formed.
    pub closed spec fn wf(&self) -> bool {
        self.buf.wf()
    }

    /// Starts a walk that consumes `buf`.
    pub fn new(buf: CircularBuffer<T>) -> (r: Self)
        requires
            buf.wf(),
        ensures
            r.wf(),
            r.remaining() == buf@,
    {
        Self { buf }
    }

    /// Returns the next element, or `None` once all were handed out.
    pub fn next(&mut self) -> (r: Option<T>)
        requires
            old(self).wf(),
        ensures
            final(self).wf(),
            old(self).remaining().len() == 0 ==> r is None && final(self).remaining() == old(
                self).remaining(),
            old(self).remaining().len() > 0 ==> r == Some(old(self).remaining()[0]) && final(
                self).remaining() == old(self).remaining().subrange(
                1,
                old(self).remaining().len() as int,
            ),
    {
        self.buf.pop_front()
    }
}

} // verus!
