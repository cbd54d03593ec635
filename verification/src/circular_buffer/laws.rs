use super::circular::CircularBuffer;
use vstd::prelude::*;

verus! {

/// What a buffer of capacity `cap` that holds `s` holds after each element of
/// `items` was pushed at its back, one after the other.
pub open spec fn pushed_back_all<T>(s: Seq<T>, cap: nat, items: Seq<T>) -> Seq<T>
    decreases items.len(),
{
    if items.len() == 0 {
        s
    } else {
        pushed_back_all(
            CircularBuffer::<T>::keep_last(s.push(items[0]), cap),
            cap,
            items.drop_first(),
        )
    }
}

/// What a buffer that holds `s` holds after `n` pops at its front.
pub open spec fn popped_front_rest<T>(s: Seq<T>, n: nat) -> Seq<T>
    decreases n,
{
    if n == 0 {
        s
    } else if s.len() == 0 {
        popped_front_rest(s, (n - 1) as nat)
    } else {
        popped_front_rest(s.subrange(1, s.len() as int), (n - 1) as nat)
    }
}

/// The results of `n` pops at the front of a buffer that holds `s`, in the
/// order in which they come.
pub open spec fn popped_front_results<T>(s: Seq<T>, n: nat) -> Seq<Option<T>>
    decreases n,
{
    if n == 0 {
        Seq::empty()
    } else if s.len() == 0 {
        seq![None] + popped_front_results(s, (n - 1) as nat)
    } else {
        seq![Some(s[0])] + popped_front_results(s.subrange(1, s.len() as int), (n - 1) as nat)
    }
}

/// A well-formed buffer never holds more elements than its capacity, and it
/// is empty exactly when its two cursors meet.
pub proof fn lemma_len_within_capacity<T>(b: &CircularBuffer<T>)
    requires
        b.wf(),
    ensures
        b@.len() <= b.spec_capacity(),
        b@.len() == 0 <==> b.start_pos() == b.end_pos(),
        b@.len() == b.spec_len(),
{
}

/// Pushing a run of elements at the back, one by one, leaves the last
/// `cap` elements of what the buffer held followed by the run.
pub proof fn lemma_pushed_back_all<T>(s: Seq<T>, cap: nat, items: Seq<T>)
    requires
        s.len() <= cap,
    ensures
        pushed_back_all(s, cap, items) == CircularBuffer::<T>::keep_last(s + items, cap),
    decreases items.len(),
{
    if items.len() == 0 {
        assert(s + items =~= s);
    } else {
        let next = CircularBuffer::<T>::keep_last(s.push(items[0]), cap);
        lemma_pushed_back_all(next, cap, items.drop_first());
        assert(CircularBuffer::<T>::keep_last(next + items.drop_first(), cap)
            =~= CircularBuffer::<T>::keep_last(s + items, cap));
    }
}

/// Popping `n` times at the front of a buffer that holds at least `n`
/// elements returns its first `n` elements in order and leaves the others.
pub proof fn lemma_popped_front<T>(s: Seq<T>, n: nat)
    requires
        n <= s.len(),
    ensures
        popped_front_results(s, n) == Seq::new(n, |i: int| Some(s[i])),
        popped_front_rest(s, n) == s.subrange(n as int, s.len() as int),
    decreases n,
{
    if n == 0 {
        assert(popped_front_results(s, n) =~= Seq::new(n, |i: int| Some(s[i])));
        assert(popped_front_rest(s, n) =~= s.subrange(n as int, s.len() as int));
    } else {
        let tail = s.subrange(1, s.len() as int);
        lemma_popped_front(tail, (n - 1) as nat);
        assert(popped_front_results(s, n) =~= Seq::new(n, |i: int| Some(s[i])));
        assert(popped_front_rest(s, n) =~= s.subrange(n as int, s.len() as int));
    }
}

/// Round trip: after as many pushes at the back of an empty buffer as it has
/// capacity, the same number of pops at the front returns the pushed values
/// in the order in which they were pushed and leaves the buffer empty.
pub proof fn lemma_round_trip<T>(cap: nat, items: Seq<T>)
    requires
        items.len() == cap,
    ensures
        popped_front_results(pushed_back_all(Seq::empty(), cap, items), cap) == Seq::new(
            cap,
            |i: int| Some(items[i]),
        ),
        popped_front_rest(pushed_back_all(Seq::empty(), cap, items), cap) == Seq::<T>::empty(),
{
    lemma_pushed_back_all(Seq::<T>::empty(), cap, items);
    assert(Seq::<T>::empty() + items =~= items);
    lemma_popped_front(items, cap);
    assert(items.subrange(cap as int, items.len() as int) =~= Seq::<T>::empty());
}

/// Overwrite: pushing `cap + k` values at the back of an empty buffer of
/// capacity `cap` leaves exactly the last `cap` of them, oldest first.
pub proof fn lemma_overwrite<T>(cap: nat, k: nat, items: Seq<T>)
    requires
        k > 0,
        items.len() == cap + k,
    ensures
        pushed_back_all(Seq::empty(), cap, items) == items.subrange(k as int, items.len() as int),
{
    lemma_pushed_back_all(Seq::<T>::empty(), cap, items);
    assert(Seq::<T>::empty() + items =~= items);
}

/// A buffer whose first element lies in slot 0, as `linearize` leaves it,
/// has all its elements in the first of the two runs that `slices` returns;
/// the second run is empty.
pub proof fn lemma_linear_has_one_run<T>(b: &CircularBuffer<T>)
    requires
        b.wf(),
        b.start_pos() == 0,
    ensures
        b.wrapped_len() == 0,
        b.first_run_end() - b.start_pos() == b@.len(),
{
}

/// Resizing a buffer to the capacity it has keeps every element in place in
/// the front-to-back order.
pub proof fn lemma_resize_same_capacity<T>(b: &CircularBuffer<T>)
    requires
        b.wf(),
    ensures
        CircularBuffer::<T>::keep_last(b@, b.spec_capacity()) == b@,
{
}

} // verus!
