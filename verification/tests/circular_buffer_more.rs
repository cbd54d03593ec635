use advanced_collections::circular_buffer::CircularBuffer;
use std::cmp::Ordering;

fn contents<T: Clone>(cb: &CircularBuffer<T>) -> Vec<T> {
    cb.iter().into_iter().map(|e| e.clone()).collect()
}

#[test]
fn length_stays_within_capacity_under_mixed_operations() {
    let mut cb: CircularBuffer<u32> = CircularBuffer::new(4);
    for step in 0..40u32 {
        match step % 5 {
            0 | 1 => cb.push_back(step),
            2 => cb.push_front(step),
            3 => {
                cb.pop_front();
            }
            _ => {
                cb.pop_back();
            }
        }
        assert!(cb.len() <= cb.capacity());
        assert_eq!(cb.is_empty(), cb.len() == 0);
        assert_eq!(cb.is_full(), cb.len() == cb.capacity());
        assert_eq!(cb.capacity(), 4);
    }
    for step in 0..10u32 {
        cb.push_back(step);
        assert!(cb.len() <= cb.capacity());
    }
    assert!(cb.is_full());
}

#[test]
fn round_trip_returns_values_in_order() {
    let mut cb: CircularBuffer<i32> = CircularBuffer::new(5);
    for v in [10, 20, 30, 40, 50] {
        cb.push_back(v);
    }
    assert!(cb.is_full());
    let mut out = Vec::new();
    for _ in 0..5 {
        out.push(cb.pop_front());
    }
    assert_eq!(out, vec![Some(10), Some(20), Some(30), Some(40), Some(50)]);
    assert!(cb.is_empty());
    assert_eq!(cb.pop_front(), None);
}

#[test]
fn overwrite_keeps_the_last_values() {
    let mut cb: CircularBuffer<i32> = CircularBuffer::new(3);
    for v in 1..=8 {
        cb.push_back(v);
    }
    assert_eq!(contents(&cb), vec![6, 7, 8]);
    assert_eq!(cb.len(), 3);
}

#[test]
fn linearize_then_slices_gives_one_run() {
    let mut cb = CircularBuffer::from(vec![1, 2, 3]);
    cb.push_back(4);
    cb.push_back(5);
    {
        let (a, b) = cb.slices();
        assert_eq!(a, &[Some(3), Some(4)]);
        assert_eq!(b, &[Some(5)]);
    }
    assert_eq!(cb.linearize(), &[Some(3), Some(4), Some(5)]);
    let (a, b) = cb.slices();
    assert_eq!(a, &[Some(3), Some(4), Some(5)]);
    assert!(b.is_empty());

    let mut empty: CircularBuffer<i32> = CircularBuffer::new(3);
    empty.push_back(1);
    empty.pop_front();
    assert!(empty.linearize().is_empty());
    let (a, b) = empty.slices();
    assert!(a.is_empty());
    assert!(b.is_empty());
}

#[test]
fn resize_to_same_capacity_keeps_the_sequence() {
    let mut cb: CircularBuffer<i32> = CircularBuffer::new(4);
    for v in 1..=6 {
        cb.push_back(v);
    }
    let before = contents(&cb);
    let capacity = cb.capacity();
    cb.resize(capacity);
    assert_eq!(contents(&cb), before);
    assert_eq!(contents(&cb), vec![3, 4, 5, 6]);
    assert_eq!(cb.capacity(), 4);
}

#[test]
fn push_back_evicts_at_the_front() {
    let mut cb = CircularBuffer::new(3);
    cb.push_back(1);
    cb.push_back(2);
    cb.push_back(3);
    cb.push_back(4);
    assert_eq!(contents(&cb), vec![2, 3, 4]);
    assert_eq!(cb.pop_back(), Some(4));
    assert_eq!(contents(&cb), vec![2, 3]);
}

#[test]
fn push_front_evicts_at_the_back() {
    let mut cb = CircularBuffer::new(3);
    cb.push_front(1);
    cb.push_front(2);
    cb.push_front(3);
    cb.push_front(4);
    assert_eq!(contents(&cb), vec![4, 3, 2]);
}

#[test]
fn capacity_zero_holds_nothing() {
    let mut cb: CircularBuffer<i32> = CircularBuffer::new(0);
    cb.push_back(1);
    assert_eq!(cb.len(), 0);
    assert!(cb.is_empty());
    assert!(cb.is_full());
    cb.push_front(2);
    assert_eq!(cb.len(), 0);
    assert_eq!(cb.pop_back(), None);
    assert_eq!(cb.pop_front(), None);
    assert_eq!(cb.first(), None);
    assert_eq!(cb.last(), None);
    assert_eq!(cb.capacity(), 0);
    cb.extend(vec![1, 2, 3]);
    assert!(cb.is_empty());
}

#[test]
fn with_capacity_makes_an_empty_buffer() {
    let cb: CircularBuffer<i32> = CircularBuffer::with_capacity(5);
    assert_eq!(cb.capacity(), 5);
    assert_eq!(cb.len(), 0);
    assert!(cb.is_empty());
    assert!(!cb.is_full());
}

#[test]
fn typical_use() {
    let mut cb = CircularBuffer::new(3);
    cb.push_back(1);
    cb.push_back(2);
    cb.push_back(3);
    assert_eq!(cb.pop_front(), Some(1));
    cb.push_back(4);
    cb.push_back(5);
    assert_eq!(cb.pop_front(), Some(3));
    cb.resize(4);
    assert_eq!(cb.capacity(), 4);
    cb.extend_ref(&[6, 7, 8, 9]);
    let mut v = Vec::new();
    {
        let mut drain = cb.drain();
        v.push(drain.next().unwrap());
        v.push(drain.next().unwrap());
    }
    assert_eq!(v, vec![6, 7]);
    assert_eq!(cb.linearize(), &[Some(8), Some(9)]);
}

#[test]
fn append_overflows_into_the_front() {
    let mut c1 = CircularBuffer::from(vec![1, 2, 3]);
    let mut c2 = CircularBuffer::from(vec![4, 5, 6, 7]);
    c1.append(&mut c2);
    assert_eq!(contents(&c1), vec![5, 6, 7]);
    assert!(c2.is_empty());
    assert_eq!(c2.capacity(), 4);
}

#[test]
fn resize_keeps_the_most_recent_elements() {
    let mut cb = CircularBuffer::from(vec![1, 2, 3, 4, 5]);
    cb.resize(2);
    assert_eq!(contents(&cb), vec![4, 5]);
    assert_eq!(cb.capacity(), 2);
    cb.resize(0);
    assert!(cb.is_empty());
    assert_eq!(cb.capacity(), 0);
    cb.resize(3);
    cb.push_back(9);
    assert_eq!(contents(&cb), vec![9]);
}

#[test]
fn mutable_access_changes_elements_in_place() {
    let mut cb = CircularBuffer::from(vec![1, 2, 3]);
    cb.push_back(4);
    cb.push_back(5);
    for e in cb.iter_mut() {
        *e += 1;
    }
    assert_eq!(contents(&cb), vec![4, 5, 6]);
    {
        let (a, b) = cb.slices_mut();
        a[0] = Some(7);
        a[1] = Some(8);
        b[0] = Some(9);
    }
    assert_eq!(contents(&cb), vec![7, 8, 9]);
    {
        let run = cb.linearize();
        run[2] = Some(1);
    }
    assert_eq!(contents(&cb), vec![7, 8, 1]);
    *cb.first_mut().unwrap() += 1;
    *cb.last_mut().unwrap() += 1;
    cb[1] = 0;
    assert_eq!(contents(&cb), vec![8, 0, 2]);
    assert_eq!(cb[0], 8);
    let mut empty: CircularBuffer<i32> = CircularBuffer::new(2);
    assert!(empty.first_mut().is_none());
    assert!(empty.last_mut().is_none());
    assert!(empty.iter_mut().is_empty());
}

#[test]
fn swap_and_reverse_follow_logical_order() {
    let mut cb = CircularBuffer::from(vec![1, 2, 3, 4]);
    cb.push_back(5);
    cb.push_back(6);
    cb.swap(0, 3);
    assert_eq!(contents(&cb), vec![6, 4, 5, 3]);
    cb.swap(2, 2);
    assert_eq!(contents(&cb), vec![6, 4, 5, 3]);
    cb.reverse();
    assert_eq!(contents(&cb), vec![3, 5, 4, 6]);
    cb.pop_front();
    cb.reverse();
    assert_eq!(contents(&cb), vec![6, 4, 5]);
    let mut one = CircularBuffer::from(vec![1]);
    one.reverse();
    assert_eq!(contents(&one), vec![1]);
}

#[test]
fn draining_removes_only_what_was_pulled() {
    let mut cb = CircularBuffer::from(vec![1, 2, 3]);
    {
        let mut drain = cb.drain();
        assert_eq!(drain.next(), Some(1));
    }
    assert_eq!(contents(&cb), vec![2, 3]);
    let mut drain = cb.drain();
    assert_eq!(drain.next(), Some(2));
    assert_eq!(drain.next(), Some(3));
    assert_eq!(drain.next(), None);
    assert_eq!(drain.next(), None);
}

#[test]
fn iteration_can_be_repeated() {
    let mut cb = CircularBuffer::from(vec![1, 2, 3]);
    cb.push_back(4);
    assert_eq!(cb.iter(), vec![&2, &3, &4]);
    assert_eq!(cb.iter(), vec![&2, &3, &4]);
    assert_eq!(cb.len(), 3);
    let mut it = cb.into_iter();
    assert_eq!(it.next(), Some(2));
    assert_eq!(it.next(), Some(3));
    assert_eq!(it.next(), Some(4));
    assert_eq!(it.next(), None);
}

#[test]
fn equality_ignores_the_layout() {
    let mut wrapped = CircularBuffer::new(3);
    for v in 1..=5 {
        wrapped.push_back(v);
    }
    let straight = CircularBuffer::from(vec![3, 4, 5]);
    let larger = {
        let mut cb = CircularBuffer::new(9);
        cb.extend(vec![3, 4, 5]);
        cb
    };
    assert!(wrapped.eq(&straight));
    assert!(wrapped.eq(&larger));
    assert!(wrapped.eq_slice(&[3, 4, 5]));
    assert!(!wrapped.eq_slice(&[3, 4]));
    assert!(!wrapped.eq_slice(&[3, 4, 6]));
    assert_eq!(wrapped.cmp(&straight), Ordering::Equal);
    let clone = wrapped.clone();
    assert!(clone.eq(&wrapped));
    assert_eq!(clone.capacity(), 3);
}

#[test]
fn ordering_is_lexicographic() {
    let a = CircularBuffer::from(vec![1, 2, 3]);
    let b = CircularBuffer::from(vec![1, 2, 4]);
    let prefix = CircularBuffer::from(vec![1, 2]);
    let empty: CircularBuffer<i32> = CircularBuffer::new(2);
    assert_eq!(a.cmp(&b), Ordering::Less);
    assert_eq!(b.cmp(&a), Ordering::Greater);
    assert_eq!(prefix.cmp(&a), Ordering::Less);
    assert_eq!(a.cmp(&prefix), Ordering::Greater);
    assert_eq!(empty.cmp(&prefix), Ordering::Less);
    assert_eq!(empty.cmp(&empty), Ordering::Equal);
    assert_eq!(a.partial_cmp(&b), Some(Ordering::Less));
    assert_eq!(a.partial_cmp(&a), Some(Ordering::Equal));
    assert_eq!(prefix.partial_cmp(&empty), Some(Ordering::Greater));
}
