use advanced_collections::circular_buffer::CircularBuffer;
use std::cell::RefCell;
use std::cmp::Ordering;
use std::rc::Rc;

fn cb_eq<T>(cb: &CircularBuffer<T>, exp: &[T]) -> bool
where
    T: Eq,
{
    cb.eq_slice(exp)
}

#[test]
fn circular_test_create() {
    let _cb: CircularBuffer<i32> = CircularBuffer::new(5);
}

#[test]
fn circular_test_len() {
    let mut cb = CircularBuffer::new(3);
    assert_eq!(cb.len(), 0);
    cb.push_back(1);
    cb.push_back(2);
    assert_eq!(cb.len(), 2);
    cb.push_back(3);
    cb.push_back(4);
    assert_eq!(cb.len(), 3);
    cb.pop_back();
    assert_eq!(cb.len(), 2);
    cb.pop_back();
    cb.pop_back();
    cb.pop_back();
    assert_eq!(cb.len(), 0);
}

#[test]
fn circular_test_full_empty() {
    let mut cb = CircularBuffer::new(3);
    assert!(cb.is_empty());
    assert!(!cb.is_full());
    cb.push_back(1);
    cb.push_back(2);
    assert!(!cb.is_empty());
    assert!(!cb.is_full());
    cb.push_back(3);
    assert!(!cb.is_empty());
    assert!(cb.is_full());
    cb.push_back(4);
    assert!(!cb.is_empty());
    assert!(cb.is_full());
    cb.pop_back();
    assert!(!cb.is_empty());
    assert!(!cb.is_full());
    cb.pop_back();
    cb.pop_back();
    cb.pop_back();
    assert!(cb.is_empty());
    assert!(!cb.is_full());
}

#[test]
fn circular_test_back_push_pop() {
    let mut cb = CircularBuffer::new(3);
    cb.push_back(1);
    cb.push_back(2);
    cb.push_back(3);
    cb.push_back(4);
    assert_eq!(cb.pop_back(), Some(4));
    assert_eq!(cb.pop_back(), Some(3));
    assert_eq!(cb.pop_back(), Some(2));
    assert_eq!(cb.pop_back(), None);
}

#[test]
fn circular_test_front_push_pop() {
    let mut cb = CircularBuffer::new(3);
    cb.push_front(1);
    cb.push_front(2);
    cb.push_front(3);
    cb.push_front(4);
    assert_eq!(cb.pop_front(), Some(4));
    assert_eq!(cb.pop_front(), Some(3));
    assert_eq!(cb.pop_front(), Some(2));
    assert_eq!(cb.pop_front(), None);
}

struct Droppable {
    pub counter: Rc<RefCell<usize>>,
}

impl Drop for Droppable {
    fn drop(&mut self) {
        *self.counter.borrow_mut() += 1;
    }
}

#[test]
fn circular_test_droppable() {
    let counter = Rc::new(RefCell::new(0));
    let d = Droppable { counter: counter.clone() };
    assert_eq!(*counter.borrow(), 0);
    drop(d);
    assert_eq!(*counter.borrow(), 1);
}

#[test]
fn circular_test_drops() {
    let counter = Rc::new(RefCell::new(0));
    let d1 = Droppable { counter: counter.clone() };
    let d2 = Droppable { counter: counter.clone() };
    let d3 = Droppable { counter: counter.clone() };
    let d4 = Droppable { counter: counter.clone() };
    let d5 = Droppable { counter: counter.clone() };

    let mut cb = CircularBuffer::new(3);
    cb.push_back(d1);
    cb.push_back(d2);
    cb.pop_back();
    assert_eq!(*counter.borrow(), 1);
    cb.push_back(d3);
    cb.push_back(d4);
    cb.push_back(d5);
    assert_eq!(*counter.borrow(), 2);
    drop(cb);
    assert_eq!(*counter.borrow_mut(), 5);
}

#[test]
fn test_capacity() {
    let mut cb = CircularBuffer::new(5);
    assert_eq!(cb.capacity(), 5);
    cb.push_back(1);
    cb.push_back(2);
    cb.push_back(3);
    assert!(cb_eq(&cb, &[1, 2, 3]));
    assert_eq!(cb.capacity(), 5);
    cb.resize(7);
    assert!(cb_eq(&cb, &[1, 2, 3]));
    cb.resize(2);
    assert!(cb_eq(&cb, &[2, 3]));
}

#[test]
fn test_drain() {
    let mut cb = CircularBuffer::new(4);
    cb.push_back(1);
    cb.push_back(2);
    cb.push_back(3);
    let mut v: Vec<i32> = Vec::new();
    let mut drain = cb.drain();
    while let Some(x) = drain.next() {
        v.push(x);
    }
    assert_eq!(v, vec![1, 2, 3]);
    assert!(cb.is_empty());
}

#[test]
fn test_append() {
    let mut cb1 = CircularBuffer::new(7);
    cb1.push_back(1);
    cb1.push_back(2);
    cb1.push_back(3);

    let mut cb2 = CircularBuffer::new(3);
    cb2.push_back(4);
    cb2.push_back(5);
    cb2.push_back(6);

    cb1.append(&mut cb2);
    assert!(cb_eq(&cb1, &[1, 2, 3, 4, 5, 6]));
}

#[test]
fn test_clear() {
    let mut cb = CircularBuffer::new(7);
    cb.push_back(1);
    cb.push_back(2);
    cb.push_back(3);
    cb.clear();
    assert!(cb.is_empty());
}

#[test]
fn test_access_elems() {
    let mut cb = CircularBuffer::new(3);
    cb.push_back(1);
    cb.push_back(2);
    cb.push_back(3);
    cb.push_back(4);

    assert_eq!(cb.first(), Some(&2));
    assert_eq!(cb[1], 3);
    assert_eq!(cb.last(), Some(&4));

    *cb.first_mut().unwrap() = 5;
    cb[1] = 6;
    *cb.last_mut().unwrap() = 7;

    assert!(cb_eq(&cb, &[5, 6, 7]))
}

#[test]
fn test_slices() {
    let mut cb = CircularBuffer::new(3);
    cb.push_back(1);
    cb.push_back(2);
    cb.push_back(3);
    let (a, b) = cb.slices();
    assert_eq!(a, &[Some(1), Some(2), Some(3)]);
    assert_eq!(b, &[]);
    let (a, b) = cb.slices_mut();
    assert_eq!(a, &[Some(1), Some(2), Some(3)]);
    assert_eq!(b, &[]);
    cb.push_back(4);
    cb.push_back(5);
    let (a, b) = cb.slices();
    assert_eq!(a, &[Some(3), Some(4)]);
    assert_eq!(b, &[Some(5)]);
    let (a, b) = cb.slices_mut();
    assert_eq!(a, &[Some(3), Some(4)]);
    assert_eq!(b, &[Some(5)]);
}

#[test]
fn test_swap() {
    let mut cb = CircularBuffer::new(3);
    cb.push_back(1);
    cb.push_back(2);
    cb.push_back(3);
    cb.push_back(4);
    assert!(cb_eq(&cb, &[2, 3, 4]));
    cb.swap(1, 2);
    assert!(cb_eq(&cb, &[2, 4, 3]));
    cb.swap(0, 2);
    assert!(cb_eq(&cb, &[3, 4, 2]));
}

#[test]
fn test_linearize() {
    let mut cb = CircularBuffer::new(3);
    cb.push_back(1);
    cb.push_back(2);
    cb.push_back(3);
    cb.push_back(4);
    cb.push_back(5);
    assert_eq!(cb.linearize(), &[Some(3), Some(4), Some(5)]);
}

#[test]
fn test_reverse() {
    let mut cb = CircularBuffer::new(3);
    cb.push_back(1);
    cb.push_back(2);
    cb.push_back(3);
    cb.push_back(4);
    cb.push_back(5);
    cb.reverse();
    assert!(cb_eq(&cb, &[5, 4, 3]))
}

#[test]
fn test_iters_val() {
    let mut cb = CircularBuffer::from_iter(vec![1, 2, 3]);
    assert!(cb_eq(&cb, &[1, 2, 3]));
    assert_eq!(cb.capacity(), 3);
    cb.extend(vec![4, 5]);
    assert!(cb_eq(&cb, &[3, 4, 5]));
    let mut v = Vec::new();
    let mut it = cb.into_iter();
    while let Some(x) = it.next() {
        v.push(x);
    }
    assert_eq!(v, vec![3, 4, 5]);
}

#[test]
fn test_iters_ref() {
    let mut cb = CircularBuffer::from_iter_ref(&[1, 2, 3]);
    assert!(cb_eq(&cb, &[1, 2, 3]));
    assert_eq!(cb.capacity(), 3);
    cb.extend_ref(&[4, 5]);
    assert!(cb_eq(&cb, &[3, 4, 5]));
    let v = cb.iter();
    assert_eq!(v, vec![&3, &4, &5]);
}

#[test]
fn test_cmp() {
    let mut c1 = CircularBuffer::from(vec![1, 2, 3]);
    let c2 = CircularBuffer::from(vec![2, 3, 4]);
    assert!(c1.partial_cmp(&c2) == Some(Ordering::Less));
    assert!(c1.cmp(&c2) == Ordering::Less);
    c1.push_back(4);
    assert!(c1.eq(&c2));
    assert!(c1.partial_cmp(&c2) == Some(Ordering::Equal));
    c1.push_back(5);
    assert!(c1.partial_cmp(&c2) == Some(Ordering::Greater));
    assert!(c1.cmp(&c2) == Ordering::Greater);

    let c3 = CircularBuffer::from(vec![2, 3, 4, 5]);
    assert!(c3.partial_cmp(&c2) == Some(Ordering::Greater));
}
