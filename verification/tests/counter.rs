use advanced_collections::counter::Counter;
use std::collections::HashMap;

#[test]
fn new() {
    let _cnt: Counter<i32> = Counter::new();
}

#[test]
fn chars() {
    let s = "Lorem ipsum";
    let cnt: Counter<char> = Counter::from_iter(s.chars().collect());
    assert_eq!(cnt[&'m'], 2)
}

#[test]
fn ints() {
    let arr = [1, 2, 3, 1, 2, 3, 1, 2, 3];
    let mut cnt: Counter<i32> = Counter::from_iter_ref(&arr);
    assert_eq!(cnt.len(), 3);
    assert_eq!(cnt[&2], 3);
    cnt.extend_ref(&[1, 2, 3, 4, 5]);
    assert_eq!(cnt.len(), 5);
    assert_eq!(cnt[&1], 4);
}

#[test]
fn counter_push_counts_each_occurrence() {
    let mut c: Counter<char> = Counter::new();
    c.push('a');
    c.push('a');
    c.push('b');
    assert_eq!(c[&'a'], 2);
    assert_eq!(c[&'b'], 1);
    assert_eq!(c.get(&'c'), None);
    assert_eq!(c.len(), 2);
}

#[test]
fn counter_most_common_starts_with_largest_count() {
    let mut c: Counter<char> = Counter::new();
    c.extend("abcdaab".chars().collect());
    let mc = c.most_common();
    assert_eq!(mc.len(), 4);
    assert_eq!(mc[0], ('a', 3));
    assert_eq!(mc[1], ('b', 2));
    assert_eq!(mc[2].1, 1);
    assert_eq!(mc[3].1, 1);
    let owned = c.into_most_common();
    assert_eq!(owned[0], ('a', 3));
    assert_eq!(owned[1], ('b', 2));
    assert_eq!(owned.len(), 4);
}

#[test]
fn counter_from_hashmap_keeps_counts() {
    let mut m = HashMap::new();
    m.insert(3, 4);
    m.insert(5, 1);
    let c = Counter::from_hashmap(m.clone());
    assert_eq!(c.len(), 2);
    assert_eq!(c[&3], 4);
    let d: Counter<i32> = Counter::from_hashmap_ref(&m);
    assert_eq!(d[&5], 1);
    let e: Counter<i32> = Counter::from(m);
    assert_eq!(e[&3], 4);
    assert_eq!(e.len(), 2);
}

#[test]
fn counter_add_sums_counts() {
    let a: Counter<char> = Counter::from_iter("Lorem ipsum dolor sit amet enim.".chars().collect());
    assert_eq!(a.get(&'o'), Some(&3usize));
    let b: Counter<char> = Counter::from_iter("Etiam ullamcorper.".chars().collect());
    let mut sum = a.clone();
    sum.add_assign_ref(&b);
    assert_eq!(sum.get(&'o'), Some(&4usize));
    assert_eq!(sum.get(&'E'), Some(&1usize));
    let sum2 = a.clone() + &b;
    assert_eq!(*sum2, *sum);
    let sum3 = a + b;
    assert_eq!(*sum3, *sum);
}

#[test]
fn counter_sub_drops_exhausted_elements() {
    let a: Counter<i32> = Counter::from_iter(vec![1, 1, 1, 2, 2, 3]);
    let b: Counter<i32> = Counter::from_iter(vec![1, 2, 2, 3, 3, 4]);
    let mut d = a.clone();
    d.sub_assign_ref(&b);
    assert_eq!(d.get(&1), Some(&2usize));
    assert_eq!(d.get(&2), None);
    assert_eq!(d.get(&3), None);
    assert_eq!(d.get(&4), None);
    assert_eq!(d.len(), 1);
    let e = a.clone() - &b;
    assert_eq!(*e, *d);
    let f = a - b;
    assert_eq!(*f, *d);
}

#[test]
fn counter_constructors_give_empty_counters() {
    let a: Counter<i32> = Counter::with_capacity(5);
    assert_eq!(a.len(), 0);
    assert!(a.capacity() >= 5);
    let b: Counter<i32> = Counter::with_hasher(Default::default());
    assert!(b.is_empty());
    let c: Counter<i32> = Counter::with_capacity_and_hasher(3, Default::default());
    assert!(c.is_empty());
    let d: Counter<i32> = Counter::default();
    assert!(d.into_iter().is_empty());
}

#[test]
fn counter_most_common_orders_many_distinct_counts() {
    let mut items: Vec<u32> = Vec::new();
    for key in 1..=12u32 {
        for _ in 0..key {
            items.push(key);
        }
    }
    let c: Counter<u32> = Counter::from_iter(items);
    let expected: Vec<(u32, usize)> = (1..=12u32).rev().map(|k| (k, k as usize)).collect();
    assert_eq!(c.most_common(), expected);
    assert_eq!(c.clone().into_most_common(), expected);
    let mut pairs = c.into_iter();
    pairs.sort();
    let ascending: Vec<(u32, usize)> = (1..=12u32).map(|k| (k, k as usize)).collect();
    assert_eq!(pairs, ascending);
}
