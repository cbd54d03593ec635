use advanced_collections::disjoint_set::DisjointSet;

#[test]
fn create() {
    let arr = [1, 2, 3];
    let ds: DisjointSet<i32> = DisjointSet::from_iter_ref(&arr);
    assert_eq!(ds.len(), 3);
}

#[test]
fn contains() {
    let arr = [1, 2, 3];
    let ds: DisjointSet<i32> = DisjointSet::from_iter_ref(&arr);
    assert!(ds.contains(&1));
    assert!(ds.contains(&2));
    assert!(ds.contains(&3));
    assert!(!ds.contains(&4));
    assert!(!ds.contains(&0));
}

#[test]
fn make_set() {
    let mut ds: DisjointSet<i32> = DisjointSet::new();
    ds.make_set(3);
    ds.make_set(4);
    assert!(ds.contains(&3));
    assert!(ds.contains(&4));
    assert!(!ds.contains(&0));
    ds.make_set(4);
    assert!(ds.contains(&4));
}

#[test]
fn union() {
    let mut ds: DisjointSet<i32> = DisjointSet::new();
    ds.union(3, 4);
    ds.union(5, 6);
    //union() should create sets:
    assert!(ds.contains(&3));
    assert!(ds.contains(&4));
    assert!(ds.contains(&5));
    assert!(ds.contains(&6));
    //with valid relations:
    assert!(ds.in_union(&3, &4));
    assert!(ds.in_union(&5, &6));
    assert!(!ds.in_union(&4, &5));
    ds.union(4, 5);
    assert!(ds.in_union(&4, &5));
    assert!(ds.in_union(&3, &6));
}

#[test]
fn disjoint_set_joins_existing_and_new_elements() {
    let arr = [1, 2, 3, 4, 5, 6, 7];
    let mut ds: DisjointSet<i32> = DisjointSet::from_iter_ref(&arr);
    ds.union(1, 2);
    ds.union(1, 8);
    assert!(ds.in_union(&2, &8));
    assert!(!ds.in_union(&3, &4));
    assert!(ds.contains(&7));
    assert!(!ds.contains(&10));
    assert_eq!(ds.len(), 8);
}

#[test]
fn disjoint_set_absent_elements_are_in_no_union() {
    let mut ds: DisjointSet<i32> = DisjointSet::new();
    assert!(ds.is_empty());
    assert!(!ds.in_union(&1, &1));
    ds.make_set(1);
    assert!(ds.in_union(&1, &1));
    assert!(!ds.in_union(&1, &2));
    assert!(!ds.in_union(&2, &1));
    assert!(!ds.is_empty());
}

#[test]
fn disjoint_set_long_chains_keep_one_subset() {
    let mut ds: DisjointSet<u32> = DisjointSet::with_capacity(64);
    for i in 0..63u32 {
        ds.union(i, i + 1);
    }
    for i in 0..64u32 {
        assert!(ds.in_union(&0, &i));
    }
    ds.make_set(100);
    assert!(!ds.in_union(&0, &100));
    assert_eq!(ds.len(), 65);
}

#[test]
fn disjoint_set_clear_and_extend() {
    let mut ds: DisjointSet<i32> = DisjointSet::from_iter(vec![1, 2, 2, 3]);
    assert_eq!(ds.len(), 3);
    ds.union(1, 3);
    let copy = ds.clone();
    ds.clear();
    assert!(ds.is_empty());
    assert!(!ds.contains(&1));
    ds.reserve(4);
    ds.extend(vec![7, 8]);
    ds.extend_ref(&[8, 9]);
    assert_eq!(ds.len(), 3);
    assert!(!ds.in_union(&7, &8));
    let mut copy = copy;
    assert!(copy.in_union(&1, &3));
    assert!(!copy.in_union(&1, &2));
    let by_hasher: DisjointSet<i32> = DisjointSet::with_hasher(Default::default());
    assert!(by_hasher.is_empty());
    let by_both: DisjointSet<i32> = DisjointSet::with_capacity_and_hasher(2, Default::default());
    assert!(by_both.is_empty());
}

#[test]
fn disjoint_set_walk_lists_each_subset_once() {
    let arr = [1, 2, 3, 4, 5, 6, 7];
    let mut ds: DisjointSet<i32> = DisjointSet::from_iter_ref(&arr);
    ds.union(1, 2);
    ds.union(1, 8);
    ds.union(5, 6);
    let mut found: Vec<Vec<i32>> = Vec::new();
    let mut walk = ds.into_iter();
    while let Some(set) = walk.next() {
        let mut elems: Vec<i32> = set.into_iter().map(|e| *e).collect();
        elems.sort();
        found.push(elems);
    }
    found.sort();
    assert_eq!(found, vec![vec![1, 2, 8], vec![3], vec![4], vec![5, 6], vec![7]]);
    assert!(ds.in_union(&2, &8));
    assert!(!ds.in_union(&3, &4));
}

#[test]
fn disjoint_set_walk_of_empty_collection_has_no_subset() {
    let mut ds: DisjointSet<i32> = DisjointSet::new();
    let mut walk = ds.into_iter();
    assert!(walk.next().is_none());
}
