use super::forest::{lemma_compress, lemma_link, lemma_push, lemma_root_is_root, ranked, root, Data};
use crate::clone_law::exact_clone;
use crate::hashing::valid_keys;
use std::collections::hash_map::Entry;
use std::collections::hash_map::RandomState;
use std::collections::HashMap;
use std::hash::{BuildHasher, Hash};
use vstd::prelude::*;
use vstd::std_specs::iter::IteratorSpec;

verus! {

/// A partition of the elements seen so far into disjoint subsets.
///
/// Each element has an id, given in the order in which the elements came.
/// The ids form a forest in which each subset is one tree; the root of the
/// tree is the representative of the subset.
#[verifier::reject_recursive_types(S)]
pub struct DisjointSet<T, S = RandomState> where T: Eq + Hash, S: BuildHasher {
    ids: HashMap<T, usize, S>,
    data_by_id: Vec<Data>,
    level: Ghost<Seq<nat>>,
    top: Ghost<nat>,
}

impl<T, S> DisjointSet<T, S> where T: Eq + Hash, S: BuildHasher {
    /// Well-formedness: the elements have the ids from zero up to their
    /// number, each id once, and the parent links form a forest.
    pub closed spec fn wf(&self) -> bool {
        &&& self.ids@.dom().finite()
        &&& self.ids@.len() == self.data_by_id@.len()
        &&& forall|k: T| self.ids@.contains_key(k) ==> (#[trigger] self.ids@[k]) < self.data_by_id@.len()
        &&& forall|j: T, k: T|
            self.ids@.contains_key(j) && self.ids@.contains_key(k) && #[trigger] self.ids@[j]
                == #[trigger] self.ids@[k] ==> j == k
        &&& ranked(self.data_by_id@, self.level@, self.top@)
    }

    /// Whether `x` has been added to the collection.
    pub closed spec fn has(&self, x: T) -> bool {
        self.ids@.contains_key(x)
    }

    /// The number of elements in the collection.
    pub closed spec fn spec_len(&self) -> nat {
        self.ids@.len()
    }

    /// The id of the representative of the subset of an element of the
    /// collection.
    pub closed spec fn root_id(&self, x: T) -> int {
        root(self.data_by_id@, self.level@, self.top@, self.ids@[x] as int)
    }

    /// Whether `x` and `y` are in the same subset. An element that has not
    /// been added is in a subset of its own.
    pub open spec fn same_set(&self, x: T, y: T) -> bool {
        if self.has(x) && self.has(y) {
            self.root_id(x) == self.root_id(y)
        } else {
            x == y
        }
    }

    /// The two collections hold the same elements in the same subsets.
    pub open spec fn same_partition(&self, other: &Self) -> bool {
        &&& forall|x: T| self.has(x) == other.has(x)
        &&& forall|x: T, y: T| self.same_set(x, y) == other.same_set(x, y)
    }

    /// Creates a new, empty `DisjointSet`.
    pub fn new() -> (r: Self) where S: Default
        ensures
            r.wf(),
            r.spec_len() == 0,
            forall|x: T| !r.has(x),
    {
        Default::default()
    }

    /// Creates an empty `DisjointSet` with room for `capacity` elements.
    pub fn with_capacity(capacity: usize) -> (r: Self) where S: Default
        ensures
            r.wf(),
            r.spec_len() == 0,
            forall|x: T| !r.has(x),
    {
        Self {
            ids: HashMap::with_capacity_and_hasher(capacity, Default::default()),
            data_by_id: Vec::with_capacity(capacity),
            level: Ghost(Seq::empty()),
            top: Ghost(0),
        }
    }

    /// Creates an empty `DisjointSet` which hashes its elements with
    /// `hash_builder`.
    pub fn with_hasher(hash_builder: S) -> (r: Self)
        ensures
            r.wf(),
            r.spec_len() == 0,
            forall|x: T| !r.has(x),
    {
        Self {
            ids: HashMap::with_hasher(hash_builder),
            data_by_id: Vec::new(),
            level: Ghost(Seq::empty()),
            top: Ghost(0),
        }
    }

    /// Creates an empty `DisjointSet` with room for `capacity` elements,
    /// which hashes its elements with `hash_builder`.
    pub fn with_capacity_and_hasher(capacity: usize, hash_builder: S) -> (r: Self)
        ensures
            r.wf(),
            r.spec_len() == 0,
            forall|x: T| !r.has(x),
    {
        Self {
            ids: HashMap::with_capacity_and_hasher(capacity, hash_builder),
            data_by_id: Vec::with_capacity(capacity),
            level: Ghost(Seq::empty()),
            top: Ghost(0),
        }
    }

    /// Checks if `val` has been added to the collection.
    pub fn contains(&self, val: &T) -> (r: bool)
        requires
            valid_keys::<T, S>(),
        ensures
            r == self.has(*val),
    {
        broadcast use vstd::std_specs::hash::group_hash_axioms;

        self.ids.contains_key(val)
    }

    /// Checks if the collection holds no element.
    pub fn is_empty(&self) -> (r: bool)
        requires
            self.wf(),
        ensures
            r == (self.spec_len() == 0),
    {
        self.ids.is_empty()
    }

    /// Returns the number of elements in the collection.
    pub fn len(&self) -> (r: usize)
        requires
            valid_keys::<T, S>(),
        ensures
            r == self.spec_len(),
    {
        broadcast use vstd::std_specs::hash::group_hash_axioms;

        self.ids.len()
    }

    /// Removes every element.
    pub fn clear(&mut self)
        ensures
            final(self).wf(),
            final(self).spec_len() == 0,
            forall|x: T| !final(self).has(x),
    {
        self.ids.clear();
        self.data_by_id.clear();
        proof {
            self.level = Ghost(Seq::empty());
            self.top = Ghost(0);
        }
    }

    /// Makes room for `additional` more elements.
    pub fn reserve(&mut self, additional: usize)
        ensures
            final(self).wf() == old(self).wf(),
            final(self).spec_len() == old(self).spec_len(),
            final(self).same_partition(old(self)),
    {
        self.data_by_id.reserve(additional);
        self.ids.reserve(additional);
    }
}

impl<T, S> Default for DisjointSet<T, S> where T: Eq + Hash, S: BuildHasher + Default {
    /// Creates a new, empty `DisjointSet`.
    fn default() -> (r: Self)
        ensures
            r.wf(),
            r.spec_len() == 0,
            forall|x: T| !r.has(x),
    {
        Self {
            ids: HashMap::default(),
            data_by_id: Vec::default(),
            level: Ghost(Seq::empty()),
            top: Ghost(0),
        }
    }
}

impl<T, S> DisjointSet<T, S> where T: Eq + Hash, S: BuildHasher {
    /// Creates a subset with the single element `val`. If `val` is in the
    /// collection already, nothing happens.
    pub fn make_set(&mut self, val: T)
        requires
            valid_keys::<T, S>(),
            old(self).wf(),
        ensures
            final(self).wf(),
            forall|x: T| final(self).has(x) == (old(self).has(x) || x == val),
            forall|x: T, y: T| final(self).same_set(x, y) == old(self).same_set(x, y),
    {
        self.make_or_get_set(val);
    }

    fn make_or_get_set(&mut self, val: T) -> (id: usize)
        requires
            valid_keys::<T, S>(),
            old(self).wf(),
        ensures
            final(self).wf(),
            final(self).has(val),
            id == final(self).ids@[val],
            forall|x: T| final(self).has(x) == (old(self).has(x) || x == val),
            forall|x: T| old(self).has(x) ==> final(self).ids@[x] == old(self).ids@[x],
            forall|x: T, y: T| final(self).same_set(x, y) == old(self).same_set(x, y),
            forall|x: T| old(self).has(x) ==> final(self).root_id(x) == old(self).root_id(x),
            !old(self).has(val) ==> final(self).root_id(val) == id,
    {
        broadcast use vstd::std_specs::hash::group_hash_axioms;

        let next_id = self.ids.len();
        let ghost data = self.data_by_id@;
        let ghost level = self.level@;
        let ghost top = self.top@;
        let ghost ids = self.ids@;
        //insert but do not override existing one
        match self.ids.entry(val) {
            Entry::Vacant(entry) => {
                entry.insert(next_id);
                //make element its own parent
                let node = Data::new(next_id);
                self.data_by_id.push(node);
                proof {
                    self.level = Ghost(level.push(0));
                    assert(self.ids@ == ids.insert(val, next_id));
                    assert forall|j: int| 0 <= j <= data.len() implies ranked(
                        self.data_by_id@,
                        self.level@,
                        top,
                    ) && root(self.data_by_id@, self.level@, top, j) == (if j == data.len() {
                        j
                    } else {
                        root(data, level, top, j)
                    }) by {
                        lemma_push(data, level, top, node, j);
                    }
                    assert forall|x: T| old(self).has(x) implies self.root_id(x) == old(self).root_id(x) by {
                        assert(self.ids@[x] == ids[x]);
                    }
                    assert forall|x: T, y: T| self.same_set(x, y) == old(self).same_set(x, y) by {
                        if self.has(x) && self.has(y) {
                            if x == val || y == val {
                                if x != y {
                                    let other = if x == val {
                                        y
                                    } else {
                                        x
                                    };
                                    assert(old(self).has(other));
                                    lemma_root_is_root(data, level, top, ids[other] as int);
                                }
                            } else {
                                assert(self.ids@[x] == ids[x]);
                                assert(self.ids@[y] == ids[y]);
                            }
                        }
                    }
                }
                next_id
            },
            Entry::Occupied(entry) => {
                let id = *entry.get();
                proof {
                    assert(self.ids@ =~= ids);
                }
                id
            },
        }
    }

    fn find_with_path_compression(
        data_by_id: &mut Vec<Data>,
        id: usize,
        Ghost(level): Ghost<Seq<nat>>,
        Ghost(top): Ghost<nat>,
    ) -> (r: usize)
        requires
            ranked(old(data_by_id)@, level, top),
            id < old(data_by_id)@.len(),
        ensures
            r == root(old(data_by_id)@, level, top, id as int),
            r < old(data_by_id)@.len(),
            ranked(final(data_by_id)@, level, top),
            final(data_by_id)@.len() == old(data_by_id)@.len(),
            forall|j: int|
                0 <= j < old(data_by_id)@.len() ==> root(final(data_by_id)@, level, top, j) == root(
                    old(data_by_id)@,
                    level,
                    top,
                    j,
                ),
        decreases top - level[id as int],
    {
        let mut parent = data_by_id[id].parent;
        proof {
            lemma_root_is_root(old(data_by_id)@, level, top, id as int);
        }
        if parent != id {
            parent = Self::find_with_path_compression(data_by_id, parent, Ghost(level), Ghost(top));
            let ghost before = data_by_id@;
            let rank = data_by_id[id].rank;
            data_by_id[id] = Data { parent, rank };
            proof {
                assert forall|j: int| 0 <= j < before.len() implies root(data_by_id@, level, top, j)
                    == root(old(data_by_id)@, level, top, j) && ranked(data_by_id@, level, top) by {
                    lemma_compress(before, level, top, id as int, data_by_id@, j);
                }
            }
        }
        parent
    }

    /// Checks if `a` and `b` are in the same subset. Elements that have not
    /// been added are in no subset.
    pub fn in_union(&mut self, a: &T, b: &T) -> (r: bool)
        requires
            valid_keys::<T, S>(),
            old(self).wf(),
        ensures
            final(self).wf(),
            final(self).same_partition(old(self)),
            r == (old(self).has(*a) && old(self).has(*b) && old(self).same_set(*a, *b)),
    {
        broadcast use vstd::std_specs::hash::group_hash_axioms;

        let a = match self.ids.get(a) {
            Option::None => return false,
            Option::Some(id) => *id,
        };
        let b = match self.ids.get(b) {
            Option::None => return false,
            Option::Some(id) => *id,
        };
        let a_root = Self::find_with_path_compression(
            &mut self.data_by_id,
            a,
            Ghost(self.level@),
            Ghost(self.top@),
        );
        let b_root = Self::find_with_path_compression(
            &mut self.data_by_id,
            b,
            Ghost(self.level@),
            Ghost(self.top@),
        );
        a_root == b_root
    }

    /// Joins the subsets of `a` and `b`. An element that has not been added
    /// is first added as a subset of its own.
    pub fn union(&mut self, a: T, b: T)
        requires
            valid_keys::<T, S>(),
            old(self).wf(),
        ensures
            final(self).wf(),
            forall|x: T| final(self).has(x) == (old(self).has(x) || x == a || x == b),
            forall|x: T, y: T|
                final(self).same_set(x, y) == (old(self).same_set(x, y) || (old(self).same_set(x, a)
                    && old(self).same_set(y, b)) || (old(self).same_set(x, b) && old(self).same_set(y, a))),
    {
        let ghost elem_a = a;
        let ghost elem_b = b;
        let a = self.make_or_get_set(a);
        let ghost first = *self;
        let b = self.make_or_get_set(b);
        let ghost second = *self;
        let a_root = Self::find_with_path_compression(
            &mut self.data_by_id,
            a,
            Ghost(self.level@),
            Ghost(self.top@),
        );
        let b_root = Self::find_with_path_compression(
            &mut self.data_by_id,
            b,
            Ghost(self.level@),
            Ghost(self.top@),
        );
        proof {
            assert forall|x: T| second.has(x) implies self.root_id(x) == second.root_id(x) by {}
            assert(second.root_id(elem_a) == a_root);
            assert(second.root_id(elem_b) == b_root);
            Self::lemma_equivalence(&second);
        }
        if a_root == b_root {
            return ;
        }
        let (a_root, b_root) = if self.data_by_id[a_root].rank < self.data_by_id[b_root].rank {
            (b_root, a_root)
        } else {
            (a_root, b_root)
        };
        let ghost data = self.data_by_id@;
        let ghost level = self.level@;
        let ghost top = self.top@;
        let child_rank = self.data_by_id[b_root].rank;
        self.data_by_id[b_root] = Data { parent: a_root, rank: child_rank };
        let parent_rank = self.data_by_id[a_root].rank;
        if parent_rank == child_rank {
            match parent_rank.checked_add(1) {
                Some(rank) => {
                    self.data_by_id[a_root] = Data { parent: a_root, rank };
                },
                None => {},
            }
        }
        proof {
            lemma_root_is_root(data, level, top, a as int);
            lemma_root_is_root(data, level, top, b as int);
            self.level = Ghost(level.update(a_root as int, top + 1));
            self.top = Ghost(top + 1);
            assert forall|j: int| 0 <= j < data.len() implies ranked(
                self.data_by_id@,
                self.level@,
                self.top@,
            ) && root(self.data_by_id@, self.level@, self.top@, j) == (if root(data, level, top, j)
                == b_root {
                a_root as int
            } else {
                root(data, level, top, j)
            }) by {
                lemma_link(data, level, top, a_root as int, b_root as int, self.data_by_id@, j);
            }
            assert forall|x: T| second.has(x) implies self.root_id(x) == (if second.root_id(x)
                == b_root {
                a_root as int
            } else {
                second.root_id(x)
            }) by {
                assert(0 <= second.ids@[x] < data.len());
            }
        }
    }

    /// Being in the same subset is an equivalence relation.
    pub proof fn lemma_equivalence(s: &Self)
        ensures
            forall|x: T| s.same_set(x, x),
            forall|x: T, y: T| s.same_set(x, y) ==> s.same_set(y, x),
            forall|x: T, y: T, z: T|
                #![trigger s.same_set(x, y), s.same_set(y, z)]
                s.same_set(x, y) && s.same_set(y, z) ==> s.same_set(x, z),
    {
    }
}

impl<T, S> DisjointSet<T, S> where T: Eq + Hash, S: BuildHasher {
    /// The collection holds the elements it held in `before` and the first
    /// `n` elements of `items`; the new ones are in subsets of their own.
    pub open spec fn extended_by(&self, before: &Self, items: Seq<T>, n: int) -> bool {
        &&& forall|x: T|
            self.has(x) == (before.has(x) || exists|i: int| 0 <= i < n && items[i] == x)
        &&& forall|x: T, y: T| self.same_set(x, y) == before.same_set(x, y)
    }

    /// Creates a collection in which each element of `items` is in a subset
    /// of its own.
    pub fn from_iter(items: Vec<T>) -> (r: Self) where S: Default
        requires
            valid_keys::<T, S>(),
        ensures
            r.wf(),
            forall|x: T| r.has(x) == items@.contains(x),
            forall|x: T, y: T| r.same_set(x, y) == (x == y),
    {
        let mut ds = Self::with_capacity(items.len());
        let ghost empty = ds;
        ds.extend(items);
        proof {
            assert forall|x: T| ds.has(x) == items@.contains(x) by {
                if ds.has(x) {
                    let i = choose|i: int| 0 <= i < items@.len() && items@[i] == x;
                    assert(items@[i] == x);
                }
            }
        }
        ds
    }

    /// Creates a collection in which a clone of each element of `items` is
    /// in a subset of its own.
    pub fn from_iter_ref(items: &[T]) -> (r: Self) where S: Default, T: Clone
        requires
            valid_keys::<T, S>(),
            exact_clone::<T>(),
        ensures
            r.wf(),
            forall|x: T| r.has(x) == items@.contains(x),
            forall|x: T, y: T| r.same_set(x, y) == (x == y),
    {
        let mut ds = Self::with_capacity(items.len());
        ds.extend_ref(items);
        proof {
            assert forall|x: T| ds.has(x) == items@.contains(x) by {
                if ds.has(x) {
                    let i = choose|i: int| 0 <= i < items@.len() && items@[i] == x;
                    assert(items@[i] == x);
                }
            }
        }
        ds
    }

    /// Adds each element of `items` that is not in the collection yet as a
    /// subset of its own.
    pub fn extend(&mut self, items: Vec<T>)
        requires
            valid_keys::<T, S>(),
            old(self).wf(),
        ensures
            final(self).wf(),
            final(self).extended_by(old(self), items@, items@.len() as int),
    {
        self.reserve(items.len());
        for val in it: items
            invariant
                valid_keys::<T, S>(),
                it.seq() == items@,
                self.wf(),
                self.extended_by(old(self), items@, it.index() as int),
        {
            let ghost before = *self;
            let ghost n = it.index() as int;
            self.make_set(val);
            proof {
                assert forall|x: T|
                    self.has(x) == (old(self).has(x) || exists|i: int|
                        0 <= i < n + 1 && items@[i] == x) by {
                    if before.has(x) && !old(self).has(x) {
                        let i = choose|i: int| 0 <= i < n && items@[i] == x;
                        assert(0 <= i < n + 1 && items@[i] == x);
                    }
                    if x == val {
                        assert(items@[n] == x);
                    }
                }
            }
        }
    }

    /// Adds a clone of each element of `items` that is not in the collection
    /// yet as a subset of its own.
    pub fn extend_ref(&mut self, items: &[T]) where T: Clone
        requires
            valid_keys::<T, S>(),
            exact_clone::<T>(),
            old(self).wf(),
        ensures
            final(self).wf(),
            final(self).extended_by(old(self), items@, items@.len() as int),
    {
        self.reserve(items.len());
        let mut n: usize = 0;
        while n < items.len()
            invariant
                valid_keys::<T, S>(),
                exact_clone::<T>(),
                n <= items@.len(),
                self.wf(),
                self.extended_by(old(self), items@, n as int),
            decreases items@.len() - n,
        {
            let ghost before = *self;
            let val = items[n].clone();
            assert(cloned(items@[n as int], val));
            self.make_set(val);
            proof {
                assert forall|x: T|
                    self.has(x) == (old(self).has(x) || exists|i: int|
                        0 <= i < n + 1 && items@[i] == x) by {
                    if before.has(x) && !old(self).has(x) {
                        let i = choose|i: int| 0 <= i < n && items@[i] == x;
                        assert(0 <= i < n + 1 && items@[i] == x);
                    }
                    if x == val {
                        assert(items@[n as int] == x);
                    }
                }
            }
            n += 1;
        }
    }
}

impl<T, S> Clone for DisjointSet<T, S> where T: Eq + Hash + Clone, S: BuildHasher + Clone {
    /// Clones the elements and the forest.
    fn clone(&self) -> (r: Self)
        ensures
            r.wf() == self.wf(),
            r.spec_len() == self.spec_len(),
            r.same_partition(self),
    {
        let ids = self.ids.clone();
        let mut data_by_id: Vec<Data> = Vec::with_capacity(self.data_by_id.len());
        let mut i: usize = 0;
        while i < self.data_by_id.len()
            invariant
                i <= self.data_by_id@.len(),
                data_by_id@ == self.data_by_id@.subrange(0, i as int),
            decreases self.data_by_id@.len() - i,
        {
            data_by_id.push(self.data_by_id[i]);
            proof {
                assert(data_by_id@ =~= self.data_by_id@.subrange(0, i + 1));
            }
            i += 1;
        }
        proof {
            assert(data_by_id@ =~= self.data_by_id@);
        }
        Self { ids, data_by_id, level: Ghost(self.level@), top: Ghost(self.top@) }
    }
}

/// A walk over the subsets of a `DisjointSet`, each given by references to
/// its elements.
pub struct SetIter<'a, T> where T: 'a + Eq + Hash {
    sets: Vec<Vec<&'a T>>,
}

impl<'a, T> SetIter<'a, T> where T: 'a + Eq + Hash {
    /// The subsets not yet handed out; the last one comes next.
    pub closed spec fn remaining(&self) -> Seq<Vec<&'a T>> {
        self.sets@
    }

    /// Starts a walk over `sets`.
    pub fn new(sets: Vec<Vec<&'a T>>) -> (r: Self)
        ensures
            r.remaining() == sets@,
    {
        Self { sets }
    }

    /// Returns the next subset, or `None` once all were handed out.
    pub fn next(&mut self) -> (r: Option<Vec<&'a T>>)
        ensures
            old(self).remaining().len() == 0 ==> r is None && final(self).remaining() == old(self).remaining(),
            old(self).remaining().len() > 0 ==> r == Some(old(self).remaining().last()) && final(self).remaining() == old(self).remaining().drop_last(),
    {
        self.sets.pop()
    }
}

/// The element at place `i` of group `g`.
pub open spec fn member<T>(groups: Seq<Vec<&T>>, g: int, i: int) -> T {
    *groups[g]@[i]
}

/// Whether group `g` has a place `i`.
pub open spec fn placed<T>(groups: Seq<Vec<&T>>, g: int, i: int) -> bool {
    0 <= g < groups.len() && 0 <= i < groups[g]@.len()
}

impl<T, S> DisjointSet<T, S> where T: Eq + Hash, S: BuildHasher {
    /// `groups` lists the subsets of the collection: every element stands in
    /// exactly one place, no group is empty, and two elements stand in the
    /// same group exactly when they are in the same subset.
    pub open spec fn lists_subsets(&self, groups: Seq<Vec<&T>>) -> bool {
        &&& forall|g: int| 0 <= g < groups.len() ==> (#[trigger] groups[g])@.len() > 0
        &&& forall|g: int, i: int| #[trigger]
            placed(groups, g, i) ==> self.has(member(groups, g, i))
        &&& forall|x: T|
            self.has(x) ==> exists|g: int, i: int| #[trigger]
                placed(groups, g, i) && member(groups, g, i) == x
        &&& forall|g: int, i: int, h: int, j: int|
            #![trigger placed(groups, g, i), placed(groups, h, j)]
            placed(groups, g, i) && placed(groups, h, j) ==> (self.same_set(
                member(groups, g, i),
                member(groups, h, j),
            ) <==> g == h)
        &&& forall|g: int, i: int, j: int|
            #![trigger placed(groups, g, i), placed(groups, g, j)]
            placed(groups, g, i) && placed(groups, g, j) && i != j ==> member(groups, g, i)
                != member(groups, g, j)
    }
}

impl<T, S> DisjointSet<T, S> where T: Eq + Hash, S: BuildHasher {
    /// Returns a walk over the subsets of the collection, in any order.
    pub fn into_iter<'a>(&'a mut self) -> (r: SetIter<'a, T>)
        requires
            valid_keys::<T, S>(),
            old(self).wf(),
        ensures
            final(self).wf(),
            final(self).same_partition(old(self)),
            old(self).lists_subsets(r.remaining()),
    {
        SetIter::new(self.build_sets())
    }

    fn build_sets<'a>(&'a mut self) -> (sets: Vec<Vec<&'a T>>)
        requires
            valid_keys::<T, S>(),
            old(self).wf(),
        ensures
            final(self).wf(),
            final(self).same_partition(old(self)),
            old(self).lists_subsets(sets@),
    {
        broadcast use vstd::std_specs::hash::group_hash_axioms;

        let n = self.data_by_id.len();
        let ghost level = self.level@;
        let ghost top = self.top@;
        let ghost data = self.data_by_id@;
        let ghost ids = self.ids@;
        let mut buckets: Vec<Vec<&'a T>> = Vec::with_capacity(n);
        let mut made: usize = 0;
        while made < n
            invariant
                made <= n,
                buckets@.len() == made,
                forall|b: int| 0 <= b < made ==> (#[trigger] buckets@[b])@.len() == 0,
            decreases n - made,
        {
            buckets.push(Vec::new());
            made += 1;
        }
        let ghost src: Seq<Seq<int>> = Seq::new(n as nat, |b: int| Seq::empty());
        let ghost place: Seq<(int, int)> = Seq::empty();
        let ghost listed = self.ids.iter().remaining();
        proof {
            assert forall|j: int| 0 <= j < listed.len() implies ids.contains_key(*listed[j].0)
                && ids[*listed[j].0] == *listed[j].1 by {
                assert(ids.contains_key(*listed[j].0));
            }
        }
        for pair in it: self.ids.iter()
            invariant
                it.seq() == listed,
                self.ids@ == ids,
                self.level@ == level,
                self.top@ == top,
                old(self).wf(),
                old(self).ids@ == ids,
                old(self).data_by_id@ == data,
                data.len() == n,
                forall|j: int|
                    0 <= j < listed.len() ==> ids.contains_key(*(#[trigger] listed[j]).0)
                        && ids[*listed[j].0] == *listed[j].1,
                ranked(self.data_by_id@, level, top),
                self.data_by_id@.len() == n,
                forall|j: int|
                    0 <= j < n ==> root(self.data_by_id@, level, top, j) == root(
                        data,
                        level,
                        top,
                        j,
                    ),
                buckets@.len() == n,
                src.len() == n,
                place.len() == it.index(),
                forall|b: int| 0 <= b < n ==> (#[trigger] buckets@[b])@.len() == src[b].len(),
                forall|b: int, i: int|
                    0 <= b < n && 0 <= i < src[b].len() ==> 0 <= (#[trigger] src[b][i]) < it.index()
                        && buckets@[b]@[i] == listed[src[b][i]].0 && root(
                        data,
                        level,
                        top,
                        *listed[src[b][i]].1 as int,
                    ) == b,
                forall|b: int, i: int, j: int|
                    0 <= b < n && 0 <= i < j < src[b].len() ==> (#[trigger] src[b][i])
                        < #[trigger] src[b][j],
                forall|j: int|
                    0 <= j < it.index() ==> 0 <= (#[trigger] place[j]).0 < n && 0 <= place[j].1
                        < src[place[j].0].len() && src[place[j].0][place[j].1] == j,
        {
            let ghost k = it.index() as int;
            let ghost old_src = src;
            let ghost old_place = place;
            proof {
                assert(ids.contains_key(*listed[k].0) && ids[*listed[k].0] == *listed[k].1);
                assert(*pair.1 == ids[*listed[k].0]);
            }
            let found = Self::find_with_path_compression(
                &mut self.data_by_id,
                *pair.1,
                Ghost(level),
                Ghost(top),
            );
            buckets[found].push(pair.0);
            proof {
                src = old_src.update(found as int, old_src[found as int].push(k));
                place = old_place.push((found as int, old_src[found as int].len() as int));
                assert forall|b: int, i: int| 0 <= b < n && 0 <= i < src[b].len() implies 0 <= (
                #[trigger] src[b][i]) < k + 1 && buckets@[b]@[i] == listed[src[b][i]].0 && root(
                    data,
                    level,
                    top,
                    *listed[src[b][i]].1 as int,
                ) == b by {
                    if b == found && i == old_src[b].len() {
                    } else {
                        assert(src[b][i] == old_src[b][i]);
                    }
                }
                assert forall|b: int, i: int, j: int|
                    0 <= b < n && 0 <= i < j < src[b].len() implies (#[trigger] src[b][i])
                    < #[trigger] src[b][j] by {
                    if b == found && j == old_src[b].len() {
                        assert(src[b][i] == old_src[b][i]);
                    } else {
                        assert(src[b][i] == old_src[b][i]);
                        assert(src[b][j] == old_src[b][j]);
                    }
                }
                assert forall|j: int| 0 <= j < k + 1 implies 0 <= (#[trigger] place[j]).0 < n && 0
                    <= place[j].1 < src[place[j].0].len() && src[place[j].0][place[j].1] == j by {
                    if j < k {
                        assert(place[j] == old_place[j]);
                        assert(src[place[j].0][place[j].1] == old_src[place[j].0][place[j].1]);
                    }
                }
            }
        }
        let ghost filled = buckets@;
        let mut sets: Vec<Vec<&'a T>> = Vec::new();
        let ghost origin: Seq<int> = Seq::empty();
        let ghost slot: Seq<int> = Seq::empty();
        for bucket in walk: buckets
            invariant
                walk.seq() == filled,
                sets@.len() == origin.len(),
                slot.len() == walk.index(),
                forall|g: int|
                    0 <= g < origin.len() ==> 0 <= (#[trigger] origin[g]) < walk.index() && sets@[g]
                        == filled[origin[g]] && filled[origin[g]]@.len() > 0,
                forall|g: int, h: int|
                    0 <= g < h < origin.len() ==> (#[trigger] origin[g]) < #[trigger] origin[h],
                forall|b: int|
                    0 <= b < walk.index() && filled[b]@.len() > 0 ==> 0 <= (#[trigger] slot[b])
                        < origin.len() && origin[slot[b]] == b,
        {
            let ghost b = walk.index() as int;
            let ghost old_slot = slot;
            let ghost old_origin = origin;
            if bucket.len() > 0 {
                sets.push(bucket);
                proof {
                    origin = old_origin.push(b);
                    slot = old_slot.push(old_origin.len() as int);
                }
            } else {
                proof {
                    slot = old_slot.push(-1);
                }
            }
            proof {
                assert forall|c: int|
                    0 <= c < b + 1 && filled[c]@.len() > 0 implies 0 <= (#[trigger] slot[c])
                    < origin.len() && origin[slot[c]] == c by {
                    if c < b {
                        assert(slot[c] == old_slot[c]);
                        assert(origin[slot[c]] == old_origin[old_slot[c]]);
                    }
                }
            }
        }
        proof {
            let groups = sets@;
            assert(old(self).data_by_id@ == data && old(self).level@ == level && old(self).top@
                == top && old(self).ids@ == ids);
            assert forall|g: int| 0 <= g < groups.len() implies (#[trigger] groups[g])@.len()
                > 0 by {
                assert(sets@[g] == filled[origin[g]]);
            }
            assert forall|g: int, i: int| #[trigger] placed(groups, g, i) implies 0 <= origin[g] < n
                && 0 <= i < src[origin[g]].len() && groups[g]@[i] == listed[src[origin[g]][i]].0
                && old(self).has(member(groups, g, i)) && old(self).root_id(member(groups, g, i))
                == origin[g] by {
                let b = origin[g];
                assert(sets@[g] == filled[b]);
                let j = src[b][i];
                assert(ids.contains_key(*listed[j].0) && ids[*listed[j].0] == *listed[j].1);
            }
            assert forall|x: T| old(self).has(x) implies exists|g: int, i: int| #[trigger]
                placed(groups, g, i) && member(groups, g, i) == x by {
                assert(listed.contains((&x, &ids[x])));
                let j = choose|j: int| 0 <= j < listed.len() && listed[j] == (&x, &ids[x]);
                let b = place[j].0;
                let i = place[j].1;
                assert(src[b][i] == j);
                assert(filled[b]@.len() > 0);
                let g = slot[b];
                assert(origin[g] == b);
                assert(sets@[g] == filled[b]);
                assert(placed(groups, g, i) && member(groups, g, i) == x);
            }
            assert forall|g: int, i: int, h: int, j: int|
                #![trigger placed(groups, g, i), placed(groups, h, j)]
                placed(groups, g, i) && placed(groups, h, j) implies (old(self).same_set(
                member(groups, g, i),
                member(groups, h, j),
            ) <==> g == h) by {
                if g < h {
                    assert(origin[g] < origin[h]);
                } else if h < g {
                    assert(origin[h] < origin[g]);
                }
            }
            assert forall|g: int, i: int, j: int|
                #![trigger placed(groups, g, i), placed(groups, g, j)]
                placed(groups, g, i) && placed(groups, g, j) && i != j implies member(groups, g, i)
                != member(groups, g, j) by {
                let b = origin[g];
                let ji = src[b][i];
                let jj = src[b][j];
                if i < j {
                    assert(src[b][i] < src[b][j]);
                } else {
                    assert(src[b][j] < src[b][i]);
                }
                assert(ids.contains_key(*listed[ji].0) && ids[*listed[ji].0] == *listed[ji].1);
                assert(ids.contains_key(*listed[jj].0) && ids[*listed[jj].0] == *listed[jj].1);
                if member(groups, g, i) == member(groups, g, j) {
                    assert(listed[ji] == listed[jj]);
                }
            }
        }
        sets
    }
}

} // verus!
