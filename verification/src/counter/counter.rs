use crate::clone_law::exact_clone;
use crate::hashing::valid_keys;
use std::collections::hash_map::RandomState;
use std::collections::HashMap;
use std::hash::{BuildHasher, Hash};
use vstd::prelude::*;
use vstd::std_specs::iter::IteratorSpec;

verus! {

/// Counts recurring elements.
#[derive(Clone, PartialEq, Eq, Debug)]
#[verifier::reject_recursive_types(S)]
pub struct Counter<T, S = RandomState> where T: Hash + Eq, S: BuildHasher {
    counter: HashMap<T, usize, S>,
}

impl<T, S> View for Counter<T, S> where T: Hash + Eq, S: BuildHasher {
    type V = Map<T, usize>;

    /// The count of each element that was seen at least once.
    closed spec fn view(&self) -> Map<T, usize> {
        self.counter@
    }
}

impl<T, S> Counter<T, S> where T: Hash + Eq, S: BuildHasher {
    /// How often `key` was counted in `m`: zero for an element never seen.
    pub open spec fn count_in(m: Map<T, usize>, key: T) -> nat {
        if m.contains_key(key) {
            m[key] as nat
        } else {
            0
        }
    }

    /// Creates a new, empty `Counter`.
    pub fn new() -> (r: Self) where S: Default
        ensures
            r@ == Map::<T, usize>::empty(),
    {
        Default::default()
    }

    /// Creates an empty `Counter` with room for `capacity` different elements.
    pub fn with_capacity(capacity: usize) -> (r: Self) where S: Default
        ensures
            r@ == Map::<T, usize>::empty(),
    {
        Counter { counter: HashMap::with_capacity_and_hasher(capacity, Default::default()) }
    }

    /// Creates an empty `Counter` which hashes its elements with `hash_builder`.
    pub fn with_hasher(hash_builder: S) -> (r: Self)
        ensures
            r@ == Map::<T, usize>::empty(),
    {
        Counter { counter: HashMap::with_hasher(hash_builder) }
    }

    /// Creates an empty `Counter` with room for `capacity` different
    /// elements, which hashes its elements with `hash_builder`.
    pub fn with_capacity_and_hasher(capacity: usize, hash_builder: S) -> (r: Self)
        ensures
            r@ == Map::<T, usize>::empty(),
    {
        Counter { counter: HashMap::with_capacity_and_hasher(capacity, hash_builder) }
    }

    /// Takes the counts from a hash map with the same hasher type.
    pub fn from_hashmap(rhs: HashMap<T, usize, S>) -> (r: Self)
        ensures
            r@ == rhs@,
    {
        Self { counter: rhs }
    }

    /// Counts `val` once more.
    pub fn push(&mut self, val: T)
        requires
            valid_keys::<T, S>(),
            Self::count_in(old(self)@, val) < usize::MAX,
        ensures
            final(self)@ == old(self)@.insert(val, (Self::count_in(old(self)@, val) + 1) as usize),
    {
        let count = self.counter.entry(val).or_insert(0);
        *count += 1;
    }
}

impl<T, S> Default for Counter<T, S> where T: Hash + Eq, S: BuildHasher + Default {
    /// Creates a new, empty `Counter`.
    fn default() -> (r: Self)
        ensures
            r@ == Map::<T, usize>::empty(),
    {
        Counter { counter: HashMap::default() }
    }
}

impl<T, S> Counter<T, S> where T: Hash + Eq, S: BuildHasher {
    /// The counts `m` after each element of `items` was counted once more
    /// for every time it occurs in `items`.
    pub open spec fn tallied(m: Map<T, usize>, items: Seq<T>) -> Map<T, usize> {
        Map::new(
            |k: T| m.contains_key(k) || items.contains(k),
            |k: T| (Self::count_in(m, k) + items.to_multiset().count(k)) as usize,
        )
    }

    /// No count overflows when the elements of `items` are counted into `m`.
    pub open spec fn fits(m: Map<T, usize>, items: Seq<T>) -> bool {
        forall|k: T|
            Self::count_in(m, k) + (#[trigger] items.to_multiset().count(k)) <= usize::MAX
    }

    proof fn lemma_tally_step(m: Map<T, usize>, items: Seq<T>, i: int)
        requires
            0 <= i < items.len(),
            Self::fits(m, items),
        ensures
            Self::count_in(Self::tallied(m, items.subrange(0, i)), items[i]) < usize::MAX,
            Self::tallied(m, items.subrange(0, i + 1)) == Self::tallied(
                m,
                items.subrange(0, i),
            ).insert(
                items[i],
                (Self::count_in(Self::tallied(m, items.subrange(0, i)), items[i]) + 1) as usize,
            ),
            Self::fits(m, items.subrange(0, i + 1)),
    {
        broadcast use vstd::seq_lib::group_to_multiset_ensures;

        let before = items.subrange(0, i);
        let after = items.subrange(0, i + 1);
        let rest = items.subrange(i + 1, items.len() as int);
        assert(after =~= before.push(items[i]));
        assert(items =~= after + rest);
        vstd::seq_lib::lemma_multiset_commutative(after, rest);
        assert forall|k: T| after.to_multiset().count(k) <= items.to_multiset().count(k) by {}
        assert forall|k: T| before.to_multiset().count(k) + (if k == items[i] {
            1int
        } else {
            0int
        }) == #[trigger] after.to_multiset().count(k) by {}
        assert(Self::count_in(m, items[i]) + items.to_multiset().count(items[i]) <= usize::MAX);
        assert(Self::tallied(m, after) =~= Self::tallied(m, before).insert(
            items[i],
            (Self::count_in(Self::tallied(m, before), items[i]) + 1) as usize,
        ));
    }

    /// Counts the elements of `items`.
    pub fn from_iter(items: Vec<T>) -> (r: Self) where S: Default
        requires
            valid_keys::<T, S>(),
        ensures
            r@ == Self::tallied(Map::empty(), items@),
    {
        let mut cnt = Self::with_capacity(items.len());
        proof {
            broadcast use vstd::seq_lib::group_to_multiset_ensures;

            assert forall|k: T|
                Self::count_in(Map::empty(), k) + (#[trigger] items@.to_multiset().count(k))
                    <= usize::MAX by {
                vstd::multiset::axiom_count_le_len(items@.to_multiset(), k);
            }
        }
        cnt.extend(items);
        cnt
    }

    /// Counts the elements of `items` into this counter.
    pub fn extend(&mut self, items: Vec<T>)
        requires
            valid_keys::<T, S>(),
            Self::fits(old(self)@, items@),
        ensures
            final(self)@ == Self::tallied(old(self)@, items@),
    {
        self.counter.reserve(items.len());
        proof {
            broadcast use vstd::seq_lib::group_to_multiset_ensures;

            assert(self@ =~= Self::tallied(old(self)@, items@.subrange(0, 0)));
        }
        for key in it: items
            invariant
                valid_keys::<T, S>(),
                it.seq() == items@,
                Self::fits(old(self)@, items@),
                self@ == Self::tallied(old(self)@, items@.subrange(0, it.index() as int)),
        {
            proof {
                Self::lemma_tally_step(old(self)@, items@, it.index() as int);
            }
            self.push(key);
        }
        proof {
            assert(items@.subrange(0, items@.len() as int) =~= items@);
        }
    }
}

/// The key by which `most_common` sorts: the larger the count, the smaller
/// the key.
pub open spec fn descending_key<T>(pair: (T, usize)) -> int {
    usize::MAX - pair.1
}

/// The pairs stand in ascending order of their keys.
pub open spec fn sorted_by_key<T>(pairs: Seq<(T, usize)>) -> bool {
    forall|i: int, j: int|
        0 <= i <= j < pairs.len() ==> descending_key(pairs[i]) <= descending_key(pairs[j])
}

/// No pair is followed by one with a larger count.
pub open spec fn most_common_first<T>(pairs: Seq<(T, usize)>) -> bool {
    forall|i: int, j: int| 0 <= i <= j < pairs.len() ==> pairs[i].1 >= pairs[j].1
}

/// `pairs` lists each entry of `m` exactly once, and nothing else.
pub open spec fn lists_entries<T>(m: Map<T, usize>, pairs: Seq<(T, usize)>) -> bool {
    pairs.no_duplicates() && pairs.to_set() == m.kv_pairs()
}

fn sort_key<T>(pair: &(T, usize)) -> (key: usize)
    ensures
        key == descending_key(*pair),
{
    usize::MAX - pair.1
}

/// Std's `<[T]>::sort_unstable_by_key`: it puts the elements in ascending
/// order of their keys and neither adds nor drops one. The order among
/// elements with equal keys is left open.
#[verifier::external_body]
fn sort_by_descending_key<T>(pairs: &mut Vec<(T, usize)>)
    ensures
        final(pairs)@.to_multiset() == old(pairs)@.to_multiset(),
        sorted_by_key(final(pairs)@),
{
    pairs.sort_unstable_by_key(|pair| sort_key(pair))
}

/// Std's `Vec::from_iter` on a hash map: a vector that holds each entry of
/// the map once. The order of the entries is left open.
#[verifier::external_body]
fn into_pairs<T, S>(m: HashMap<T, usize, S>) -> (pairs: Vec<(T, usize)>)
    ensures
        (valid_keys::<T, S>() ==> lists_entries(m@, pairs@)),
{
    Vec::from_iter(m)
}

/// A clone of each key of `m` with its value, in the order in which the
/// map is walked.
fn cloned_pairs<T, S>(m: &HashMap<T, usize, S>) -> (r: Vec<(T, usize)>) where
    T: Hash + Eq + Clone,
    S: BuildHasher,

    requires
        valid_keys::<T, S>(),
    ensures
        r@.len() == m@.len(),
        exact_clone::<T>() ==> lists_entries(m@, r@),
{
    broadcast use vstd::std_specs::hash::group_hash_axioms;

    let mut res: Vec<(T, usize)> = Vec::new();
    let ghost listed = m.iter().remaining();
    for pair in it: m.iter()
        invariant
            it.seq() == listed,
            res@.len() == it.index(),
            forall|i: int|
                0 <= i < res@.len() ==> cloned(*listed[i].0, (#[trigger] res@[i]).0) && res@[i].1
                    == *listed[i].1,
    {
        res.push((pair.0.clone(), *pair.1));
    }
    proof {
        assert(listed.len() == m@.dom().len());
        if exact_clone::<T>() {
            assert(res@ =~= listed.unref());
            assert(listed.unref().no_duplicates()) by {
                assert forall|i: int, j: int|
                    0 <= i < listed.len() && 0 <= j < listed.len() && i != j implies listed.unref()[i]
                    != listed.unref()[j] by {
                    assert(listed[i] != listed[j]);
                }
            }
        }
    }
    res
}

/// A rearrangement of a list of the entries of `m` lists them as well.
pub proof fn lemma_rearranged_lists_entries<T>(
    m: Map<T, usize>,
    a: Seq<(T, usize)>,
    b: Seq<(T, usize)>,
)
    requires
        lists_entries(m, a),
        a.to_multiset() == b.to_multiset(),
    ensures
        lists_entries(m, b),
{
    broadcast use vstd::seq_lib::group_to_multiset_ensures;

    a.lemma_multiset_has_no_duplicates();
    b.lemma_multiset_has_no_duplicates_conv();
    assert forall|p: (T, usize)| a.contains(p) <==> b.contains(p) by {
        assert(a.contains(p) <==> a.to_multiset().count(p) > 0);
        assert(b.contains(p) <==> b.to_multiset().count(p) > 0);
    }
    assert(b.to_set() =~= a.to_set());
}

impl<T, S> Counter<T, S> where T: Hash + Eq, S: BuildHasher {
    /// Returns each element with its count, the most common elements first.
    /// Elements with equal counts come in any order.
    pub fn into_most_common(self) -> (r: Vec<(T, usize)>)
        ensures
            most_common_first(r@),
            valid_keys::<T, S>() ==> lists_entries(self@, r@),
    {
        let mut res: Vec<(T, usize)> = into_pairs(self.counter);
        let ghost unsorted = res@;
        sort_by_descending_key(&mut res);
        proof {
            if valid_keys::<T, S>() {
                lemma_rearranged_lists_entries(self@, unsorted, res@);
            }
        }
        res
    }

    /// Returns a clone of each element with its count, the most common
    /// elements first. Elements with equal counts come in any order.
    pub fn most_common(&self) -> (r: Vec<(T, usize)>) where T: Clone
        requires
            valid_keys::<T, S>(),
        ensures
            most_common_first(r@),
            r@.len() == self@.len(),
            exact_clone::<T>() ==> lists_entries(self@, r@),
    {
        let mut res = cloned_pairs(&self.counter);
        let ghost unsorted = res@;
        sort_by_descending_key(&mut res);
        proof {
            broadcast use vstd::seq_lib::group_to_multiset_ensures;

            assert(unsorted.len() == unsorted.to_multiset().len());
            assert(res@.len() == res@.to_multiset().len());
            if exact_clone::<T>() {
                lemma_rearranged_lists_entries(self@, unsorted, res@);
            }
        }
        res
    }
}

impl<T, S> Counter<T, S> where T: Hash + Eq, S: BuildHasher {
    /// The counts of `a` and `b` added up, element by element.
    pub open spec fn summed(a: Map<T, usize>, b: Map<T, usize>) -> Map<T, usize> {
        Map::new(
            |k: T| a.contains_key(k) || b.contains_key(k),
            |k: T| (Self::count_in(a, k) + Self::count_in(b, k)) as usize,
        )
    }

    /// No count overflows when the counts of `a` and `b` are added up.
    pub open spec fn sum_fits(a: Map<T, usize>, b: Map<T, usize>) -> bool {
        forall|k: T| Self::count_in(a, k) + Self::count_in(b, k) <= usize::MAX
    }

    /// The counts of `a` less those of `b`, element by element; an element
    /// of `b` whose count in `a` would not stay above zero is left out.
    pub open spec fn reduced(a: Map<T, usize>, b: Map<T, usize>) -> Map<T, usize> {
        Map::new(
            |k: T| a.contains_key(k) && (!b.contains_key(k) || a[k] > b[k]),
            |k: T| (Self::count_in(a, k) - Self::count_in(b, k)) as usize,
        )
    }

    /// The entries of `m` whose keys are among the first `n` of `pairs`.
    pub open spec fn first_entries(m: Map<T, usize>, pairs: Seq<(T, usize)>, n: int) -> Map<
        T,
        usize,
    > {
        m.restrict(Set::new(|k: T| exists|j: int| 0 <= j < n && pairs[j].0 == k))
    }

    proof fn lemma_first_entries_step(m: Map<T, usize>, pairs: Seq<(T, usize)>, n: int)
        requires
            lists_entries(m, pairs),
            0 <= n < pairs.len(),
        ensures
            m.contains_key(pairs[n].0),
            m[pairs[n].0] == pairs[n].1,
            !Self::first_entries(m, pairs, n).contains_key(pairs[n].0),
            Self::first_entries(m, pairs, n + 1) == Self::first_entries(m, pairs, n).insert(
                pairs[n].0,
                pairs[n].1,
            ),
    {
        assert forall|j: int| 0 <= j < pairs.len() implies m.contains_key(pairs[j].0) && m[pairs[j].0]
            == pairs[j].1 by {
            assert(pairs.to_set().contains(pairs[j]));
            assert(m.kv_pairs().contains(pairs[j]));
        }
        assert forall|j: int| 0 <= j < n implies pairs[j].0 != pairs[n].0 by {
            if pairs[j].0 == pairs[n].0 {
                assert(pairs[j] == pairs[n]);
            }
        }
        assert(Self::first_entries(m, pairs, n + 1) =~= Self::first_entries(m, pairs, n).insert(
            pairs[n].0,
            pairs[n].1,
        ));
    }

    proof fn lemma_first_entries_all(m: Map<T, usize>, pairs: Seq<(T, usize)>)
        requires
            lists_entries(m, pairs),
        ensures
            Self::first_entries(m, pairs, 0) == Map::<T, usize>::empty(),
            Self::first_entries(m, pairs, pairs.len() as int) == m,
    {
        assert(Self::first_entries(m, pairs, 0) =~= Map::<T, usize>::empty());
        assert forall|k: T| m.contains_key(k) implies exists|j: int|
            0 <= j < pairs.len() && pairs[j].0 == k by {
            assert(m.kv_pairs().contains((k, m[k])));
            assert(pairs.to_set().contains((k, m[k])));
            let j = choose|j: int| 0 <= j < pairs.len() && pairs[j] == (k, m[k]);
            assert(pairs[j].0 == k);
        }
        assert(Self::first_entries(m, pairs, pairs.len() as int) =~= m);
    }

    fn add_pairs(&mut self, pairs: Vec<(T, usize)>, Ghost(rhs): Ghost<Map<T, usize>>)
        requires
            valid_keys::<T, S>(),
            lists_entries(rhs, pairs@),
            Self::sum_fits(old(self)@, rhs),
        ensures
            final(self)@ == Self::summed(old(self)@, rhs),
    {
        proof {
            Self::lemma_first_entries_all(rhs, pairs@);
            assert(self@ =~= Self::summed(old(self)@, Self::first_entries(rhs, pairs@, 0)));
        }
        for pair in it: pairs
            invariant
                valid_keys::<T, S>(),
                it.seq() == pairs@,
                lists_entries(rhs, pairs@),
                Self::sum_fits(old(self)@, rhs),
                self@ == Self::summed(
                    old(self)@,
                    Self::first_entries(rhs, pairs@, it.index() as int),
                ),
        {
            let (key, val) = pair;
            proof {
                Self::lemma_first_entries_step(rhs, pairs@, it.index() as int);
                assert(Self::count_in(old(self)@, key) + Self::count_in(rhs, key) <= usize::MAX);
                assert(Self::summed(old(self)@, Self::first_entries(rhs, pairs@, it.index() + 1))
                    =~= self@.insert(key, (Self::count_in(self@, key) + val) as usize));
            }
            let count = self.counter.entry(key).or_insert(0);
            *count += val;
        }
        proof {
            Self::lemma_first_entries_all(rhs, pairs@);
        }
    }

    fn sub_pairs(&mut self, pairs: Vec<(T, usize)>, Ghost(rhs): Ghost<Map<T, usize>>)
        requires
            valid_keys::<T, S>(),
            lists_entries(rhs, pairs@),
        ensures
            final(self)@ == Self::reduced(old(self)@, rhs),
    {
        proof {
            Self::lemma_first_entries_all(rhs, pairs@);
            assert(self@ =~= Self::reduced(old(self)@, Self::first_entries(rhs, pairs@, 0)));
        }
        for pair in it: pairs
            invariant
                valid_keys::<T, S>(),
                it.seq() == pairs@,
                lists_entries(rhs, pairs@),
                self@ == Self::reduced(
                    old(self)@,
                    Self::first_entries(rhs, pairs@, it.index() as int),
                ),
        {
            let (key, val) = pair;
            proof {
                Self::lemma_first_entries_step(rhs, pairs@, it.index() as int);
            }
            match self.counter.entry(key) {
                std::collections::hash_map::Entry::Occupied(mut entry) => {
                    if *entry.get() <= val {
                        entry.remove();
                    } else {
                        let new_val = *entry.get() - val;
                        entry.insert(new_val);
                    }
                },
                std::collections::hash_map::Entry::Vacant(_) => {},
            }
            proof {
                assert(self@ =~= Self::reduced(
                    old(self)@,
                    Self::first_entries(rhs, pairs@, it.index() + 1),
                ));
            }
        }
        proof {
            Self::lemma_first_entries_all(rhs, pairs@);
        }
    }

    /// Adds the counts of `rhs` to the counts of this counter.
    pub fn add_assign<S1>(&mut self, rhs: Counter<T, S1>) where S1: BuildHasher
        requires
            valid_keys::<T, S>(),
            valid_keys::<T, S1>(),
            Self::sum_fits(old(self)@, rhs@),
        ensures
            final(self)@ == Self::summed(old(self)@, rhs@),
    {
        let pairs = into_pairs(rhs.counter);
        self.add_pairs(pairs, Ghost(rhs@))
    }

    /// Adds the counts of `rhs` to the counts of this counter.
    pub fn add_assign_ref<S1>(&mut self, rhs: &Counter<T, S1>) where S1: BuildHasher, T: Clone
        requires
            valid_keys::<T, S>(),
            valid_keys::<T, S1>(),
            exact_clone::<T>(),
            Self::sum_fits(old(self)@, rhs@),
        ensures
            final(self)@ == Self::summed(old(self)@, rhs@),
    {
        let pairs = cloned_pairs(&rhs.counter);
        self.add_pairs(pairs, Ghost(rhs@))
    }

    /// Takes the counts of `rhs` from the counts of this counter. An
    /// element of `rhs` leaves this counter when its count would not stay
    /// above zero.
    pub fn sub_assign<S1>(&mut self, rhs: Counter<T, S1>) where S1: BuildHasher
        requires
            valid_keys::<T, S>(),
            valid_keys::<T, S1>(),
        ensures
            final(self)@ == Self::reduced(old(self)@, rhs@),
    {
        let pairs = into_pairs(rhs.counter);
        self.sub_pairs(pairs, Ghost(rhs@))
    }

    /// Takes the counts of `rhs` from the counts of this counter. An
    /// element of `rhs` leaves this counter when its count would not stay
    /// above zero.
    pub fn sub_assign_ref<S1>(&mut self, rhs: &Counter<T, S1>) where S1: BuildHasher, T: Clone
        requires
            valid_keys::<T, S>(),
            valid_keys::<T, S1>(),
            exact_clone::<T>(),
        ensures
            final(self)@ == Self::reduced(old(self)@, rhs@),
    {
        let pairs = cloned_pairs(&rhs.counter);
        self.sub_pairs(pairs, Ghost(rhs@))
    }

    /// Counts a clone of each element of `items`.
    pub fn from_iter_ref(items: &[T]) -> (r: Self) where S: Default, T: Clone
        requires
            valid_keys::<T, S>(),
            exact_clone::<T>(),
        ensures
            r@ == Self::tallied(Map::empty(), items@),
    {
        let mut cnt = Self::with_capacity(items.len());
        proof {
            assert forall|k: T|
                Self::count_in(Map::empty(), k) + (#[trigger] items@.to_multiset().count(k))
                    <= usize::MAX by {
                vstd::multiset::axiom_count_le_len(items@.to_multiset(), k);
                items@.to_multiset_ensures();
            }
        }
        cnt.extend_ref(items);
        cnt
    }

    /// Counts a clone of each element of `items` into this counter.
    pub fn extend_ref(&mut self, items: &[T]) where T: Clone
        requires
            valid_keys::<T, S>(),
            exact_clone::<T>(),
            Self::fits(old(self)@, items@),
        ensures
            final(self)@ == Self::tallied(old(self)@, items@),
    {
        self.counter.reserve(items.len());
        proof {
            broadcast use vstd::seq_lib::group_to_multiset_ensures;

            assert(self@ =~= Self::tallied(old(self)@, items@.subrange(0, 0)));
        }
        let mut i: usize = 0;
        while i < items.len()
            invariant
                valid_keys::<T, S>(),
                exact_clone::<T>(),
                i <= items@.len(),
                Self::fits(old(self)@, items@),
                self@ == Self::tallied(old(self)@, items@.subrange(0, i as int)),
            decreases items@.len() - i,
        {
            proof {
                Self::lemma_tally_step(old(self)@, items@, i as int);
            }
            let key = items[i].clone();
            assert(cloned(items@[i as int], key));
            self.push(key);
            i += 1;
        }
        proof {
            assert(items@.subrange(0, items@.len() as int) =~= items@);
        }
    }
}

impl<T, S1, S2> core::ops::Add<Counter<T, S1>> for Counter<T, S2> where T: Hash + Eq, S1: BuildHasher, S2: BuildHasher {
    type Output = Counter<T, S2>;

    /// Adds the counts of `rhs` to the counts of this counter.
    fn add(self, rhs: Counter<T, S1>) -> (r: Counter<T, S2>)
        ensures
            r@ == Self::summed(self@, rhs@),
    {
        let mut sum = self;
        sum.add_assign(rhs);
        sum
    }
}

impl<T, S1, S2> vstd::std_specs::ops::AddSpecImpl<Counter<T, S1>> for Counter<T, S2> where T: Hash + Eq, S1: BuildHasher, S2: BuildHasher {
    /// A counter is known by its counts alone, so what `add` returns is
    /// stated by its own postcondition.
    open spec fn obeys_add_spec() -> bool {
        false
    }

    open spec fn add_req(self, rhs: Counter<T, S1>) -> bool {
        valid_keys::<T, S2>() && valid_keys::<T, S1>() && Self::sum_fits(self@, rhs@)
    }

    open spec fn add_spec(self, rhs: Counter<T, S1>) -> Counter<T, S2> {
        arbitrary()
    }
}

impl<T, S1, S2> core::ops::Sub<Counter<T, S1>> for Counter<T, S2> where T: Hash + Eq, S1: BuildHasher, S2: BuildHasher {
    type Output = Counter<T, S2>;

    /// Takes the counts of `rhs` from the counts of this counter.
    fn sub(self, rhs: Counter<T, S1>) -> (r: Counter<T, S2>)
        ensures
            r@ == Self::reduced(self@, rhs@),
    {
        let mut difference = self;
        difference.sub_assign(rhs);
        difference
    }
}

impl<T, S1, S2> vstd::std_specs::ops::SubSpecImpl<Counter<T, S1>> for Counter<T, S2> where T: Hash + Eq, S1: BuildHasher, S2: BuildHasher {
    /// A counter is known by its counts alone, so what `sub` returns is
    /// stated by its own postcondition.
    open spec fn obeys_sub_spec() -> bool {
        false
    }

    open spec fn sub_req(self, rhs: Counter<T, S1>) -> bool {
        valid_keys::<T, S2>() && valid_keys::<T, S1>()
    }

    open spec fn sub_spec(self, rhs: Counter<T, S1>) -> Counter<T, S2> {
        arbitrary()
    }
}

impl<'a, T, S1, S2> core::ops::Add<&'a Counter<T, S1>> for Counter<T, S2> where T: Hash + Eq + Clone, S1: BuildHasher, S2: BuildHasher {
    type Output = Counter<T, S2>;

    /// Adds the counts of `rhs` to the counts of this counter.
    fn add(self, rhs: &'a Counter<T, S1>) -> (r: Counter<T, S2>)
        ensures
            r@ == Self::summed(self@, rhs@),
    {
        let mut sum = self;
        sum.add_assign_ref(rhs);
        sum
    }
}

impl<'a, T, S1, S2> vstd::std_specs::ops::AddSpecImpl<&'a Counter<T, S1>> for Counter<T, S2> where T: Hash + Eq + Clone, S1: BuildHasher, S2: BuildHasher {
    /// A counter is known by its counts alone, so what `add` returns is
    /// stated by its own postcondition.
    open spec fn obeys_add_spec() -> bool {
        false
    }

    open spec fn add_req(self, rhs: &'a Counter<T, S1>) -> bool {
        valid_keys::<T, S2>() && valid_keys::<T, S1>() && exact_clone::<T>() && Self::sum_fits(
            self@,
            rhs@,
        )
    }

    open spec fn add_spec(self, rhs: &'a Counter<T, S1>) -> Counter<T, S2> {
        arbitrary()
    }
}

impl<'a, T, S1, S2> core::ops::Sub<&'a Counter<T, S1>> for Counter<T, S2> where T: Hash + Eq + Clone, S1: BuildHasher, S2: BuildHasher {
    type Output = Counter<T, S2>;

    /// Takes the counts of `rhs` from the counts of this counter.
    fn sub(self, rhs: &'a Counter<T, S1>) -> (r: Counter<T, S2>)
        ensures
            r@ == Self::reduced(self@, rhs@),
    {
        let mut difference = self;
        difference.sub_assign_ref(rhs);
        difference
    }
}

impl<'a, T, S1, S2> vstd::std_specs::ops::SubSpecImpl<&'a Counter<T, S1>> for Counter<T, S2> where T: Hash + Eq + Clone, S1: BuildHasher, S2: BuildHasher {
    /// A counter is known by its counts alone, so what `sub` returns is
    /// stated by its own postcondition.
    open spec fn obeys_sub_spec() -> bool {
        false
    }

    open spec fn sub_req(self, rhs: &'a Counter<T, S1>) -> bool {
        valid_keys::<T, S2>() && valid_keys::<T, S1>() && exact_clone::<T>()
    }

    open spec fn sub_spec(self, rhs: &'a Counter<T, S1>) -> Counter<T, S2> {
        arbitrary()
    }
}

impl<T, S1, S2> From<HashMap<T, usize, S1>> for Counter<T, S2> where T: Hash + Eq, S1: BuildHasher, S2: BuildHasher + Default {
    /// Takes the counts from a hash map with any hasher type, entry by entry.
    fn from(rhs: HashMap<T, usize, S1>) -> (r: Self)
        ensures
            valid_keys::<T, S1>() && valid_keys::<T, S2>() ==> r@ == rhs@,
    {
        let mut counter: HashMap<T, usize, S2> = HashMap::default();
        let pairs = into_pairs(rhs);
        proof {
            if valid_keys::<T, S1>() {
                Self::lemma_first_entries_all(rhs@, pairs@);
            }
        }
        for pair in it: pairs
            invariant
                it.seq() == pairs@,
                valid_keys::<T, S1>() ==> lists_entries(rhs@, pairs@),
                valid_keys::<T, S1>() && valid_keys::<T, S2>() ==> counter@ == Self::first_entries(
                    rhs@,
                    pairs@,
                    it.index() as int,
                ),
        {
            let (key, val) = pair;
            proof {
                if valid_keys::<T, S1>() {
                    Self::lemma_first_entries_step(rhs@, pairs@, it.index() as int);
                }
            }
            counter.insert(key, val);
        }
        proof {
            if valid_keys::<T, S1>() {
                Self::lemma_first_entries_all(rhs@, pairs@);
            }
        }
        Counter { counter }
    }
}

impl<T, S1, S2> vstd::std_specs::convert::FromSpecImpl<HashMap<T, usize, S1>> for Counter<T, S2> where T: Hash + Eq, S1: BuildHasher, S2: BuildHasher + Default {
    /// A counter is known by its counts alone, so what `from` returns is
    /// stated by its own postcondition.
    open spec fn obeys_from_spec() -> bool {
        false
    }

    open spec fn from_spec(rhs: HashMap<T, usize, S1>) -> Self {
        arbitrary()
    }
}

impl<T, S> Counter<T, S> where T: Hash + Eq, S: BuildHasher {
    /// Takes a clone of each count from a hash map with any hasher type.
    pub fn from_hashmap_ref<S1>(rhs: &HashMap<T, usize, S1>) -> (r: Self) where
        S1: BuildHasher,
        S: Default,
        T: Clone,

        requires
            valid_keys::<T, S1>(),
            valid_keys::<T, S>(),
            exact_clone::<T>(),
        ensures
            r@ == rhs@,
    {
        let mut counter: HashMap<T, usize, S> = HashMap::default();
        let pairs = cloned_pairs(rhs);
        proof {
            Self::lemma_first_entries_all(rhs@, pairs@);
        }
        for pair in it: pairs
            invariant
                valid_keys::<T, S>(),
                it.seq() == pairs@,
                lists_entries(rhs@, pairs@),
                counter@ == Self::first_entries(rhs@, pairs@, it.index() as int),
        {
            let (key, val) = pair;
            proof {
                Self::lemma_first_entries_step(rhs@, pairs@, it.index() as int);
            }
            counter.insert(key, val);
        }
        proof {
            Self::lemma_first_entries_all(rhs@, pairs@);
        }
        Counter { counter }
    }

    /// Takes the counter apart into its elements, each with its count, in
    /// any order.
    pub fn into_iter(self) -> (r: Vec<(T, usize)>)
        ensures
            valid_keys::<T, S>() ==> lists_entries(self@, r@),
    {
        into_pairs(self.counter)
    }
}

impl<T, S> core::ops::Deref for Counter<T, S> where T: Hash + Eq, S: BuildHasher {
    type Target = HashMap<T, usize, S>;

    /// The hash map that holds the counts.
    fn deref(&self) -> (r: &HashMap<T, usize, S>)
        ensures
            r@ == self@,
    {
        &self.counter
    }
}

impl<T, S> core::ops::DerefMut for Counter<T, S> where T: Hash + Eq, S: BuildHasher {
    /// The hash map that holds the counts.
    fn deref_mut(&mut self) -> (r: &mut HashMap<T, usize, S>)
        ensures
            r@ == old(self)@,
            final(self)@ == final(r)@,
    {
        &mut self.counter
    }
}

} // verus!
