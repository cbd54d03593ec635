//! What the hash-based collections ask of their key and hasher types, and
//! what they take on trust about the constructors of std's `HashMap`.

use std::collections::HashMap;
use vstd::prelude::*;
use vstd::std_specs::hash::{builds_valid_hashers, obeys_key_model};

verus! {

/// Std's `HashMap::with_hasher`: an empty map that hashes with `hash_builder`.
pub assume_specification<Key, Value, Hashing>[ HashMap::<Key, Value, Hashing>::with_hasher ](
    hash_builder: Hashing,
) -> (made: HashMap<Key, Value, Hashing>)
    ensures
        made@.is_empty(),
;

/// Std's `HashMap::with_capacity_and_hasher`: an empty map that hashes with
/// `hash_builder`; the capacity only reserves room.
pub assume_specification<Key, Value, Hashing>[ HashMap::<
    Key,
    Value,
    Hashing,
>::with_capacity_and_hasher ](capacity: usize, hash_builder: Hashing) -> (made: HashMap<
    Key,
    Value,
    Hashing,
>)
    ensures
        made@.is_empty(),
;

/// What the hash map asks of its key and hasher types, so that it behaves as
/// a map: keys hash the same way each time and are equal exactly when they
/// are identical, and the hash builder builds hashers that agree.
pub open spec fn valid_keys<T, S>() -> bool {
    obeys_key_model::<T>() && builds_valid_hashers::<S>()
}

} // verus!
