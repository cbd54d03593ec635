//! A counter of recurring elements, kept in a hash map from each element to
//! the number of times it was seen.

mod counter;

pub use self::counter::{
    descending_key, lemma_rearranged_lists_entries, lists_entries, most_common_first,
    sorted_by_key, Counter,
};
