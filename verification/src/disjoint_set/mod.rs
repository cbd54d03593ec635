//! A disjoint-set forest: a partition of the elements seen so far into
//! subsets that can be joined, with union by rank and path compression.

mod disjoint_set;
mod forest;

pub use self::disjoint_set::{member, placed, DisjointSet, SetIter};
pub use self::forest::{ranked, root, Data};
