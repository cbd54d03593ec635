//! Collections that complement the standard library: a fixed-capacity
//! circular buffer, a frequency counter, a disjoint-set forest and
//! mathematical intervals, each with machine-checked contracts.

pub mod circular_buffer;
pub mod clone_law;
pub mod counter;
pub mod disjoint_set;
pub mod hashing;
pub mod interval;
