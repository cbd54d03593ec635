//! A circular buffer uses a single, fixed-size storage as if it were
//! connected end-to-end.
//!
//! It differs from `VecDeque` by never growing on its own: once the buffer is
//! full, a push at one end evicts the element at the opposite end.

mod circular;
mod iter;
mod laws;
mod order;

pub use self::circular::CircularBuffer;
pub use self::iter::{Drain, IntoIter};
pub use self::laws::{
    lemma_len_within_capacity, lemma_linear_has_one_run, lemma_overwrite, lemma_popped_front,
    lemma_pushed_back_all, lemma_resize_same_capacity, lemma_round_trip, popped_front_rest,
    popped_front_results, pushed_back_all,
};
pub use self::order::{elementwise_eq, lexicographic, lexicographic_partial};
