//! What some operations ask of `Clone`.

use vstd::prelude::*;

verus! {

/// A clone of a `U` is always the value it was cloned from.
pub open spec fn exact_clone<U: Clone>() -> bool {
    forall|a: U, b: U| cloned(a, b) ==> a == b
}

} // verus!
