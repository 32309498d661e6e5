//! What is known of an answer of the system clock.

use vstd::prelude::*;

verus! {

/// Whether the system clock gave this answer to a call; `None` stands for a call
/// that failed. Nothing rules an answer out, so the definition holds of all of
/// them. It is hidden: outside this module an answer is known to be one only where
/// the call that gave it says so.
pub closed spec fn given(raw: Option<(i64, i64)>) -> bool {
    true
}

} // verus!
