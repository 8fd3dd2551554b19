//! Random draws, behind a thin contract over the random number generator.

use std::ops::Range;

use rand::RngExt;

use vstd::prelude::*;

verus! {

/// Relies on rand::RngExt::random_range on the thread's generator: a
/// number somewhere in the given range. An empty range panics there, so it
/// is ruled out here.
#[verifier::external_body]
pub fn integer(range: Range<i32>) -> (r: i32)
    requires
        range.start < range.end,
    ensures
        range.start <= r < range.end,
{
    rand::rng().random_range(range)
}

/// A random truth value.
pub fn boolean() -> bool {
    let bi = integer(0..2);

    bi == 1
}

} // verus!
