//! A tiny arithmetic helper kept for illustration.

use vstd::prelude::*;

verus! {

/// Adds two to its argument.
pub fn add_two(a: i32) -> (r: i32)
    requires
        a + 2 <= i32::MAX,
    ensures
        r == a + 2,
{
    a + 2
}

} // verus!
