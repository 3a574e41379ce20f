//! Random numbers within a range.

use vstd::prelude::*;

verus! {

/// Brings a random number into the range from `start` up to, but not
/// including, `end`.
pub fn rand32_get(start: u32, end: u32, random_value: u32) -> (r: u32)
    requires
        start < end,
    ensures
        r == start + random_value % ((end - start) as u32),
        start <= r < end,
{
    let range_size = end - start;
    start + (random_value % range_size)
}

} // verus!
