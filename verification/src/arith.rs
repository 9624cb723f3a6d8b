//! Wrapping counter arithmetic used by the statistics of every subsystem.

use vstd::prelude::*;

verus! {

/// `x + 1`, wrapping to 0 past `u64::MAX`.
pub open spec fn wrapping_inc(x: u64) -> u64 {
    if x == u64::MAX {
        0
    } else {
        (x + 1) as u64
    }
}

/// `x + n` modulo 2^64.
pub open spec fn wrapping_sum(x: u64, n: int) -> u64 {
    ((x + n) % 0x1_0000_0000_0000_0000) as u64
}

/// Increments a counter, wrapping past `u64::MAX`.
pub fn inc(x: u64) -> (r: u64)
    ensures
        r == wrapping_inc(x),
{
    x.wrapping_add(1)
}

/// Adds a byte count to a counter, modulo 2^64.
pub fn add_len(x: u64, n: usize) -> (r: u64)
    ensures
        r == wrapping_sum(x, n as int),
{
    x.wrapping_add(n as u64)
}

} // verus!

verus! {

/// `x + n`, wrapping past `usize::MAX`.
pub open spec fn count_plus(x: usize, n: int) -> usize {
    if x + n > usize::MAX {
        (x + n - (usize::MAX + 1)) as usize
    } else {
        (x + n) as usize
    }
}

/// Adds to a `usize` counter, wrapping past `usize::MAX`.
pub fn add_count(x: usize, n: usize) -> (r: usize)
    ensures
        r == count_plus(x, n as int),
{
    x.wrapping_add(n)
}

} // verus!
