//! The counter from which placeholder and anonymous names take their numbers.

use vstd::prelude::*;

verus! {

/// A source of numbers for generated names. One generator serves a whole run.
#[derive(Debug)]
pub struct IdGenerator {
    /// The number that the next call of `uniq_id` returns.
    pub next: u64,
}

/// The counter value that follows `n`. The counter wraps around after
/// `u64::MAX`.
pub open spec fn next_id(n: u64) -> u64 {
    if n == u64::MAX {
        0
    } else {
        (n + 1) as u64
    }
}

impl IdGenerator {
    /// A generator that starts at zero.
    pub fn new() -> (g: IdGenerator)
        ensures
            g.next == 0,
    {
        IdGenerator { next: 0 }
    }
}

/// Returns the current counter value and advances the counter by one.
pub fn uniq_id(ids: &mut IdGenerator) -> (id: u64)
    ensures
        id == old(ids).next,
        final(ids).next == next_id(old(ids).next),
{
    let id = ids.next;
    ids.next = if id == u64::MAX {
        0
    } else {
        id + 1
    };
    id
}

} // verus!
