//! Counters that drive progress bars.
use vstd::prelude::*;

verus! {

/// How many counts lie between two positions that a progress bar is told.
pub const POSITION_STEP: u64 = 1024;

/// A count, which tells its progress bar a position now and then.
#[derive(Debug)]
pub struct ProgressCounter {
    counter: u64,
}

impl View for ProgressCounter {
    type V = u64;

    closed spec fn view(&self) -> u64 {
        self.counter
    }
}

/// The count after `n`: the next number, or 0 after the last one.
pub open spec fn next_count(n: u64) -> u64 {
    if n == u64::MAX {
        0
    } else {
        (n + 1) as u64
    }
}

/// The position that a count on from `n` tells.
pub open spec fn told_position(n: u64) -> Option<u64> {
    if n % POSITION_STEP == 0 {
        Some(n)
    } else {
        None
    }
}

impl ProgressCounter {
    /// Starts at 0.
    pub fn new() -> (counter: Self)
        ensures
            counter@ == 0,
    {
        ProgressCounter { counter: 0 }
    }

    /// The count.
    pub fn get(&self) -> (count: u64)
        ensures
            count == self@,
    {
        self.counter
    }

    /// Counts on by one. Returns the position to tell the progress bar, if any: the count
    /// before, where that is a multiple of the step.
    pub fn inc(&mut self) -> (position: Option<u64>)
        ensures
            final(self)@ == next_count(old(self)@),
            position == told_position(old(self)@),
    {
        let count: u64 = self.counter;
        self.counter = count.wrapping_add(1);
        if count % POSITION_STEP == 0 {
            Some(count)
        } else {
            None
        }
    }
}

/// What has been indexed.
#[derive(Clone, Copy, Debug, PartialEq, Eq)]
pub struct IndexStats {
    pub accounts_total: u64,
    pub token_accounts_total: u64,
}

/// Counting goes through all numbers, and starts again after the last one. A progress bar is
/// told the count before, where that is a multiple of 1024, and nothing else.
pub proof fn law_counting(n: u64)
    ensures
        next_count(n) == (n + 1) % 0x1_0000_0000_0000_0000,
        n % 1024 == 0 ==> told_position(n) == Some(n),
        n % 1024 != 0 ==> told_position(n) is None,
{
}

} // verus!
