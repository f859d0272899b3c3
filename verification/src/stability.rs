//! When a new dump is complete: its size stays the same over two polls in a
//! row (and, on Windows, it can be opened exclusively).

use vstd::prelude::*;

verus! {

/// The wait's timeout and poll interval in seconds: 30 and 2 when not set
/// (zero or negative).
pub fn stability_window(timeout_s: i32, poll_s: i32) -> (r: (u64, u64))
    ensures
        r.0 == (if timeout_s <= 0 { 30 } else { timeout_s as int }),
        r.1 == (if poll_s <= 0 { 2 } else { poll_s as int }),
{
    let t: u64 = if timeout_s <= 0 { 30 } else { timeout_s as u64 };
    let p: u64 = if poll_s <= 0 { 2 } else { poll_s as u64 };
    (t, p)
}

/// The sizes seen so far while waiting for a dump to settle.
#[derive(Debug, Clone, Copy)]
pub struct StabilityTracker {
    pub last_size: i64,
    pub stable_polls: u32,
}

impl StabilityTracker {
    /// The tracker before any poll.
    pub open spec fn fresh() -> StabilityTracker {
        StabilityTracker { last_size: -1i64, stable_polls: 0u32 }
    }

    /// Nothing seen yet.
    pub fn new() -> (t: StabilityTracker)
        ensures
            t == StabilityTracker::fresh(),
    {
        StabilityTracker { last_size: -1, stable_polls: 0 }
    }

    /// Record one poll of the file's size; answers whether the file now looks
    /// complete: the same positive size as at the previous poll.
    pub fn observe(&mut self, size: i64) -> (settled: bool)
        ensures
            settled == settles(old(self).last_size, size),
            final(self).last_size == size,
            settled ==> final(self).stable_polls == (if old(self).stable_polls < u32::MAX {
                old(self).stable_polls + 1
            } else {
                u32::MAX as int
            }),
            !settled ==> final(self).stable_polls == 0,
    {
        if size == self.last_size && size > 0 {
            self.stable_polls = self.stable_polls.saturating_add(1);
        } else {
            self.stable_polls = 0;
        }
        self.last_size = size;
        self.stable_polls >= 1
    }
}

/// A poll of `size` after one of `last_size` shows a complete file.
pub open spec fn settles(last_size: i64, size: i64) -> bool {
    size == last_size && size > 0
}

/// A file is taken as complete only when a poll repeats the previous size,
/// never while empty, and never on the first poll of a fresh tracker.
pub proof fn law_settles_only_on_repeat(last_size: i64, size: i64)
    ensures
        settles(last_size, size) ==> size == last_size && size > 0,
        !settles(StabilityTracker::fresh().last_size, size),
{
}

} // verus!
