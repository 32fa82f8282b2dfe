//! Inclusive ranges of slot numbers, the unit of work of the engine.

use vstd::prelude::*;

verus! {

/// Upper bound that a gap is stretched to before it is looked at again.
pub const INTERVAL_SIZE: u64 = 100;

/// Ranges with fewer slots than this are not looked at again.
pub const MIN_INTERVAL_SIZE: u64 = 5;

/// A busy worker pauses for the tick period divided by this.
pub const POLL_DIVIDER: u64 = 10;

/// Number of workers that drain the queue.
pub const WORKERS_COUNT: usize = 5;

/// The slots `start ..= end`. With `end < start` the range is empty.
#[derive(Debug, Clone, Copy, PartialEq, Eq, Structural)]
pub struct SlotInterval {
    pub start: u64,
    pub end: u64,
}

impl SlotInterval {
    /// Number of slots in the range.
    pub open spec fn spec_size(self) -> nat {
        if self.end >= self.start {
            (self.end - self.start + 1) as nat
        } else {
            0
        }
    }

    /// Whether `slot` lies in the range.
    pub open spec fn covers(self, slot: int) -> bool {
        self.start <= slot <= self.end
    }

    /// Whether the range lies inside `outer`.
    pub open spec fn within(self, outer: SlotInterval) -> bool {
        outer.start <= self.start && self.end <= outer.end
    }

    pub fn new(start: u64, end: u64) -> (interval: Self)
        ensures
            interval.start == start,
            interval.end == end,
    {
        SlotInterval { start, end }
    }

    /// Number of slots in the range. The full range of `u64` holds one slot
    /// more than a `u64` can count, so it is left out.
    pub fn size(&self) -> (n: u64)
        requires
            self.spec_size() <= u64::MAX,
        ensures
            n == self.spec_size(),
    {
        if self.end >= self.start {
            self.end - self.start + 1
        } else {
            0
        }
    }

    /// Whether the range holds at least `count` slots. Unlike `size` this is
    /// defined on every range.
    pub fn holds_at_least(&self, count: u64) -> (enough: bool)
        ensures
            enough == (self.spec_size() >= count),
    {
        if count == 0 {
            true
        } else if self.end >= self.start {
            self.end - self.start >= count - 1
        } else {
            false
        }
    }
}

} // verus!
