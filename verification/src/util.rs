//! Interval timers over the board's tick counters, which wrap at 2^32.
//!
//! A timer does not read a counter itself: it is given the reading.

use vstd::prelude::*;

verus! {

/// Ticks from the reading `start` to the reading `now` of a counter that
/// wraps at 2^32.
pub open spec fn ticks_between(start: u32, now: u32) -> int {
    (now - start) % 0x1_0000_0000
}

/// Measure time differences in millisecond.
pub struct MillisTimer {
    pub init_time: u32,
}

impl MillisTimer {
    /// Create timer with internal milliseconds set to `now`, the reading of
    /// the millisecond counter.
    pub fn new(now: u32) -> (timer: Self)
        ensures
            timer.init_time == now,
    {
        MillisTimer { init_time: now }
    }

    /// Elapsed milliseconds from the creation of this object to the reading `now`.
    /// Maximum measurable time difference is about 49 days due to the 32 bit
    /// integer limits. Then it loops over.
    pub fn elapsed(&self, now: u32) -> (ms: u32)
        ensures
            ms == ticks_between(self.init_time, now),
    {
        if now >= self.init_time {
            now - self.init_time
        } else {
            // Timer overflowed
            (u32::MAX - self.init_time) + now + 1
        }
    }
}

/// Measure time differences in microseconds.
pub struct MicrosTimer {
    pub init_time: u32,
}

impl MicrosTimer {
    /// Create timer with internal microseconds set to `now`, the reading of
    /// the microsecond counter.
    pub fn new(now: u32) -> (timer: Self)
        ensures
            timer.init_time == now,
    {
        MicrosTimer { init_time: now }
    }

    /// Elapsed microseconds from the creation of this object to the reading `now`.
    /// Maximum measurable time difference is about 71 minutes due to the 32 bit
    /// integer limits. Then it loops over.
    pub fn elapsed(&self, now: u32) -> (us: u32)
        ensures
            us == ticks_between(self.init_time, now),
    {
        if now >= self.init_time {
            now - self.init_time
        } else {
            // Timer overflowed
            (u32::MAX - self.init_time) + now + 1
        }
    }
}

/// A counter that stood at `start` and has ticked `ticks` times since, with
/// however many wraps, is `ticks` ticks on, as long as that is less than 2^32.
pub proof fn lemma_ticks_between_undoes_wrap(start: u32, ticks: u32)
    ensures
        ticks_between(start, ((start + ticks) % 0x1_0000_0000) as u32) == ticks,
{
}

} // verus!
