//! When host mappings of guest RAM are normalised, independent of any balloon device.
//!
//! Instants are nanoseconds since a fixed moment before the first of them.
use crate::reclaim::{ReclaimState, ReclaimStateError};
use vstd::prelude::*;

verus! {

/// Thirty seconds in nanoseconds.
pub const PERIOD: u64 = 30_000_000_000;

/// A quarter of a second in nanoseconds.
pub const REPORT_THROTTLE: u64 = 250_000_000;

/// When the next normalisation is due.
#[derive(Clone, Copy, Debug, PartialEq, Eq, Structural)]
pub struct Schedule {
    pub last_success: u64,
    pub deadline: u64,
}

impl Schedule {
    /// The deadline is no later than a period after the last success.
    pub open spec fn wf(self) -> bool {
        self.deadline <= self.last_success + PERIOD && self.last_success + PERIOD <= u64::MAX
    }

    pub fn new(now: u64) -> (result: Schedule)
        requires
            now + PERIOD <= u64::MAX,
        ensures
            result.last_success == now,
            result.deadline == now + PERIOD,
            result.wf(),
    {
        Schedule { last_success: now, deadline: now + PERIOD }
    }

    /// Whether mappings are to be normalised before reports are handled. Where it is too
    /// early, the deadline is brought forward to the earliest moment.
    pub fn before_reports(&mut self, now: u64) -> (result: bool)
        requires
            old(self).wf(),
        ensures
            final(self).wf(),
            result == (now >= old(self).last_success + REPORT_THROTTLE),
            final(self).last_success == old(self).last_success,
            final(self).deadline == if result || old(self).deadline <= old(self).last_success
                + REPORT_THROTTLE {
                old(self).deadline as int
            } else {
                old(self).last_success + REPORT_THROTTLE
            },
            final(self).deadline <= old(self).deadline,
    {
        let earliest: u64 = self.last_success + REPORT_THROTTLE;
        if now >= earliest {
            true
        } else {
            if earliest < self.deadline {
                self.deadline = earliest;
            }
            false
        }
    }

    /// Starts the next period at the moment at which the last normalisation started.
    pub fn succeeded(&mut self, started: u64)
        requires
            started + PERIOD <= u64::MAX,
        ensures
            final(self).last_success == started,
            final(self).deadline == started + PERIOD,
            final(self).wf(),
    {
        self.last_success = started;
        self.deadline = started + PERIOD;
    }

    /// Milliseconds until the deadline, rounded up, and as many as fit.
    pub fn timeout_millis(&self, now: u64) -> (result: i32)
        ensures
            ({
                let left = if self.deadline > now {
                    self.deadline - now
                } else {
                    0
                };
                let millis = (left + 999_999) / 1_000_000;
                result == if millis > i32::MAX {
                    i32::MAX as int
                } else {
                    millis
                }
            }),
    {
        let left: u64 = self.deadline.saturating_sub(now);
        let whole: u64 = left / 1_000_000;
        let millis: u64 = if left % 1_000_000 == 0 {
            whole
        } else {
            whole + 1
        };
        if millis > i32::MAX as u64 {
            i32::MAX
        } else {
            millis as i32
        }
    }
}

/// Keeps the host mappings of one virtual machine's RAM normalised.
#[derive(Clone, Copy, Debug, PartialEq, Eq, Structural)]
pub struct HostMemoryRemapper {
    pub schedule: Schedule,
}

impl HostMemoryRemapper {
    /// A remapper for RAM that has registered regions.
    pub fn new(ram: &ReclaimState, now: u64) -> (result: Option<HostMemoryRemapper>)
        requires
            now + PERIOD <= u64::MAX,
        ensures
            result is Some <==> ram.eligible(),
            result matches Some(remapper) ==> remapper.schedule.last_success == now
                && remapper.schedule.deadline == now + PERIOD && remapper.schedule.wf(),
    {
        if ram.is_eligible() {
            Some(HostMemoryRemapper { schedule: Schedule::new(now) })
        } else {
            None
        }
    }

    pub fn timeout_millis(&self, now: u64) -> (result: i32)
        ensures
            ({
                let left = if self.schedule.deadline > now {
                    self.schedule.deadline - now
                } else {
                    0
                };
                let millis = (left + 999_999) / 1_000_000;
                result == if millis > i32::MAX {
                    i32::MAX as int
                } else {
                    millis
                }
            }),
    {
        self.schedule.timeout_millis(now)
    }

    /// Whether to normalise before reports that are handled at `started`.
    pub fn before_reports(&mut self, started: u64) -> (result: bool)
        requires
            old(self).schedule.wf(),
        ensures
            final(self).schedule.wf(),
            result == (started >= old(self).schedule.last_success + REPORT_THROTTLE),
            final(self).schedule.last_success == old(self).schedule.last_success,
            final(self).schedule.deadline == if result || old(self).schedule.deadline <= old(
                self,
            ).schedule.last_success + REPORT_THROTTLE {
                old(self).schedule.deadline as int
            } else {
                old(self).schedule.last_success + REPORT_THROTTLE
            },
    {
        self.schedule.before_reports(started)
    }

    /// Whether the deadline has come.
    pub fn poll(&self, started: u64) -> (result: bool)
        ensures
            result == (started >= self.schedule.deadline),
    {
        started >= self.schedule.deadline
    }

    /// Takes note of a normalisation that began at `started`: only a success moves the
    /// schedule on.
    pub fn normalized(&mut self, started: u64, outcome: Result<(), ReclaimStateError>) -> (result:
        Result<(), ReclaimStateError>)
        requires
            old(self).schedule.wf(),
            started + PERIOD <= u64::MAX,
        ensures
            final(self).schedule.wf(),
            result == outcome,
            outcome is Err ==> *final(self) == *old(self),
            outcome is Ok ==> final(self).schedule.last_success == started
                && final(self).schedule.deadline == started + PERIOD,
    {
        if outcome.is_ok() {
            self.schedule.succeeded(started);
        }
        outcome
    }
}

} // verus!
