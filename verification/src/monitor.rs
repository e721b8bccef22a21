use crate::timing::{elapsed_nanos, instant_now};
use std::time::Instant;
use vstd::prelude::*;

verus! {

/// A live view of the monitor: operations and errors recorded so far, how
/// long the monitor has been running in nanoseconds, and the operation
/// throughput in whole operations per second.
#[derive(Clone, Copy, Debug)]
pub struct RealtimeStats {
    pub total_operations: u64,
    pub total_errors: u64,
    pub uptime_nanos: u64,
    pub operations_per_second: u64,
}

/// Counts operations and errors as they happen, against the instant the
/// monitor was created.
pub struct RealtimeMonitor {
    start_time: Instant,
    last_check: Instant,
    operation_count: u64,
    error_count: u64,
}

impl RealtimeMonitor {
    /// How many operations were recorded.
    pub closed spec fn spec_operations(self) -> u64 {
        self.operation_count
    }

    /// How many errors were recorded.
    pub closed spec fn spec_errors(self) -> u64 {
        self.error_count
    }

    /// Creates a monitor with both counters at zero, running from the
    /// present instant.
    pub fn new() -> (r: Self)
        ensures
            r.spec_operations() == 0,
            r.spec_errors() == 0,
    {
        let now = instant_now();
        let now2 = instant_now();
        RealtimeMonitor { start_time: now, last_check: now2, operation_count: 0, error_count: 0 }
    }

    /// Records one operation; the counter saturates rather than wraps.
    pub fn record_operation(&mut self)
        ensures
            old(self).spec_operations() < u64::MAX ==> final(self).spec_operations() == old(
                self,
            ).spec_operations() + 1,
            old(self).spec_operations() == u64::MAX ==> final(self).spec_operations() == old(
                self,
            ).spec_operations(),
            final(self).spec_errors() == old(self).spec_errors(),
    {
        if self.operation_count < u64::MAX {
            self.operation_count = self.operation_count + 1;
        }
    }

    /// Records one error; the counter saturates rather than wraps.
    pub fn record_error(&mut self)
        ensures
            old(self).spec_errors() < u64::MAX ==> final(self).spec_errors() == old(
                self,
            ).spec_errors() + 1,
            old(self).spec_errors() == u64::MAX ==> final(self).spec_errors() == old(
                self,
            ).spec_errors(),
            final(self).spec_operations() == old(self).spec_operations(),
    {
        if self.error_count < u64::MAX {
            self.error_count = self.error_count + 1;
        }
    }

    /// The counters as they stand, with the time since construction. The
    /// uptime comes from the clock, so nothing is promised of it; the
    /// throughput is the operation count over the uptime in whole seconds,
    /// zero while less than a second has passed. Taking the stats marks the
    /// instant of the check.
    pub fn get_current_stats(&mut self) -> (r: RealtimeStats)
        ensures
            final(self).spec_operations() == old(self).spec_operations(),
            final(self).spec_errors() == old(self).spec_errors(),
            r.total_operations == old(self).spec_operations(),
            r.total_errors == old(self).spec_errors(),
            r.operations_per_second == (if r.uptime_nanos / 1_000_000_000 > 0 {
                r.total_operations / (r.uptime_nanos / 1_000_000_000)
            } else {
                0u64
            }),
    {
        let uptime = elapsed_nanos(&self.start_time);
        self.last_check = instant_now();
        let secs = uptime / 1_000_000_000;
        let ops = self.operation_count;
        let ops_per_second = if secs > 0 {
            ops / secs
        } else {
            0
        };
        RealtimeStats {
            total_operations: ops,
            total_errors: self.error_count,
            uptime_nanos: uptime,
            operations_per_second: ops_per_second,
        }
    }
}

} // verus!
