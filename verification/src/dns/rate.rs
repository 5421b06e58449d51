//! Client-side rate limiting: the wait that precedes every lookup.

use vstd::prelude::*;

verus! {

/// Nanoseconds in one second.
pub const NANOS_PER_SECOND: u64 = 1_000_000_000;

/// The wait where no rate is set: one microsecond, practically no limit.
pub const UNLIMITED_INTERVAL_NANOS: u64 = 1_000;

/// The interval between submissions at `lookups_per_second`: the least
/// number of whole nanoseconds that is no shorter than one second divided
/// by the rate.
pub open spec fn interval_nanos(lookups_per_second: u32) -> u64 {
    if lookups_per_second > 0 {
        ((NANOS_PER_SECOND as int + lookups_per_second as int - 1) / lookups_per_second as int) as u64
    } else {
        UNLIMITED_INTERVAL_NANOS
    }
}

/// Gates the submission of lookups: each waits for the interval before it
/// is handed to the retry controller.
#[derive(Debug, Clone, Copy, PartialEq, Eq, Structural)]
pub struct RateLimiter {
    interval_nanos: u64,
}

impl RateLimiter {
    /// The wait before each lookup, in nanoseconds.
    pub closed spec fn interval(self) -> u64 {
        self.interval_nanos
    }

    /// The limiter for a rate of `lookups_per_second`. Its interval times
    /// the rate is at least a second, and no shorter interval of whole
    /// nanoseconds has that property.
    pub fn new(lookups_per_second: u32) -> (limiter: RateLimiter)
        ensures
            limiter.interval() == interval_nanos(lookups_per_second),
            lookups_per_second > 0 ==> (limiter.interval() - 1) * lookups_per_second
                < NANOS_PER_SECOND <= limiter.interval() * lookups_per_second,
    {
        let interval_nanos = if lookups_per_second > 0 {
            let rate: u64 = lookups_per_second as u64;
            let q: u64 = (NANOS_PER_SECOND + rate - 1) / rate;
            assert((q - 1) * rate < NANOS_PER_SECOND <= q * rate) by (nonlinear_arith)
                requires
                    rate > 0,
                    q == (NANOS_PER_SECOND + rate - 1) / (rate as int),
            ;
            q
        } else {
            UNLIMITED_INTERVAL_NANOS
        };
        RateLimiter { interval_nanos }
    }

    /// The wait before each lookup, in nanoseconds.
    pub fn interval_nanos(&self) -> (nanos: u64)
        ensures
            nanos == self.interval(),
    {
        self.interval_nanos
    }
}

} // verus!
