//! Points in time, in nanoseconds of one monotonic clock.
use vstd::prelude::*;

verus! {

pub const NANOS_PER_SEC: u64 = 1_000_000_000;
pub const NANOS_PER_MILLI: u64 = 1_000_000;

/// Time that has gone by at `now` since `since`; none where `now` is the earlier.
pub open spec fn elapsed_nanos(since: u64, now: u64) -> nat {
    if since <= now {
        (now - since) as nat
    } else {
        0
    }
}

/// Whole seconds that have gone by at `now` since `since`.
pub open spec fn elapsed_secs(since: u64, now: u64) -> nat {
    elapsed_nanos(since, now) / NANOS_PER_SEC as nat
}

/// Whole milliseconds that have gone by at `now` since `since`.
pub open spec fn elapsed_millis(since: u64, now: u64) -> nat {
    elapsed_nanos(since, now) / NANOS_PER_MILLI as nat
}

pub fn secs_since(since: u64, now: u64) -> (secs: u64)
    ensures
        secs == elapsed_secs(since, now),
{
    now.saturating_sub(since) / NANOS_PER_SEC
}

pub fn millis_since(since: u64, now: u64) -> (millis: u64)
    ensures
        millis == elapsed_millis(since, now),
{
    now.saturating_sub(since) / NANOS_PER_MILLI
}

} // verus!
