//! Time, in whole seconds since the Unix epoch, and the deadlines counted
//! from it.

use chrono::Utc;
use vstd::prelude::*;

verus! {

/// The moment `span` seconds after `start`, or the last moment that can be
/// told where that lies beyond it.
pub open spec fn deadline(start: u64, span: u64) -> u64 {
    if start + span > u64::MAX {
        u64::MAX
    } else {
        (start + span) as u64
    }
}

/// Whether a deadline has passed at the moment `now`: it holds through its
/// last second.
pub open spec fn is_past(deadline: u64, now: u64) -> bool {
    now > deadline
}

/// Computes [`deadline`].
pub fn deadline_after(start: u64, span: u64) -> (end: u64)
    ensures
        end == deadline(start, span),
{
    if span > u64::MAX - start {
        u64::MAX
    } else {
        start + span
    }
}

/// `Utc::now` of `chrono`, as the `timestamp` of what it returns. The clock
/// decides the value and nothing is promised of it. `chrono` stops the program
/// where the system clock stands before the epoch.
#[verifier::external_body]
fn utc_timestamp() -> (seconds: i64) {
    Utc::now().timestamp()
}

/// The seconds that a timestamp stands for; a moment before the epoch counts
/// as the epoch.
pub open spec fn seconds_of(timestamp: i64) -> u64 {
    if timestamp < 0 {
        0
    } else {
        timestamp as u64
    }
}

/// Computes [`seconds_of`].
pub fn seconds_from_timestamp(timestamp: i64) -> (seconds: u64)
    ensures
        seconds == seconds_of(timestamp),
{
    if timestamp < 0 {
        0
    } else {
        timestamp as u64
    }
}

/// The present moment, read from the system clock. Whatever the clock says,
/// the moment is one that a signed count of seconds can hold.
pub fn now() -> (seconds: u64)
    ensures
        seconds <= i64::MAX,
{
    seconds_from_timestamp(utc_timestamp())
}

} // verus!
