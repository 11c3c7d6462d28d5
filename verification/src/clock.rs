//! Points in time, as nanoseconds since some fixed moment.

use vstd::prelude::*;

verus! {

/// The nanoseconds in a millisecond.
pub const NANOS_PER_MILLI: u64 = 1_000_000;

/// The nanoseconds in a second.
pub const NANOS_PER_SECOND: u64 = 1_000_000_000;

/// How long `earlier` lies before `now`; nothing where it lies behind it.
pub open spec fn elapsed(now: u64, earlier: u64) -> u64 {
    if now < earlier {
        0
    } else {
        (now - earlier) as u64
    }
}

/// The moment `span` after `now`, at most the last one.
pub open spec fn later(now: u64, span: u64) -> u64 {
    if now + span > u64::MAX {
        u64::MAX
    } else {
        (now + span) as u64
    }
}

/// How long `earlier` lies before `now`.
pub fn since(now: u64, earlier: u64) -> (r: u64)
    ensures
        r == elapsed(now, earlier),
{
    if now < earlier {
        0
    } else {
        now - earlier
    }
}

/// The moment `span` after `now`.
pub fn after(now: u64, span: u64) -> (r: u64)
    ensures
        r == later(now, span),
{
    if span > u64::MAX - now {
        u64::MAX
    } else {
        now + span
    }
}

} // verus!
