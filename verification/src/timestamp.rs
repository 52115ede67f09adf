//! Points in time, as the reading progress records them.

use chrono::Utc;
use vstd::prelude::*;

verus! {

/// A point in time in UTC: the whole seconds since the start of 1970 and
/// the nanoseconds since the last whole second, which reach a thousand
/// million and beyond only within a leap second.
#[derive(Debug, Clone, Copy, PartialEq, Eq, Structural)]
pub struct Timestamp {
    pub seconds: i64,
    pub nanos: u32,
}

/// Whether `a` is strictly later than `b`.
pub open spec fn later(a: Timestamp, b: Timestamp) -> bool {
    a.seconds > b.seconds || (a.seconds == b.seconds && a.nanos > b.nanos)
}

/// The later of two points in time.
pub open spec fn latest(a: Timestamp, b: Timestamp) -> Timestamp {
    if later(b, a) {
        b
    } else {
        a
    }
}

/// Whether a time lies outside a leap second: its nanoseconds are less
/// than a second.
pub open spec fn within_second(t: Timestamp) -> bool {
    t.nanos < 1_000_000_000
}

/// Calls `chrono::Utc::now`, `DateTime::timestamp` and
/// `DateTime::timestamp_subsec_nanos`. Trusted: the time read lies outside
/// a leap second, since the clock gives `chrono` the fraction of a second
/// as `Duration::subsec_nanos` reports it and `chrono` hands it on.
/// Nothing else is promised of the time read; `Utc::now` panics on a
/// machine whose clock stands before 1970.
#[verifier::external_body]
fn utc_now() -> (r: Timestamp)
    ensures
        within_second(r),
{
    let now = Utc::now();
    Timestamp { seconds: now.timestamp(), nanos: now.timestamp_subsec_nanos() }
}

impl Timestamp {
    /// The time on the machine's clock. Whatever the clock says, it is no
    /// time within a leap second.
    pub fn now() -> (r: Timestamp)
        ensures
            within_second(r),
    {
        utc_now()
    }

    /// Decides whether this time is strictly later than another.
    pub fn is_later_than(&self, other: &Timestamp) -> (r: bool)
        ensures
            r == later(*self, *other),
    {
        self.seconds > other.seconds || (self.seconds == other.seconds && self.nanos
            > other.nanos)
    }

    /// The later of this time and another.
    pub fn or_later(self, other: Timestamp) -> (r: Timestamp)
        ensures
            r == latest(self, other),
    {
        if other.is_later_than(&self) {
            other
        } else {
            self
        }
    }
}

} // verus!
