//! Instants on the wall clock.
use chrono::{DateTime, Utc};
use vstd::prelude::*;

verus! {

/// An instant: whole seconds since the Unix epoch, in UTC, and the
/// nanoseconds past them.
#[derive(Debug, Clone, Copy, PartialEq, Eq, Structural)]
pub struct Timestamp {
    pub seconds: i64,
    pub nanos: u32,
}

/// The last whole second of the calendar: the end of the year 262142.
pub const LAST_SECOND: i64 = 8_210_266_876_799;

impl Timestamp {
    /// The instant lies between the epoch and the end of the calendar.
    pub open spec fn is_valid(self) -> bool {
        0 <= self.seconds <= LAST_SECOND && self.nanos < 1_000_000_000
    }

    /// This instant does not come after `other`.
    pub open spec fn at_or_before(self, other: Timestamp) -> bool {
        self.seconds < other.seconds || (self.seconds == other.seconds && self.nanos
            <= other.nanos)
    }

    /// The instant `count` whole seconds later.
    pub open spec fn plus(self, count: int) -> Timestamp {
        Timestamp { seconds: (self.seconds + count) as i64, nanos: self.nanos }
    }

    /// Whether this instant does not come after `other`.
    pub fn is_at_or_before(&self, other: &Timestamp) -> (answer: bool)
        ensures
            answer == self.at_or_before(*other),
    {
        self.seconds < other.seconds || (self.seconds == other.seconds && self.nanos
            <= other.nanos)
    }

    /// The instant `count` whole seconds later.
    pub fn plus_seconds(&self, count: u32) -> (later: Timestamp)
        requires
            self.seconds + count <= i64::MAX,
        ensures
            later == self.plus(count as int),
    {
        Timestamp { seconds: self.seconds + count as i64, nanos: self.nanos }
    }
}

/// The wall clock, read through `chrono::Utc::now`.
///
/// The clock decides which instant comes back; every one of them lies between
/// the epoch and the end of chrono's calendar, and the clock never reports a
/// leap second.
#[verifier::external_body]
pub(crate) fn now() -> (instant: Timestamp)
    ensures
        instant.is_valid(),
{
    let now: DateTime<Utc> = Utc::now();
    Timestamp { seconds: now.timestamp(), nanos: now.timestamp_subsec_nanos() }
}

} // verus!
