//! Points in time, as the queue compares and advances them.

use vstd::prelude::*;

verus! {

/// A point in time: microseconds since 1970-01-01T00:00:00 UTC, without leap
/// seconds. Microseconds are the precision at which records are persisted.
#[derive(Clone, Copy, Debug, PartialEq, Eq, Structural)]
pub struct Timestamp {
    pub micros: i64,
}

impl View for Timestamp {
    type V = int;

    open spec fn view(&self) -> int {
        self.micros as int
    }
}

/// The instant `secs` whole seconds after `t`, in microseconds.
pub open spec fn plus_seconds(t: Timestamp, secs: int) -> int {
    t@ + secs * 1_000_000
}

/// The current time: `chrono::Utc::now()`, read in whole microseconds
/// since the epoch by `DateTime::timestamp_micros`, which drops what is
/// below a microsecond. Nothing is promised of the value: it is whatever the
/// system clock says. `Utc::now()` does not return where that clock stands
/// before 1970.
#[verifier::external_body]
fn clock_micros() -> i64 {
    chrono::Utc::now().timestamp_micros()
}

impl Timestamp {
    pub fn from_micros(micros: i64) -> (t: Timestamp)
        ensures
            t@ == micros,
    {
        Timestamp { micros }
    }

    /// Reads the system clock.
    pub fn now() -> Timestamp {
        Timestamp { micros: clock_micros() }
    }

    /// True when this instant is not after `now`.
    pub fn is_due(&self, now: Timestamp) -> (due: bool)
        ensures
            due == (self@ <= now@),
    {
        self.micros <= now.micros
    }

    /// True when this instant is strictly before `other`.
    pub fn is_before(&self, other: Timestamp) -> (before: bool)
        ensures
            before == (self@ < other@),
    {
        self.micros < other.micros
    }

    /// The instant `secs` seconds later, or `None` when it cannot be
    /// represented.
    pub fn checked_add_seconds(&self, secs: i64) -> (r: Option<Timestamp>)
        ensures
            match r {
                Some(t) => t@ == plus_seconds(*self, secs as int),
                None => !(i64::MIN <= plus_seconds(*self, secs as int) <= i64::MAX),
            },
    {
        let sum: i128 = self.micros as i128 + (secs as i128) * 1_000_000;
        if i64::MIN as i128 <= sum && sum <= i64::MAX as i128 {
            Some(Timestamp { micros: sum as i64 })
        } else {
            None
        }
    }
}

} // verus!
