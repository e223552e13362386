//! Calendar times in UTC, held as milliseconds since the Unix epoch.

use vstd::prelude::*;

verus! {

/// What `chrono` makes of a number of milliseconds since the Unix epoch: the
/// same number read back from the calendar time, or `None` where no calendar
/// time stands for it.
pub uninterp spec fn calendar_millis(millis: i64) -> Option<i64>;

/// Whether a calendar time stands for `millis`.
pub open spec fn representable(millis: i64) -> bool {
    calendar_millis(millis) is Some
}

/// Calls `chrono::DateTime::from_timestamp_millis` and reads the result back
/// with `DateTime::timestamp_millis`.
///
/// Trusted: whether a calendar time comes back depends on `millis` alone and
/// is named by [`calendar_millis`]; where one comes back, the two functions
/// round-trip, so the number read back is `millis`.
#[verifier::external_body]
fn to_calendar_millis(millis: i64) -> (r: Option<i64>)
    ensures
        r == calendar_millis(millis),
        r matches Some(back) ==> back == millis,
{
    match chrono::DateTime::from_timestamp_millis(millis) {
        Some(time) => Some(time.timestamp_millis()),
        None => None,
    }
}

/// Calls `chrono::Utc::now` and reads the result with
/// `DateTime::timestamp_millis`: the wall clock, in whole milliseconds since
/// the Unix epoch, rounded down.
///
/// Trusted: nothing is claimed of the result. `Utc::now` gives up where the
/// system clock stands before the Unix epoch.
#[verifier::external_body]
pub(crate) fn wall_clock_millis() -> i64 {
    chrono::Utc::now().timestamp_millis()
}

/// A calendar time in UTC with millisecond precision.
#[derive(Clone, Copy, Debug, PartialEq, Eq, Structural, PartialOrd, Ord, Hash)]
pub struct Timestamp {
    millis: i64,
}

impl View for Timestamp {
    type V = int;

    open spec fn view(&self) -> int {
        self.spec_millis() as int
    }
}

impl Timestamp {
    /// The time as milliseconds since the Unix epoch.
    pub closed spec fn spec_millis(&self) -> i64 {
        self.millis
    }

    /// The timestamp that stands `millis` milliseconds after the Unix epoch.
    pub closed spec fn at(millis: i64) -> Timestamp {
        Timestamp { millis }
    }

    /// A timestamp made at some millisecond reads back as that millisecond.
    pub broadcast proof fn lemma_at_millis(millis: i64)
        ensures
            (#[trigger] Timestamp::at(millis)).spec_millis() == millis,
    {
    }

    /// A timestamp is well formed when a calendar time stands for it.
    pub open spec fn wf(&self) -> bool {
        representable(self.spec_millis())
    }

    /// The calendar time `millis` milliseconds after the Unix epoch, or
    /// `None` where that lies outside the calendar.
    pub fn from_millis(millis: i64) -> (r: Option<Timestamp>)
        ensures
            representable(millis) ==> r == Some(Timestamp::at(millis)),
            !representable(millis) ==> r is None,
    {
        match to_calendar_millis(millis) {
            Some(back) => Some(Timestamp { millis: back }),
            None => None,
        }
    }

    /// The time as milliseconds since the Unix epoch.
    pub fn millis(&self) -> (r: i64)
        ensures
            r == self.spec_millis(),
            r as int == self@,
    {
        self.millis
    }
}

} // verus!
