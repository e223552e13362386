//! One weather alert.

use crate::error::AlertError;
use crate::raw::RawWarning;
use crate::timestamp::{wall_clock_millis, Timestamp};
use vstd::prelude::*;

verus! {

/// Represents an individual warning.
#[derive(Debug, Clone, PartialEq, Eq)]
pub struct Warning {
    pub state: String,
    pub category: u8,
    pub level: u8,
    pub start: Timestamp,
    /// `None` where the warning has no defined end.
    pub end: Option<Timestamp>,
    pub region_name: String,
    pub event: String,
    pub headline: String,
    pub instruction: String,
    pub description: String,
    pub state_short: String,
    pub altitude_start: Option<i64>,
    pub altitude_end: Option<i64>,
}

impl Warning {
    /// Both times of the warning are calendar times.
    pub open spec fn wf(&self) -> bool {
        &&& self.start.wf()
        &&& self.end matches Some(end) ==> end.wf()
    }

    /// The warning holds what `raw` holds: every text, number and altitude
    /// unchanged, and the times at the same milliseconds.
    pub open spec fn carries(&self, raw: RawWarning) -> bool {
        &&& self.state@ == raw.state@
        &&& self.category == raw.category
        &&& self.level == raw.level
        &&& self.start.spec_millis() == raw.start
        &&& match raw.end {
            Some(end) => self.end matches Some(e) && e.spec_millis() == end,
            None => self.end is None,
        }
        &&& self.region_name@ == raw.region_name@
        &&& self.event@ == raw.event@
        &&& self.headline@ == raw.headline@
        &&& self.instruction@ == raw.instruction@
        &&& self.description@ == raw.description@
        &&& self.state_short@ == raw.state_short@
        &&& self.altitude_start == raw.altitude_start
        &&& self.altitude_end == raw.altitude_end
    }

    /// The warning that stands for one alert of the feed: every text, number
    /// and altitude as given, and the times at the given milliseconds.
    pub open spec fn of_raw(raw: RawWarning) -> Warning {
        Warning {
            state: raw.state,
            category: raw.category,
            level: raw.level,
            start: Timestamp::at(raw.start),
            end: match raw.end {
                Some(end) => Some(Timestamp::at(end)),
                None => None,
            },
            region_name: raw.region_name,
            event: raw.event,
            headline: raw.headline,
            instruction: raw.instruction,
            description: raw.description,
            state_short: raw.state_short,
            altitude_start: raw.altitude_start,
            altitude_end: raw.altitude_end,
        }
    }

    /// A warning built from an alert reads back what the alert held: no
    /// text, number, altitude or time is changed on the way.
    pub proof fn lemma_of_raw_carries(raw: RawWarning)
        ensures
            Warning::of_raw(raw).carries(raw),
            raw.times_in_range() ==> Warning::of_raw(raw).wf(),
    {
        broadcast use Timestamp::lemma_at_millis;

    }

    /// Whether the warning is still active at `now`, given in milliseconds
    /// since the Unix epoch: it has no end, or its end lies after `now`.
    pub open spec fn current_at(&self, now: int) -> bool {
        match self.end {
            Some(end) => now < end@,
            None => true,
        }
    }

    /// Builds the warning for one alert of the feed.
    ///
    /// Fails with `DateParsingError` where the start or the end of the alert
    /// is no calendar time.
    pub fn from_raw(raw: RawWarning) -> (r: Result<Warning, AlertError>)
        ensures
            raw.times_in_range() ==> r == Ok::<Warning, AlertError>(Warning::of_raw(raw)),
            !raw.times_in_range() ==> r matches Err(AlertError::DateParsingError),
    {
        let start = match Timestamp::from_millis(raw.start) {
            Some(t) => t,
            None => {
                return Err(AlertError::DateParsingError);
            },
        };
        let end = match raw.end {
            Some(millis) => match Timestamp::from_millis(millis) {
                Some(t) => Some(t),
                None => {
                    return Err(AlertError::DateParsingError);
                },
            },
            None => None,
        };
        Ok(
            Warning {
                state: raw.state,
                category: raw.category,
                level: raw.level,
                start,
                end,
                region_name: raw.region_name,
                event: raw.event,
                headline: raw.headline,
                instruction: raw.instruction,
                description: raw.description,
                state_short: raw.state_short,
                altitude_start: raw.altitude_start,
                altitude_end: raw.altitude_end,
            },
        )
    }

    /// Whether the warning is still active at `now_millis`, given in
    /// milliseconds since the Unix epoch.
    pub fn is_current_at(&self, now_millis: i64) -> (r: bool)
        ensures
            r == self.current_at(now_millis as int),
            r <==> (self.end is None || self.end.unwrap()@ > now_millis),
    {
        match &self.end {
            Some(end) => now_millis < end.millis(),
            None => true,
        }
    }

    /// Whether the warning is still active by the wall clock: it has no end,
    /// or its end lies after the present moment.
    pub fn is_current(&self) -> (r: bool)
        ensures
            self.end is None ==> r,
            exists|now: i64| r == #[trigger] self.current_at(now as int),
    {
        let now: i64 = wall_clock_millis();
        let r = self.is_current_at(now);
        assert(r == self.current_at(now as int));
        r
    }
}

} // verus!
