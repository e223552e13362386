//! The records of the feed as they arrive: times are still plain numbers.

use crate::timestamp::representable;
use vstd::prelude::*;

verus! {

/// One alert as the feed sends it.
#[derive(Debug, Clone, PartialEq, Eq)]
pub struct RawWarning {
    pub state: String,
    pub category: u8,
    pub level: u8,
    /// Milliseconds since the Unix epoch.
    pub start: i64,
    /// Milliseconds since the Unix epoch, where the alert has an end.
    pub end: Option<i64>,
    pub region_name: String,
    pub event: String,
    pub headline: String,
    pub instruction: String,
    pub description: String,
    pub state_short: String,
    pub altitude_start: Option<i64>,
    pub altitude_end: Option<i64>,
}

impl RawWarning {
    /// Both times of the alert stand for calendar times.
    pub open spec fn times_in_range(&self) -> bool {
        &&& representable(self.start)
        &&& self.end matches Some(end) ==> representable(end)
    }
}

/// The alerts that the feed lists under one region key.
#[derive(Debug, Clone, PartialEq, Eq)]
pub struct RawGroup {
    pub key: String,
    pub warnings: Vec<RawWarning>,
}

/// One answer of the feed.
#[derive(Debug, Clone, PartialEq, Eq)]
pub struct RawResponse {
    /// When the answer was made, in milliseconds since the Unix epoch.
    pub time: i64,
    /// The alerts, grouped by region key.
    pub warnings: Vec<RawGroup>,
    pub copyright: String,
}

/// The alerts of all groups in one sequence: group after group, each in its
/// own order.
pub open spec fn flattened(groups: Seq<RawGroup>) -> Seq<RawWarning>
    decreases groups.len(),
{
    if groups.len() == 0 {
        Seq::empty()
    } else {
        flattened(groups.drop_last()) + groups.last().warnings@
    }
}

/// Every alert of the sequence has times that stand for calendar times.
pub open spec fn all_times_in_range(raws: Seq<RawWarning>) -> bool {
    forall|i: int| 0 <= i < raws.len() ==> (#[trigger] raws[i]).times_in_range()
}

} // verus!
