//! The list of warnings that one answer of the feed gives.

use crate::error::AlertError;
use crate::raw::{all_times_in_range, flattened, RawGroup, RawResponse, RawWarning};
use crate::sorting::{is_stable_sort_of, lemma_sorted_members, sort_by_start, starts_ascending};
use crate::timestamp::{representable, Timestamp};
use crate::warning::Warning;
use vstd::prelude::*;

verus! {

/// The warnings that stand for `raws`, one for one and in the same order.
pub open spec fn converted(raws: Seq<RawWarning>) -> Seq<Warning> {
    Seq::new(raws.len(), |i: int| Warning::of_raw(raws[i]))
}

/// Every time in the answer stands for a calendar time: its own, and the
/// start and end of each alert.
pub open spec fn answer_in_range(raw: RawResponse) -> bool {
    &&& representable(raw.time)
    &&& all_times_in_range(flattened(raw.warnings@))
}

/// Flattening one group more appends the alerts of that group.
proof fn lemma_flattened_step(groups: Seq<RawGroup>, k: int)
    requires
        0 <= k < groups.len(),
    ensures
        flattened(groups.take(k + 1)) == flattened(groups.take(k)) + groups[k].warnings@,
{
    assert(groups.take(k + 1).drop_last() =~= groups.take(k));
}

/// Puts the alerts of all groups into one sequence: group after group, each
/// in its own order.
pub fn flatten_groups(groups: Vec<RawGroup>) -> (all: Vec<RawWarning>)
    ensures
        all@ == flattened(groups@),
{
    let ghost given = groups@;
    let mut all: Vec<RawWarning> = Vec::new();
    for group in outer: groups
        invariant
            outer.seq() == given,
            all@ == flattened(given.take(outer.index() as int)),
    {
        let ghost done = all@;
        let ghost members = group.warnings@;
        for raw in inner: group.warnings
            invariant
                inner.seq() == members,
                all@ == done + members.take(inner.index() as int),
        {
            proof {
                let j = inner.index() as int;
                assert(members.take(j + 1) =~= members.take(j).push(raw));
            }
            all.push(raw);
        }
        proof {
            assert(members.take(members.len() as int) =~= members);
            lemma_flattened_step(given, outer.index() as int);
        }
    }
    proof {
        assert(given.take(given.len() as int) =~= given);
    }
    all
}

/// Builds the warning of each alert, in the same order.
///
/// Fails with `DateParsingError` where the start or the end of any alert is
/// no calendar time.
pub fn convert_warnings(raws: Vec<RawWarning>) -> (r: Result<Vec<Warning>, AlertError>)
    ensures
        all_times_in_range(raws@) ==> (r matches Ok(warnings) && warnings@ == converted(raws@)),
        !all_times_in_range(raws@) ==> r matches Err(AlertError::DateParsingError),
{
    let ghost given = raws@;
    let mut warnings: Vec<Warning> = Vec::new();
    for raw in it: raws
        invariant
            it.seq() == given,
            warnings@ == converted(given.take(it.index() as int)),
            all_times_in_range(given.take(it.index() as int)),
    {
        let ghost k = it.index() as int;
        match Warning::from_raw(raw) {
            Ok(warning) => {
                proof {
                    assert(given.take(k + 1) =~= given.take(k).push(raw));
                    assert(warnings@.push(warning) =~= converted(given.take(k + 1)));
                }
                warnings.push(warning);
            },
            Err(_) => {
                assert(!given[k].times_in_range());
                return Err(AlertError::DateParsingError);
            },
        }
    }
    proof {
        assert(given.take(given.len() as int) =~= given);
    }
    Ok(warnings)
}

/// Container that contains a list of warnings, the time at which they were
/// received and a copyright string.
#[derive(Debug, Clone, PartialEq, Eq)]
pub struct WarningList {
    pub time: Timestamp,
    pub warnings: Vec<Warning>,
    pub copyright: String,
}

impl WarningList {
    /// All times of the list are calendar times, and the warnings stand by
    /// ascending start.
    pub open spec fn wf(&self) -> bool {
        &&& self.time.wf()
        &&& forall|i: int| 0 <= i < self.warnings@.len() ==> (#[trigger] self.warnings@[i]).wf()
        &&& starts_ascending(self.warnings@)
    }

    /// The list holds what the answer `raw` holds: its time and copyright,
    /// and the warnings of all its alerts, sorted by start, those that start
    /// together in the order in which the answer lists them.
    pub open spec fn built_from(&self, raw: RawResponse) -> bool {
        &&& self.time == Timestamp::at(raw.time)
        &&& self.copyright@ == raw.copyright@
        &&& is_stable_sort_of(self.warnings@, converted(flattened(raw.warnings@)))
    }

    /// Flattening and sorting leave the starts of the warnings in ascending
    /// order, with one warning for each alert of the answer.
    pub proof fn lemma_built_list_ascends(self, raw: RawResponse)
        requires
            self.built_from(raw),
        ensures
            starts_ascending(self.warnings@),
            forall|i: int, j: int|
                0 <= i <= j < self.warnings@.len() ==> self.warnings@[i].start@
                    <= self.warnings@[j].start@,
            self.warnings@.len() == flattened(raw.warnings@).len(),
    {
    }

    /// Builds the list for one answer of the feed.
    ///
    /// Fails with `DateParsingError` where the time of the answer, or the
    /// start or end of any alert, is no calendar time; no part of a list is
    /// returned then.
    pub fn from_raw(raw: RawResponse) -> (r: Result<WarningList, AlertError>)
        ensures
            answer_in_range(raw) ==> (r matches Ok(list) && list.built_from(raw) && list.wf()),
            !answer_in_range(raw) ==> r matches Err(AlertError::DateParsingError),
    {
        let time = match Timestamp::from_millis(raw.time) {
            Some(t) => t,
            None => {
                return Err(AlertError::DateParsingError);
            },
        };
        let raws = flatten_groups(raw.warnings);
        let warnings = match convert_warnings(raws) {
            Ok(w) => w,
            Err(e) => {
                return Err(e);
            },
        };
        let ghost unsorted = warnings@;
        let warnings = sort_by_start(warnings);
        proof {
            broadcast use Timestamp::lemma_at_millis;

            assert forall|i: int| 0 <= i < warnings@.len() implies (#[trigger] warnings@[i]).wf() by {
                lemma_sorted_members(warnings@, unsorted, i);
                let j = choose|j: int| 0 <= j < unsorted.len() && unsorted[j] == warnings@[i];
                Warning::lemma_of_raw_carries(flattened(raw.warnings@)[j]);
            }
        }
        Ok(WarningList { time, warnings, copyright: raw.copyright })
    }
}

impl IntoIterator for WarningList {
    type Item = Warning;

    type IntoIter = std::vec::IntoIter<Warning>;

    /// The warnings, earliest start first.
    fn into_iter(self) -> (iter: std::vec::IntoIter<Warning>)
        ensures
            iter == vstd::std_specs::vec::spec_into_iter(self.warnings),
    {
        self.warnings.into_iter()
    }
}

} // verus!
