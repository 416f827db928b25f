//! How a search for tasks is narrowed.

use vstd::prelude::*;
use crate::models::SortOrder;
use crate::status::Status;
use crate::timestamp::UnixTimestamp;

verus! {

/// Whether a task must carry all of the tags or any of them.
#[derive(Clone, Copy, Debug, PartialEq, Eq, Structural)]
pub enum FilterOption {
    All,
    Any,
}

/// A range of instants; a bound that is absent does not narrow.
#[derive(Clone, Copy, Debug, PartialEq, Eq, Structural)]
pub struct DateFilter {
    pub start: Option<UnixTimestamp>,
    pub end: Option<UnixTimestamp>,
}

/// The tags to look for, and whether all or any of them must be carried.
#[derive(Clone, Debug)]
pub struct TagFilter {
    pub tags: Vec<String>,
    pub tag_filter: FilterOption,
}

/// A ready-made way to narrow the search.
#[derive(Clone, Debug)]
pub enum QuickFilter {
    Untagged,
    Tagged(TagFilter),
    Planned,
    Unplanned,
    Overdue,
    LateStart,
}

/// How to search the tasks.
#[derive(Clone, Debug)]
pub struct TaskSearchParams {
    pub page: i64,
    pub page_size: i64,
    pub query_string: Option<String>,
    pub statuses: Vec<Status>,
    pub quick_filter: Option<QuickFilter>,
    pub start_by_filter: Option<DateFilter>,
    pub due_by_filter: Option<DateFilter>,
    pub ordering: SortOrder,
}

impl DateFilter {
    /// Both bounds are given, so that the filter narrows the search.
    pub open spec fn is_bounded(self) -> bool {
        self.start is Some && self.end is Some
    }

    /// The two bounds, if both are given.
    pub fn bounds(&self) -> (r: Option<(UnixTimestamp, UnixTimestamp)>)
        ensures
            r is Some <==> self.is_bounded(),
            r is Some ==> r->0 == (self.start->0, self.end->0),
    {
        match (self.start, self.end) {
            (Some(start), Some(end)) => Some((start, end)),
            _ => None,
        }
    }
}

} // verus!
