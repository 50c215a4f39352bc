//! `bmo board`.

use vstd::prelude::*;

use crate::filter::FilterBuilder;
use crate::text::{clone_opt_string, clone_strings};

verus! {

/// The arguments of `bmo board`.
#[derive(Debug)]
pub struct BoardArgs {
    pub label: Vec<String>,
    pub priority: Vec<String>,
    pub assignee: Option<String>,
}

impl BoardArgs {
    /// The filter behind the board: every issue, of every status, done ones
    /// included, that has one of the priorities given, every label given and
    /// the assignee given, with no limit.
    pub fn filter_builder(&self) -> (r: FilterBuilder)
        ensures
            r.statuses@.len() == 0,
            r.priorities@ == self.priority@,
            r.kinds@.len() == 0,
            r.assignee == self.assignee,
            r.labels@ == self.label@,
            r.parent_id is None,
            r.search is None,
            r.limit == 0,
            r.offset == 0,
            r.include_done,
            !r.findall,
    {
        let mut b = FilterBuilder::default();
        b.priorities = clone_strings(&self.priority);
        b.labels = clone_strings(&self.label);
        b.assignee = clone_opt_string(&self.assignee);
        b.include_done = true;
        b

    }
}

/// The filter behind a board of everything, as the agent session start shows
/// it. It carries the limit 500, which an all-issues filter does not apply.
pub fn board_filter() -> (r: FilterBuilder)
    ensures
        r.statuses@.len() == 0 && r.priorities@.len() == 0 && r.kinds@.len() == 0,
        r.assignee is None && r.labels@.len() == 0 && r.parent_id is None && r.search is None,
        r.limit == 500 && r.offset == 0 && !r.include_done && r.findall,
{
    let mut b = FilterBuilder::default();
    b.findall = true;
    b.limit = 500;
    b
}

} // verus!
