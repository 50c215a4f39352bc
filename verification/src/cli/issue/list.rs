//! `bmo issue list`.

use vstd::prelude::*;

use crate::filter::FilterBuilder;
use crate::text::{clone_opt_string, clone_strings};

verus! {

/// The arguments of `bmo issue list`.
#[derive(Debug)]
pub struct ListArgs {
    pub status: Vec<String>,
    pub priority: Vec<String>,
    pub kind: Vec<String>,
    pub assignee: Option<String>,
    /// Every label listed must be on the issue.
    pub label: Vec<String>,
    pub parent: Option<String>,
    pub search: Option<String>,
    /// 50 unless given.
    pub limit: usize,
    pub sort: Option<String>,
    /// Include done issues.
    pub all: bool,
}

impl ListArgs {
    /// The filter the arguments ask for; `--all` only lifts the exclusion of
    /// done issues.
    pub fn filter_builder(&self) -> (r: FilterBuilder)
        ensures
            r.statuses@ == self.status@,
            r.priorities@ == self.priority@,
            r.kinds@ == self.kind@,
            r.assignee == self.assignee,
            r.labels@ == self.label@,
            r.parent_id == self.parent,
            r.search == self.search,
            r.limit == self.limit,
            r.offset == 0,
            r.include_done == self.all,
            !r.findall,
    {
        FilterBuilder {
            statuses: clone_strings(&self.status),
            priorities: clone_strings(&self.priority),
            kinds: clone_strings(&self.kind),
            assignee: clone_opt_string(&self.assignee),
            labels: clone_strings(&self.label),
            parent_id: clone_opt_string(&self.parent),
            search: clone_opt_string(&self.search),
            limit: self.limit,
            offset: 0,
            include_done: self.all,
            findall: false,
        }
    }
}

} // verus!
