//! Building an issue filter from the text arguments of the command line.

use vstd::prelude::*;

use crate::cli::{id_body, parse_id};
use crate::errors::ParseError;
use crate::model::issue::{IssueFilter, Kind, Priority, Status};
use crate::text::{decimal_i64, lowercase_of};

verus! {

/// The text names a status.
pub open spec fn names_status(s: String) -> bool {
    Status::from_lower(lowercase_of(s@)) is Some
}

pub open spec fn names_priority(s: String) -> bool {
    Priority::from_lower(lowercase_of(s@)) is Some
}

pub open spec fn names_kind(s: String) -> bool {
    Kind::from_lower(lowercase_of(s@)) is Some
}

/// `j` is the first position of `v` whose text names no status.
pub open spec fn first_refused_status(v: Seq<String>, j: int) -> bool {
    &&& 0 <= j < v.len()
    &&& !names_status(v[j])
    &&& forall|i: int| 0 <= i < j ==> names_status(#[trigger] v[i])
}

/// Every text of `v` names a status.
pub open spec fn all_named_status(v: Seq<String>) -> bool {
    forall|i: int| 0 <= i < v.len() ==> names_status(#[trigger] v[i])
}

/// `j` is the first position of `v` whose text names no priority.
pub open spec fn first_refused_priority(v: Seq<String>, j: int) -> bool {
    &&& 0 <= j < v.len()
    &&& !names_priority(v[j])
    &&& forall|i: int| 0 <= i < j ==> names_priority(#[trigger] v[i])
}

/// Every text of `v` names a priority.
pub open spec fn all_named_priority(v: Seq<String>) -> bool {
    forall|i: int| 0 <= i < v.len() ==> names_priority(#[trigger] v[i])
}

/// `j` is the first position of `v` whose text names no kind.
pub open spec fn first_refused_kind(v: Seq<String>, j: int) -> bool {
    &&& 0 <= j < v.len()
    &&& !names_kind(v[j])
    &&& forall|i: int| 0 <= i < j ==> names_kind(#[trigger] v[i])
}

/// Every text of `v` names a kind.
pub open spec fn all_named_kind(v: Seq<String>) -> bool {
    forall|i: int| 0 <= i < v.len() ==> names_kind(#[trigger] v[i])
}

/// Reads each text of `v` as a status; fails on the first that is none.
pub fn parse_statuses(v: &Vec<String>) -> (r: Result<Vec<Status>, ParseError>)
    ensures
        r is Ok <==> all_named_status(v@),
        r matches Ok(w) ==> w@.len() == v@.len() && forall|i: int| 0 <= i < v@.len() ==> Some(#[trigger] w@[i])
            == Status::from_lower(lowercase_of(v@[i]@)),
        r matches Err(e) ==> exists|j: int| #[trigger] first_refused_status(v@, j)
            && (e matches ParseError::UnknownStatus(t) && t@ == v@[j]@),
{
    let mut out: Vec<Status> = Vec::new();
    let mut i: usize = 0;
    while i < v.len()
        invariant
            i <= v.len(),
            out@.len() == i,
            forall|k: int| 0 <= k < i ==> names_status(#[trigger] v@[k]),
            forall|k: int| 0 <= k < i ==> Some(#[trigger] out@[k]) == Status::from_lower(lowercase_of(v@[k]@)),
        decreases v.len() - i,
    {
        match Status::parse(v[i].as_str()) {
            Ok(s) => out.push(s),
            Err(e) => {
                assert(first_refused_status(v@, i as int));
                return Err(e);
            },
        }
        i += 1;
    }
    Ok(out)
}

/// Reads each text of `v` as a priority; fails on the first that is none.
pub fn parse_priorities(v: &Vec<String>) -> (r: Result<Vec<Priority>, ParseError>)
    ensures
        r is Ok <==> all_named_priority(v@),
        r matches Ok(w) ==> w@.len() == v@.len() && forall|i: int| 0 <= i < v@.len() ==> Some(#[trigger] w@[i])
            == Priority::from_lower(lowercase_of(v@[i]@)),
        r matches Err(e) ==> exists|j: int| #[trigger] first_refused_priority(v@, j)
            && (e matches ParseError::UnknownPriority(t) && t@ == v@[j]@),
{
    let mut out: Vec<Priority> = Vec::new();
    let mut i: usize = 0;
    while i < v.len()
        invariant
            i <= v.len(),
            out@.len() == i,
            forall|k: int| 0 <= k < i ==> names_priority(#[trigger] v@[k]),
            forall|k: int| 0 <= k < i ==> Some(#[trigger] out@[k]) == Priority::from_lower(lowercase_of(v@[k]@)),
        decreases v.len() - i,
    {
        match Priority::parse(v[i].as_str()) {
            Ok(p) => out.push(p),
            Err(e) => {
                assert(first_refused_priority(v@, i as int));
                return Err(e);
            },
        }
        i += 1;
    }
    Ok(out)
}

/// Reads each text of `v` as a kind; fails on the first that is none.
pub fn parse_kinds(v: &Vec<String>) -> (r: Result<Vec<Kind>, ParseError>)
    ensures
        r is Ok <==> all_named_kind(v@),
        r matches Ok(w) ==> w@.len() == v@.len() && forall|i: int| 0 <= i < v@.len() ==> Some(#[trigger] w@[i])
            == Kind::from_lower(lowercase_of(v@[i]@)),
        r matches Err(e) ==> exists|j: int| #[trigger] first_refused_kind(v@, j)
            && (e matches ParseError::UnknownKind(t) && t@ == v@[j]@),
{
    let mut out: Vec<Kind> = Vec::new();
    let mut i: usize = 0;
    while i < v.len()
        invariant
            i <= v.len(),
            out@.len() == i,
            forall|k: int| 0 <= k < i ==> names_kind(#[trigger] v@[k]),
            forall|k: int| 0 <= k < i ==> Some(#[trigger] out@[k]) == Kind::from_lower(lowercase_of(v@[k]@)),
        decreases v.len() - i,
    {
        match Kind::parse(v[i].as_str()) {
            Ok(k) => out.push(k),
            Err(e) => {
                assert(first_refused_kind(v@, i as int));
                return Err(e);
            },
        }
        i += 1;
    }
    Ok(out)
}

/// Build an IssueFilter from CLI string arguments.
#[derive(Debug)]
pub struct FilterBuilder {
    pub statuses: Vec<String>,
    pub priorities: Vec<String>,
    pub kinds: Vec<String>,
    pub assignee: Option<String>,
    pub labels: Vec<String>,
    pub parent_id: Option<String>,
    pub search: Option<String>,
    pub limit: usize,
    pub offset: usize,
    /// When `true`, removes the default `status != 'done'` exclusion.
    /// All other active filters (priority, kind, assignee, labels, etc.) remain in effect.
    /// Distinct from `findall` which bypasses ALL predicates.
    pub include_done: bool,
    /// `--all` is a short-circuit that ignores all other filters and selects all issues.
    pub findall: bool,
}

impl Default for FilterBuilder {
    fn default() -> (r: FilterBuilder)
        ensures
            r.statuses@.len() == 0 && r.priorities@.len() == 0 && r.kinds@.len() == 0,
            r.assignee is None && r.labels@.len() == 0 && r.parent_id is None && r.search is None,
            r.limit == 0 && r.offset == 0 && !r.include_done && !r.findall,
    {
        FilterBuilder {
            statuses: Vec::new(),
            priorities: Vec::new(),
            kinds: Vec::new(),
            assignee: None,
            labels: Vec::new(),
            parent_id: None,
            search: None,
            limit: 0,
            offset: 0,
            include_done: false,
            findall: false,
        }
    }
}

/// The parent id text, if any, reads as an issue id.
pub open spec fn parent_accepted(p: Option<String>) -> bool {
    p matches Some(t) ==> decimal_i64(id_body(t@)) is Some
}

impl FilterBuilder {
    /// Reads the arguments into a filter: empty lists and a zero limit or
    /// offset leave that part unset. Statuses, priorities and kinds are read
    /// ignoring case, and the parent as an issue id; the first text that does
    /// not read, in that order, is the error.
    pub fn build(self) -> (r: Result<IssueFilter, ParseError>)
        ensures
            r is Ok <==> all_named_status(self.statuses@)
                && all_named_priority(self.priorities@)
                && all_named_kind(self.kinds@)
                && parent_accepted(self.parent_id),
            r matches Ok(f) ==> {
                &&& (self.statuses@.len() == 0 <==> f.status is None)
                &&& f.status matches Some(v) ==> v@.len() == self.statuses@.len() && forall|i: int|
                    0 <= i < v@.len() ==> Some(#[trigger] v@[i]) == Status::from_lower(lowercase_of(self.statuses@[i]@))
                &&& (self.priorities@.len() == 0 <==> f.priority is None)
                &&& f.priority matches Some(v) ==> v@.len() == self.priorities@.len() && forall|i: int|
                    0 <= i < v@.len() ==> Some(#[trigger] v@[i]) == Priority::from_lower(lowercase_of(self.priorities@[i]@))
                &&& (self.kinds@.len() == 0 <==> f.kind is None)
                &&& f.kind matches Some(v) ==> v@.len() == self.kinds@.len() && forall|i: int|
                    0 <= i < v@.len() ==> Some(#[trigger] v@[i]) == Kind::from_lower(lowercase_of(self.kinds@[i]@))
                &&& f.assignee == self.assignee
                &&& (if self.labels@.len() == 0 { f.labels is None } else { f.labels == Some(self.labels) })
                &&& f.parent_id == match self.parent_id {
                    Some(t) => decimal_i64(id_body(t@)),
                    None => None,
                }
                &&& f.search == self.search
                &&& f.limit == (if self.limit == 0 { None } else { Some(self.limit) })
                &&& f.offset == (if self.offset == 0 { None } else { Some(self.offset) })
                &&& f.include_done == self.include_done
                &&& f.findall == self.findall
            },
            r matches Err(e) ==> {
                if !all_named_status(self.statuses@) {
                    exists|j: int| #[trigger] first_refused_status(self.statuses@, j)
                        && (e matches ParseError::UnknownStatus(t) && t@ == self.statuses@[j]@)
                } else if !all_named_priority(self.priorities@) {
                    exists|j: int| #[trigger] first_refused_priority(self.priorities@, j)
                        && (e matches ParseError::UnknownPriority(t) && t@ == self.priorities@[j]@)
                } else if !all_named_kind(self.kinds@) {
                    exists|j: int| #[trigger] first_refused_kind(self.kinds@, j)
                        && (e matches ParseError::UnknownKind(t) && t@ == self.kinds@[j]@)
                } else {
                    e matches ParseError::InvalidIssueId(t) && self.parent_id matches Some(p) && t@ == p@
                }
            },
    {
        let status = if self.statuses.len() == 0 {
            None
        } else {
            match parse_statuses(&self.statuses) {
                Ok(v) => Some(v),
                Err(e) => return Err(e),
            }
        };
        let priority = if self.priorities.len() == 0 {
            None
        } else {
            match parse_priorities(&self.priorities) {
                Ok(v) => Some(v),
                Err(e) => return Err(e),
            }
        };
        let kind = if self.kinds.len() == 0 {
            None
        } else {
            match parse_kinds(&self.kinds) {
                Ok(v) => Some(v),
                Err(e) => return Err(e),
            }
        };
        let parent_id = match &self.parent_id {
            Some(p) => match parse_id(p.as_str()) {
                Ok(id) => Some(id),
                Err(e) => return Err(e),
            },
            None => None,
        };
        let labels = if self.labels.len() == 0 {
            None
        } else {
            Some(self.labels)
        };
        Ok(IssueFilter {
            status,
            priority,
            kind,
            assignee: self.assignee,
            labels,
            parent_id,
            search: self.search,
            limit: if self.limit == 0 {
                None
            } else {
                Some(self.limit)
            },
            offset: if self.offset == 0 {
                None
            } else {
                Some(self.offset)
            },
            include_done: self.include_done,
            findall: self.findall,
        })
    }
}

} // verus!
