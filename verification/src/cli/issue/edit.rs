//! `bmo issue edit`.

use vstd::prelude::*;

use crate::cli::{id_body, parse_id};
use crate::db::UpdateIssueInput;
use crate::errors::ParseError;
use crate::model::issue::{Kind, Priority, Status};
use crate::text::{clone_opt_string, decimal_i64, lowercase_of};

verus! {

/// The arguments of `bmo issue edit`: the issue, and each field to change.
#[derive(Debug)]
pub struct EditArgs {
    pub id: String,
    pub title: Option<String>,
    pub description: Option<String>,
    pub status: Option<String>,
    pub priority: Option<String>,
    pub kind: Option<String>,
    pub assignee: Option<String>,
    pub parent: Option<String>,
}

/// An optional status text read: `Some(None)` for no text, `None` when the text names no status.
pub open spec fn opt_status(t: Option<String>) -> Option<Option<Status>> {
    match t {
        Some(s) => match Status::from_lower(lowercase_of(s@)) {
            Some(st) => Some(Some(st)),
            None => None,
        },
        None => Some(None),
    }
}

pub open spec fn opt_priority(t: Option<String>) -> Option<Option<Priority>> {
    match t {
        Some(s) => match Priority::from_lower(lowercase_of(s@)) {
            Some(p) => Some(Some(p)),
            None => None,
        },
        None => Some(None),
    }
}

pub open spec fn opt_kind(t: Option<String>) -> Option<Option<Kind>> {
    match t {
        Some(s) => match Kind::from_lower(lowercase_of(s@)) {
            Some(k) => Some(Some(k)),
            None => None,
        },
        None => Some(None),
    }
}

/// What the parent argument of an edit asks: `Some(None)` to leave it,
/// `Some(Some(Some(n)))` to set it to `n`; `None` when the text names no id.
/// An edit cannot clear the parent.
pub open spec fn parent_change(t: Option<String>) -> Option<Option<Option<i64>>> {
    match t {
        Some(s) => match decimal_i64(id_body(s@)) {
            Some(n) => Some(Some(Some(n))),
            None => None,
        },
        None => Some(None),
    }
}

/// An edit writes each field it is given, as the text reads, and leaves
/// each other field: a status, priority or kind text that names a value
/// sets that value, a parent text that reads as an id sets that parent, and
/// a field not given is not written.
pub proof fn lemma_edit_reads_given_fields(t: Option<String>)
    ensures
        (t is Some && Status::from_lower(lowercase_of(t->0@)) is Some) ==> opt_status(t) == Some(
            Status::from_lower(lowercase_of(t->0@)),
        ),
        (t is Some && Priority::from_lower(lowercase_of(t->0@)) is Some) ==> opt_priority(t) == Some(
            Priority::from_lower(lowercase_of(t->0@)),
        ),
        (t is Some && Kind::from_lower(lowercase_of(t->0@)) is Some) ==> opt_kind(t) == Some(
            Kind::from_lower(lowercase_of(t->0@)),
        ),
        (t is Some && decimal_i64(id_body(t->0@)) is Some) ==> parent_change(t) == Some(
            Some(decimal_i64(id_body(t->0@))),
        ),
        t is None ==> opt_status(t) == Some(None::<Status>) && opt_priority(t) == Some(None::<Priority>) && opt_kind(t)
            == Some(None::<Kind>) && parent_change(t) == Some(None::<Option<i64>>),
{
}

impl EditArgs {
    /// Reads the arguments into the issue id and the update. The id is read
    /// first, then the status, priority, kind and parent; the first that does
    /// not read is the error.
    pub fn to_update(&self) -> (r: Result<(i64, UpdateIssueInput), ParseError>)
        ensures
            decimal_i64(id_body(self.id@)) is None ==> (r matches Err(ParseError::InvalidIssueId(t)) && t@ == self.id@),
            decimal_i64(id_body(self.id@)) is Some && opt_status(self.status) is None ==> (r matches Err(
                ParseError::UnknownStatus(t)) && self.status matches Some(s) && t@ == s@),
            decimal_i64(id_body(self.id@)) is Some && opt_status(self.status) is Some && opt_priority(self.priority) is None
                ==> (r matches Err(ParseError::UnknownPriority(t)) && self.priority matches Some(s) && t@ == s@),
            decimal_i64(id_body(self.id@)) is Some && opt_status(self.status) is Some && opt_priority(self.priority) is Some
                && opt_kind(self.kind) is None ==> (r matches Err(ParseError::UnknownKind(t)) && self.kind matches Some(s)
                && t@ == s@),
            decimal_i64(id_body(self.id@)) is Some && opt_status(self.status) is Some && opt_priority(self.priority) is Some
                && opt_kind(self.kind) is Some && parent_change(self.parent) is None ==> (r matches Err(
                ParseError::InvalidIssueId(t)) && self.parent matches Some(s) && t@ == s@),
            r is Ok <==> decimal_i64(id_body(self.id@)) is Some && opt_status(self.status) is Some && opt_priority(self.priority)
                is Some && opt_kind(self.kind) is Some && parent_change(self.parent) is Some,
            r matches Ok((id, u)) ==> {
                &&& Some(id) == decimal_i64(id_body(self.id@))
                &&& u.title == self.title
                &&& u.description == self.description
                &&& Some(u.status) == opt_status(self.status)
                &&& Some(u.priority) == opt_priority(self.priority)
                &&& Some(u.kind) == opt_kind(self.kind)
                &&& u.assignee == self.assignee
                &&& Some(u.parent_id) == parent_change(self.parent)
                &&& u.actor is None
            },
            r matches Ok((_, u)) ==> {
                &&& u.status == match self.status {
                    Some(s) => Status::from_lower(lowercase_of(s@)),
                    None => None,
                }
                &&& u.priority == match self.priority {
                    Some(s) => Priority::from_lower(lowercase_of(s@)),
                    None => None,
                }
                &&& u.kind == match self.kind {
                    Some(s) => Kind::from_lower(lowercase_of(s@)),
                    None => None,
                }
                &&& u.parent_id == match self.parent {
                    Some(s) => Some(decimal_i64(id_body(s@))),
                    None => None,
                }
            },
    {
        let id = match parse_id(self.id.as_str()) {
            Ok(n) => n,
            Err(e) => return Err(e),
        };
        let status = match &self.status {
            Some(s) => match Status::parse(s.as_str()) {
                Ok(v) => Some(v),
                Err(e) => return Err(e),
            },
            None => None,
        };
        let priority = match &self.priority {
            Some(s) => match Priority::parse(s.as_str()) {
                Ok(v) => Some(v),
                Err(e) => return Err(e),
            },
            None => None,
        };
        let kind = match &self.kind {
            Some(s) => match Kind::parse(s.as_str()) {
                Ok(v) => Some(v),
                Err(e) => return Err(e),
            },
            None => None,
        };
        let parent_id = match &self.parent {
            Some(s) => match parse_id(s.as_str()) {
                Ok(n) => Some(Some(n)),
                Err(e) => return Err(e),
            },
            None => None,
        };
        Ok(
            (
                id,
                UpdateIssueInput {
                    title: clone_opt_string(&self.title),
                    description: clone_opt_string(&self.description),
                    status,
                    priority,
                    kind,
                    assignee: clone_opt_string(&self.assignee),
                    parent_id,
                    actor: None,
                },
            ),
        )
    }
}

} // verus!
