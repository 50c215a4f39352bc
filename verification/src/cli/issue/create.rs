//! `bmo issue create`.

use vstd::prelude::*;

use crate::cli::{id_body, parse_id};
use crate::db::CreateIssueInput;
use crate::errors::ParseError;
use crate::model::issue::{Kind, Priority, Status};
use crate::text::{clone_opt_string, clone_strings, decimal_i64, lowercase_of};

verus! {

/// The arguments of `bmo issue create`, as given on the command line.
#[derive(Debug)]
pub struct CreateArgs {
    pub title: String,
    /// Defaults to empty text.
    pub description: String,
    /// Defaults to `backlog`.
    pub status: String,
    /// Defaults to `medium`.
    pub priority: String,
    /// Defaults to `task`.
    pub kind: String,
    pub assignee: Option<String>,
    pub parent: Option<String>,
    pub label: Vec<String>,
    pub file: Vec<String>,
}

/// What an optional issue id text reads as: `Some` of the id it names (or
/// of `None` when there is no text), `None` when the text names no id.
pub open spec fn parent_read(p: Option<String>) -> Option<Option<i64>> {
    match p {
        Some(t) => match decimal_i64(id_body(t@)) {
            Some(n) => Some(Some(n)),
            None => None,
        },
        None => Some(None),
    }
}

impl CreateArgs {
    /// Reads the arguments into the input of a new issue. The status,
    /// priority and kind are read ignoring case, the parent as an issue id;
    /// the first that does not read, in that order, is the error.
    pub fn to_input(&self) -> (r: Result<CreateIssueInput, ParseError>)
        ensures
            Status::from_lower(lowercase_of(self.status@)) is None ==> (r matches Err(ParseError::UnknownStatus(t))
                && t@ == self.status@),
            Status::from_lower(lowercase_of(self.status@)) is Some && Priority::from_lower(lowercase_of(self.priority@)) is None
                ==> (r matches Err(ParseError::UnknownPriority(t)) && t@ == self.priority@),
            Status::from_lower(lowercase_of(self.status@)) is Some && Priority::from_lower(lowercase_of(self.priority@)) is Some
                && Kind::from_lower(lowercase_of(self.kind@)) is None ==> (r matches Err(ParseError::UnknownKind(t))
                && t@ == self.kind@),
            Status::from_lower(lowercase_of(self.status@)) is Some && Priority::from_lower(lowercase_of(self.priority@)) is Some
                && Kind::from_lower(lowercase_of(self.kind@)) is Some && parent_read(self.parent) is None ==> (r matches Err(
                ParseError::InvalidIssueId(t)) && self.parent matches Some(p) && t@ == p@),
            r is Ok <==> Status::from_lower(lowercase_of(self.status@)) is Some && Priority::from_lower(lowercase_of(self.priority@)) is Some
                && Kind::from_lower(lowercase_of(self.kind@)) is Some && parent_read(self.parent) is Some,
            r matches Ok(input) ==> {
                &&& Some(input.status) == Status::from_lower(lowercase_of(self.status@))
                &&& Some(input.priority) == Priority::from_lower(lowercase_of(self.priority@))
                &&& Some(input.kind) == Kind::from_lower(lowercase_of(self.kind@))
                &&& Some(input.parent_id) == parent_read(self.parent)
                &&& input.title@ == self.title@
                &&& input.description@ == self.description@
                &&& input.assignee == self.assignee
                &&& input.labels@ == self.label@
                &&& input.files@ == self.file@
                &&& input.actor is None
            },
    {
        let status = match Status::parse(self.status.as_str()) {
            Ok(s) => s,
            Err(e) => return Err(e),
        };
        let priority = match Priority::parse(self.priority.as_str()) {
            Ok(p) => p,
            Err(e) => return Err(e),
        };
        let kind = match Kind::parse(self.kind.as_str()) {
            Ok(k) => k,
            Err(e) => return Err(e),
        };
        let parent_id = match &self.parent {
            Some(p) => match parse_id(p.as_str()) {
                Ok(n) => Some(n),
                Err(e) => return Err(e),
            },
            None => None,
        };
        Ok(
            CreateIssueInput {
                parent_id,
                title: self.title.clone(),
                description: self.description.clone(),
                status,
                priority,
                kind,
                assignee: clone_opt_string(&self.assignee),
                labels: clone_strings(&self.label),
                files: clone_strings(&self.file),
                actor: None,
            },
        )
    }
}

} // verus!
