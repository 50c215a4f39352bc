//! `bmo issue comment`.

use vstd::prelude::*;

use crate::cli::{id_body, parse_id};
use crate::db::AddCommentInput;
use crate::errors::ParseError;
use crate::text::{clone_opt_string, decimal_i64};

verus! {

/// The comment subcommands.
#[derive(Debug)]
pub enum CommentCommands {
    /// Add a comment to an issue.
    Add(AddArgs),
    /// List the comments on an issue.
    List(ListArgs),
}

/// The arguments of `bmo issue comment add`.
#[derive(Debug)]
pub struct AddArgs {
    pub id: String,
    pub body: String,
    pub author: Option<String>,
}

/// The arguments of `bmo issue comment list`.
#[derive(Debug)]
pub struct ListArgs {
    pub id: String,
}

impl AddArgs {
    /// Reads the arguments into the input of a new comment.
    pub fn to_input(&self) -> (r: Result<AddCommentInput, ParseError>)
        ensures
            match decimal_i64(id_body(self.id@)) {
                Some(n) => r matches Ok(c) && c.issue_id == n && c.body@ == self.body@ && c.author == self.author,
                None => r matches Err(ParseError::InvalidIssueId(t)) && t@ == self.id@,
            },
    {
        match parse_id(self.id.as_str()) {
            Ok(n) => Ok(AddCommentInput { issue_id: n, body: self.body.clone(), author: clone_opt_string(&self.author) }),
            Err(e) => Err(e),
        }
    }
}

} // verus!
