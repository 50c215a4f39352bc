//! `bmo issue reopen`: a move to `todo`.

use vstd::prelude::*;

use crate::cli::id_body;
use crate::cli::issue::move_cmd::{move_to, status_update};
use crate::db::UpdateIssueInput;
use crate::errors::ParseError;
use crate::model::issue::Status;
use crate::text::decimal_i64;

verus! {

/// The arguments of `bmo issue reopen`: the issue.
#[derive(Debug)]
pub struct ReopenArgs {
    pub id: String,
}

impl ReopenArgs {
    /// The move that reopens the issue: its status set to `todo`.
    pub fn request(&self) -> (r: Result<(i64, UpdateIssueInput), ParseError>)
        ensures
            match decimal_i64(id_body(self.id@)) {
                Some(n) => r matches Ok((m, u)) && m == n && u == status_update(Status::Todo),
                None => r matches Err(ParseError::InvalidIssueId(t)) && t@ == self.id@,
            },
    {
        move_to(self.id.as_str(), Status::Todo)
    }
}

} // verus!
