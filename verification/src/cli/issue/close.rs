//! `bmo issue close`: a move to `done`.

use vstd::prelude::*;

use crate::cli::id_body;
use crate::cli::issue::move_cmd::{move_to, status_update};
use crate::db::UpdateIssueInput;
use crate::errors::ParseError;
use crate::model::issue::Status;
use crate::text::decimal_i64;

verus! {

/// The arguments of `bmo issue close`: the issue.
#[derive(Debug)]
pub struct CloseArgs {
    pub id: String,
}

impl CloseArgs {
    /// The move that closes the issue: its status set to `done`.
    pub fn request(&self) -> (r: Result<(i64, UpdateIssueInput), ParseError>)
        ensures
            match decimal_i64(id_body(self.id@)) {
                Some(n) => r matches Ok((m, u)) && m == n && u == status_update(Status::Done),
                None => r matches Err(ParseError::InvalidIssueId(t)) && t@ == self.id@,
            },
    {
        move_to(self.id.as_str(), Status::Done)
    }
}

} // verus!
