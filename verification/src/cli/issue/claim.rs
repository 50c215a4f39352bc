//! `bmo issue claim`.

use vstd::prelude::*;

use crate::cli::{id_body, parse_id};
use crate::db::ClaimIssueInput;
use crate::errors::ParseError;
use crate::model::issue::spec_display_id;
use crate::text::{clone_opt_string, concat, concat3, decimal, decimal_i64};

verus! {

/// The arguments of `bmo issue claim`: the issue, and who takes it.
#[derive(Debug)]
pub struct ClaimArgs {
    pub id: String,
    pub assignee: Option<String>,
}

impl ClaimArgs {
    /// Reads the arguments into a claim.
    pub fn to_input(&self) -> (r: Result<ClaimIssueInput, ParseError>)
        ensures
            match decimal_i64(id_body(self.id@)) {
                Some(n) => r matches Ok(c) && c.issue_id == n && c.assignee == self.assignee,
                None => r matches Err(ParseError::InvalidIssueId(t)) && t@ == self.id@,
            },
    {
        match parse_id(self.id.as_str()) {
            Ok(n) => Ok(ClaimIssueInput { issue_id: n, assignee: clone_opt_string(&self.assignee) }),
            Err(e) => Err(e),
        }
    }
}

/// What a refused claim reports: `BMO-7 is already in-progress`.
pub fn already_claimed_message(id: i64) -> (r: String)
    ensures
        r@ == spec_display_id(id) + " is already in-progress"@,
{
    let d = decimal(id);
    concat3("BMO-", d.as_str(), " is already in-progress")
}

/// What a successful claim reports: `Claimed BMO-7.`
pub fn claimed_message(id: i64) -> (r: String)
    ensures
        r@ == "Claimed "@ + spec_display_id(id) + "."@,
{
    let d = decimal(id);
    let shown = concat("BMO-", d.as_str());
    concat3("Claimed ", shown.as_str(), ".")
}

} // verus!
