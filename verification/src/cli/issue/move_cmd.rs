//! `bmo issue move`, and the moves that close and reopen an issue.

use vstd::prelude::*;

use crate::cli::{id_body, parse_id};
use crate::db::UpdateIssueInput;
use crate::errors::ParseError;
use crate::model::issue::{spec_display_id, Status};
use crate::text::{concat3, decimal_i64, lowercase_of};

verus! {

/// The arguments of `bmo issue move`: the issue and its new status.
#[derive(Debug)]
pub struct MoveArgs {
    pub id: String,
    pub status: String,
}

/// The update that sets a status and changes nothing else.
pub open spec fn status_update(s: Status) -> UpdateIssueInput {
    UpdateIssueInput { status: Some(s), ..UpdateIssueInput::spec_default() }
}

/// The move of an issue, already read, to a known status.
pub fn move_to(id: &str, status: Status) -> (r: Result<(i64, UpdateIssueInput), ParseError>)
    ensures
        match decimal_i64(id_body(id@)) {
            Some(n) => r matches Ok((m, u)) && m == n && u == status_update(status),
            None => r matches Err(ParseError::InvalidIssueId(t)) && t@ == id@,
        },
{
    let n = match parse_id(id) {
        Ok(n) => n,
        Err(e) => return Err(e),
    };
    let mut u = UpdateIssueInput::default();
    u.status = Some(status);
    Ok((n, u))
}

/// Reads a move: the issue id, then the status, ignoring case; the first
/// that does not read is the error.
pub fn move_request(id: &str, status: &str) -> (r: Result<(i64, UpdateIssueInput), ParseError>)
    ensures
        decimal_i64(id_body(id@)) is None ==> (r matches Err(ParseError::InvalidIssueId(t)) && t@ == id@),
        decimal_i64(id_body(id@)) is Some && Status::from_lower(lowercase_of(status@)) is None ==> (r matches Err(
            ParseError::UnknownStatus(t)) && t@ == status@),
        r is Ok <==> decimal_i64(id_body(id@)) is Some && Status::from_lower(lowercase_of(status@)) is Some,
        r matches Ok((n, u)) ==> Some(n) == decimal_i64(id_body(id@)) && Status::from_lower(lowercase_of(status@)) == Some(
            u.status->0) && u == status_update(u.status->0),
{
    let n = match parse_id(id) {
        Ok(n) => n,
        Err(e) => return Err(e),
    };
    let s = match Status::parse(status) {
        Ok(s) => s,
        Err(e) => return Err(e),
    };
    let mut u = UpdateIssueInput::default();
    u.status = Some(s);
    Ok((n, u))
}

impl MoveArgs {
    pub fn request(&self) -> (r: Result<(i64, UpdateIssueInput), ParseError>)
        ensures
            decimal_i64(id_body(self.id@)) is None ==> (r matches Err(ParseError::InvalidIssueId(t)) && t@ == self.id@),
            decimal_i64(id_body(self.id@)) is Some && Status::from_lower(lowercase_of(self.status@)) is None ==> (r matches Err(
                ParseError::UnknownStatus(t)) && t@ == self.status@),
            r is Ok <==> decimal_i64(id_body(self.id@)) is Some && Status::from_lower(lowercase_of(self.status@)) is Some,
            r matches Ok((n, u)) ==> Some(n) == decimal_i64(id_body(self.id@)) && Status::from_lower(
                lowercase_of(self.status@),
            ) == Some(u.status->0) && u == status_update(u.status->0),
    {
        move_request(self.id.as_str(), self.status.as_str())
    }
}

/// What a move reports: `Moved BMO-7 → review`.
pub fn moved_message(id: i64, status: Status) -> (r: String)
    ensures
        r@ == "Moved "@ + spec_display_id(id) + " → "@ + status.spec_label(),
{
    let d = crate::text::decimal(id);
    let shown = crate::text::concat("BMO-", d.as_str());
    let head = concat3("Moved ", shown.as_str(), " → ");
    crate::text::concat(head.as_str(), status.label())
}

} // verus!
