//! The activity log of issues.

use vstd::prelude::*;

verus! {

/// A stored entry of the activity log. Its time stamp is the stored RFC 3339 text.
#[derive(Debug)]
pub struct ActivityEntry {
    pub id: i64,
    pub issue_id: i64,
    pub kind: String,
    pub detail: Option<String>,
    pub actor: Option<String>,
    pub created_at: String,
}

/// An entry to append to the activity log.
#[derive(Debug)]
pub struct NewActivityEntry {
    pub issue_id: i64,
    pub kind: String,
    pub detail: Option<String>,
    pub actor: Option<String>,
}

} // verus!
