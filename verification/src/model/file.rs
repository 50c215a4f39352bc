//! Files attached to issues.

use vstd::prelude::*;

verus! {

/// A file path attached to an issue. Its time stamp is the stored RFC 3339 text.
#[derive(Debug)]
pub struct IssueFile {
    pub id: i64,
    pub issue_id: i64,
    pub path: String,
    pub added_at: String,
}

} // verus!
