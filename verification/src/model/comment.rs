//! Comments on issues.

use vstd::prelude::*;

verus! {

/// A comment on an issue. Its time stamp is the stored RFC 3339 text.
#[derive(Debug)]
pub struct Comment {
    pub id: i64,
    pub issue_id: i64,
    pub body: String,
    pub author: Option<String>,
    pub created_at: String,
}

} // verus!
