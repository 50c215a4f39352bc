//! Files shared between issues that are in progress.

use vstd::prelude::*;

verus! {

/// Represents a file that is attached to more than one active issue,
/// along with the set of issues that share it.
#[derive(Debug)]
pub struct FileConflict {
    pub file: String,
    pub conflicts_with: Vec<ConflictingIssue>,
}

/// A summary of an issue that conflicts (shares a file) with another issue.
#[derive(Debug)]
pub struct ConflictingIssue {
    pub id: i64,
    pub title: String,
    pub status: String,
}

/// The value of a conflicting issue, with its texts as character sequences.
pub struct ConflictingIssueView {
    pub id: i64,
    pub title: Seq<char>,
    pub status: Seq<char>,
}

impl View for ConflictingIssue {
    type V = ConflictingIssueView;

    open spec fn view(&self) -> ConflictingIssueView {
        ConflictingIssueView { id: self.id, title: self.title@, status: self.status@ }
    }
}

/// The value of a file conflict: the file and the issues that share it, in order.
pub struct FileConflictView {
    pub file: Seq<char>,
    pub conflicts_with: Seq<ConflictingIssueView>,
}

impl View for FileConflict {
    type V = FileConflictView;

    open spec fn view(&self) -> FileConflictView {
        FileConflictView {
            file: self.file@,
            conflicts_with: self.conflicts_with@.map_values(|c: ConflictingIssue| c@),
        }
    }
}

} // verus!
