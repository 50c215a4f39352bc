//! The bundle written by an export and read by an import.

use vstd::prelude::*;

use super::activity::ActivityEntry;
use super::comment::Comment;
use super::file::IssueFile;
use super::issue::Issue;
use super::label::Label;
use super::relation::Relation;

verus! {

/// Everything a project holds. The export time is RFC 3339 text.
#[derive(Debug)]
pub struct ExportBundle {
    pub schema_version: u32,
    pub exported_at: String,
    pub project_name: String,
    pub issues: Vec<Issue>,
    pub comments: Vec<Comment>,
    pub labels: Vec<Label>,
    pub relations: Vec<Relation>,
    pub activity: Vec<ActivityEntry>,
    pub files: Vec<IssueFile>,
}

} // verus!
