//! `bmo issue file`.

use vstd::prelude::*;

use crate::db::rows::{conflict_count, conflict_views};
use crate::model::conflict::{FileConflict, FileConflictView};

verus! {

/// The file subcommands.
#[derive(Debug)]
pub enum FileCommands {
    /// Attach a file to an issue.
    Add(AddArgs),
    /// Remove a file from an issue.
    Rm(RmArgs),
    /// List the files of an issue.
    List(ListArgs),
    /// Show the files an issue shares with other in-progress issues.
    Conflicts(ConflictsArgs),
}

/// The arguments of `bmo issue file add`.
#[derive(Debug)]
pub struct AddArgs {
    pub id: String,
    pub path: String,
}

/// The arguments of `bmo issue file rm`.
#[derive(Debug)]
pub struct RmArgs {
    pub id: String,
    pub path: String,
}

/// The arguments of `bmo issue file list`.
#[derive(Debug)]
pub struct ListArgs {
    pub id: String,
}

/// The arguments of `bmo issue file conflicts`.
#[derive(Debug)]
pub struct ConflictsArgs {
    pub id: String,
}

/// Counts the conflicts: each issue sharing each file once.
pub fn total_conflicts(conflicts: &Vec<FileConflict>) -> (r: usize)
    requires
        conflict_count(conflict_views(conflicts@)) <= usize::MAX,
    ensures
        r == conflict_count(conflict_views(conflicts@)),
{
    let mut total: usize = 0;
    let mut i: usize = 0;
    while i < conflicts.len()
        invariant
            0 <= i <= conflicts.len(),
            total == conflict_count(conflict_views(conflicts@.take(i as int))),
            conflict_count(conflict_views(conflicts@)) <= usize::MAX,
        decreases conflicts.len() - i,
    {
        proof {
            assert(conflict_views(conflicts@.take(i + 1)).drop_last() =~= conflict_views(conflicts@.take(i as int)));
            lemma_count_prefix(conflict_views(conflicts@), i + 1);
            assert(conflict_views(conflicts@).take(i + 1) =~= conflict_views(conflicts@.take(i + 1)));
        }
        total = total + conflicts[i].conflicts_with.len();
        i += 1;
    }
    assert(conflicts@.take(conflicts.len() as int) =~= conflicts@);
    total
}

/// The count of a prefix is at most the count of the whole.
proof fn lemma_count_prefix(v: Seq<FileConflictView>, n: int)
    requires
        0 <= n <= v.len(),
    ensures
        conflict_count(v.take(n)) <= conflict_count(v),
    decreases v.len() - n,
{
    if n < v.len() {
        lemma_count_prefix(v, n + 1);
        assert(v.take(n + 1).drop_last() =~= v.take(n));
    } else {
        assert(v.take(n) =~= v);
    }
}

} // verus!
