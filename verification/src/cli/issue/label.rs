//! `bmo issue label`.

use vstd::prelude::*;

verus! {

/// The label subcommands.
#[derive(Debug)]
pub enum LabelCommands {
    /// Add a label to an issue.
    Add(AddArgs),
    /// Remove a label from an issue.
    Rm(RmArgs),
    /// List the labels on an issue.
    List(ListArgs),
    /// Delete a label everywhere.
    Delete(DeleteArgs),
}

/// The arguments of `bmo issue label add`: the issue, the label, and its
/// colour when the label is new.
#[derive(Debug)]
pub struct AddArgs {
    pub id: String,
    pub name: String,
    pub color: Option<String>,
}

/// The arguments of `bmo issue label rm`.
#[derive(Debug)]
pub struct RmArgs {
    pub id: String,
    pub name: String,
}

/// The arguments of `bmo issue label list`.
#[derive(Debug)]
pub struct ListArgs {
    pub id: String,
}

/// The arguments of `bmo issue label delete`.
#[derive(Debug)]
pub struct DeleteArgs {
    pub name: String,
}

} // verus!
