//! The `bmo issue` subcommands.

pub mod claim;
pub mod close;
pub mod comment;
pub mod create;
pub mod delete;
pub mod edit;
pub mod file_cmd;
pub mod graph;
pub mod label;
pub mod link;
pub mod list;
pub mod log_cmd;
pub mod move_cmd;
pub mod reopen;
pub mod show;

use vstd::prelude::*;

verus! {

/// The subcommands of `bmo issue`.
#[derive(Debug)]
pub enum IssueCommands {
    Claim(claim::ClaimArgs),
    Create(create::CreateArgs),
    List(list::ListArgs),
    Show(show::ShowArgs),
    Edit(edit::EditArgs),
    Move(move_cmd::MoveArgs),
    Close(close::CloseArgs),
    Reopen(reopen::ReopenArgs),
    Delete(delete::DeleteArgs),
    Log(log_cmd::LogArgs),
    Graph(graph::GraphArgs),
    Comment(comment::CommentCommands),
    Label(label::LabelCommands),
    Link(link::LinkCommands),
    File(file_cmd::FileCommands),
}

} // verus!
