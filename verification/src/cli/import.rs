//! `bmo import`: re-creating the issues and comments of an export.

use vstd::prelude::*;

use crate::db::{AddCommentInput, CreateIssueInput};
use crate::model::comment::Comment;
use crate::model::issue::Issue;
use crate::text::{clone_opt_string, clone_strings, concat, concat3, count_decimal, decimal_text, owned};

verus! {

/// The arguments of `bmo import`: the export file to read.
#[derive(Debug)]
pub struct ImportArgs {
    pub file: String,
}

/// The input that re-creates an exported issue, recorded as done by `import`.
pub fn issue_import_input(issue: &Issue) -> (r: CreateIssueInput)
    ensures
        r.parent_id == issue.parent_id,
        r.title@ == issue.title@,
        r.description@ == issue.description@,
        r.status == issue.status,
        r.priority == issue.priority,
        r.kind == issue.kind,
        r.assignee == issue.assignee,
        r.labels@ == issue.labels@,
        r.files@ == issue.files@,
        r.actor matches Some(a) && a@ == "import"@,
{
    CreateIssueInput {
        parent_id: issue.parent_id,
        title: issue.title.clone(),
        description: issue.description.clone(),
        status: issue.status,
        priority: issue.priority,
        kind: issue.kind,
        assignee: clone_opt_string(&issue.assignee),
        labels: clone_strings(&issue.labels),
        files: clone_strings(&issue.files),
        actor: Some(owned("import")),
    }
}

/// The input that re-creates an exported comment on its issue.
pub fn comment_import_input(comment: &Comment) -> (r: AddCommentInput)
    ensures
        r.issue_id == comment.issue_id,
        r.body@ == comment.body@,
        r.author == comment.author,
{
    AddCommentInput {
        issue_id: comment.issue_id,
        body: comment.body.clone(),
        author: clone_opt_string(&comment.author),
    }
}

/// What an import reports: `Imported 3 issue(s) and 2 comment(s)`.
pub fn imported_message(issues: usize, comments: usize) -> (r: String)
    ensures
        r@ == "Imported "@ + decimal_text(issues as int) + " issue(s) and "@ + decimal_text(comments as int)
            + " comment(s)"@,
{
    let i = count_decimal(issues);
    let c = count_decimal(comments);
    let head = concat3("Imported ", i.as_str(), " issue(s) and ");
    concat3(head.as_str(), c.as_str(), " comment(s)")
}

} // verus!
