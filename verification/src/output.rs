//! The values the program prints: how output is asked for, the board and
//! plan layouts, the detail of one issue, and the texts that describe them.
//! Writing them out, as tables or JSON, is left to the program around the
//! library.

use vstd::prelude::*;

use crate::model::comment::Comment;
use crate::model::issue::{spec_display_id, Issue, IssueView, Status};
use crate::model::label::Label;
use crate::model::relation::{Relation, RelationKind};
use crate::text::{concat, concat3, count_decimal, decimal, decimal_text};

verus! {

/// How results are written: as readable text, as JSON envelopes, or one issue per line.
#[derive(Debug, Clone, Copy, PartialEq, Eq, Structural)]
pub enum OutputMode {
    Human,
    Json,
    Oneline,
}

/// Writes results as readable text: tables, or one line per issue.
#[derive(Debug)]
pub struct HumanPrinter {
    oneline: bool,
}

impl HumanPrinter {
    /// Whether issue lists are written one issue per line rather than as a table.
    pub closed spec fn spec_oneline(&self) -> bool {
        self.oneline
    }

    pub fn new() -> (r: HumanPrinter)
        ensures
            !r.spec_oneline(),
    {
        HumanPrinter { oneline: false }
    }

    pub fn oneline() -> (r: HumanPrinter)
        ensures
            r.spec_oneline(),
    {
        HumanPrinter { oneline: true }
    }

    pub fn is_oneline(&self) -> (r: bool)
        ensures
            r == self.spec_oneline(),
    {
        self.oneline
    }
}

impl Default for HumanPrinter {
    fn default() -> (r: HumanPrinter)
        ensures
            !r.spec_oneline(),
    {
        HumanPrinter::new()
    }
}

/// Writes results as JSON envelopes.
#[derive(Debug)]
pub struct JsonPrinter;

/// The printer a mode asks for: a readable one, one line per issue or not, or none
/// (JSON).
pub fn human_printer_for(mode: OutputMode) -> (r: Option<HumanPrinter>)
    ensures
        match mode {
            OutputMode::Human => r matches Some(p) && !p.spec_oneline(),
            OutputMode::Oneline => r matches Some(p) && p.spec_oneline(),
            OutputMode::Json => r is None,
        },
{
    match mode {
        OutputMode::Human => Some(HumanPrinter::new()),
        OutputMode::Json => None,
        OutputMode::Oneline => Some(HumanPrinter::oneline()),
    }
}

// ── Board ─────────────────────────────────────────────────────────────────────

pub open spec fn issue_views(v: Seq<Issue>) -> Seq<IssueView> {
    v.map_values(|i: Issue| i@)
}

/// The issues of `v` that have status `s`, in their order.
pub open spec fn with_status(v: Seq<IssueView>, s: Status) -> Seq<IssueView>
    decreases v.len(),
{
    if v.len() == 0 {
        seq![]
    } else if v.last().status == s {
        with_status(v.drop_last(), s).push(v.last())
    } else {
        with_status(v.drop_last(), s)
    }
}

/// The board shows every issue once, in the column of its status.
pub proof fn lemma_board_partition(v: Seq<IssueView>)
    ensures
        with_status(v, Status::Backlog).len() + with_status(v, Status::Todo).len() + with_status(v, Status::InProgress).len()
            + with_status(v, Status::Review).len() + with_status(v, Status::Done).len() == v.len(),
        forall|s: Status, i: int| 0 <= i < with_status(v, s).len() ==> #[trigger] with_status(v, s)[i].status == s,
    decreases v.len(),
{
    if v.len() > 0 {
        lemma_board_partition(v.drop_last());
        assert forall|s: Status, i: int| 0 <= i < with_status(v, s).len() implies #[trigger] with_status(v, s)[i].status
            == s by {
            if v.last().status == s && i == with_status(v, s).len() - 1 {
            } else {
                assert(with_status(v, s)[i] == with_status(v.drop_last(), s)[i]);
            }
        }
    }
}

/// Issues split by status, one column per status.
#[derive(Debug)]
pub struct BoardColumns {
    pub backlog: Vec<Issue>,
    pub todo: Vec<Issue>,
    pub in_progress: Vec<Issue>,
    pub review: Vec<Issue>,
    pub done: Vec<Issue>,
}

/// The issues of `issues` that have status `s`, in their order.
fn issues_with_status(issues: &Vec<Issue>, s: Status) -> (r: Vec<Issue>)
    ensures
        issue_views(r@) == with_status(issue_views(issues@), s),
{
    let mut out: Vec<Issue> = Vec::new();
    let mut i: usize = 0;
    while i < issues.len()
        invariant
            0 <= i <= issues.len(),
            issue_views(out@) == with_status(issue_views(issues@.take(i as int)), s),
        decreases issues.len() - i,
    {
        proof {
            assert(issue_views(issues@.take(i + 1)).drop_last() =~= issue_views(issues@.take(i as int)));
            assert(issue_views(issues@.take(i + 1)).last() == issues@[i as int]@);
        }
        if issues[i].status == s {
            let ghost before = out@;
            let c = issues[i].clone();
            out.push(c);
            assert(issue_views(out@) =~= issue_views(before).push(c@));
        }
        i += 1;
    }
    assert(issues@.take(issues.len() as int) =~= issues@);
    out
}

impl BoardColumns {
    /// Splits the issues by status; each column keeps the issues' order.
    pub fn from_issues(issues: &Vec<Issue>) -> (r: BoardColumns)
        ensures
            issue_views(r.backlog@) == with_status(issue_views(issues@), Status::Backlog),
            issue_views(r.todo@) == with_status(issue_views(issues@), Status::Todo),
            issue_views(r.in_progress@) == with_status(issue_views(issues@), Status::InProgress),
            issue_views(r.review@) == with_status(issue_views(issues@), Status::Review),
            issue_views(r.done@) == with_status(issue_views(issues@), Status::Done),
    {
        BoardColumns {
            backlog: issues_with_status(issues, Status::Backlog),
            todo: issues_with_status(issues, Status::Todo),
            in_progress: issues_with_status(issues, Status::InProgress),
            review: issues_with_status(issues, Status::Review),
            done: issues_with_status(issues, Status::Done),
        }
    }
}

// ── Plan and detail ───────────────────────────────────────────────────────────

/// One phase of an execution plan: issues that can be worked on together.
#[derive(Debug)]
pub struct Phase {
    pub number: usize,
    pub issues: Vec<Issue>,
}

/// Issues ordered into phases by their dependencies.
#[derive(Debug)]
pub struct ExecutionPlan {
    pub phases: Vec<Phase>,
    pub total_issues: usize,
    pub total_phases: usize,
    pub max_parallelism: usize,
}

/// Everything shown about one issue.
#[derive(Debug)]
pub struct IssueDetail {
    pub issue: Issue,
    pub sub_issues: Vec<Issue>,
    pub relations: Vec<Relation>,
    pub comments: Vec<Comment>,
    pub labels: Vec<Label>,
}

// ── Texts ─────────────────────────────────────────────────────────────────────

/// How a relation reads from the issue it was listed for: an arrow, the
/// relation in words, and the other issue.
pub open spec fn spec_direction(r: Relation) -> Seq<char> {
    match r.kind {
        RelationKind::Blocks => "→ blocks "@ + spec_display_id(r.to_id),
        RelationKind::BlockedBy => "← blocked by "@ + spec_display_id(r.from_id),
        RelationKind::DependsOn => "→ depends on "@ + spec_display_id(r.to_id),
        RelationKind::DependencyOf => "← dependency of "@ + spec_display_id(r.from_id),
        RelationKind::RelatesTo => "↔ relates to "@ + spec_display_id(r.to_id),
        RelationKind::Duplicates => "→ duplicates "@ + spec_display_id(r.to_id),
        RelationKind::DuplicateOf => "← duplicate of "@ + spec_display_id(r.from_id),
    }
}

pub fn relation_direction(r: &Relation) -> (t: String)
    ensures
        t@ == spec_direction(*r),
{
    let (words, other) = match r.kind {
        RelationKind::Blocks => ("→ blocks ", r.to_id),
        RelationKind::BlockedBy => ("← blocked by ", r.from_id),
        RelationKind::DependsOn => ("→ depends on ", r.to_id),
        RelationKind::DependencyOf => ("← dependency of ", r.from_id),
        RelationKind::RelatesTo => ("↔ relates to ", r.to_id),
        RelationKind::Duplicates => ("→ duplicates ", r.to_id),
        RelationKind::DuplicateOf => ("← duplicate of ", r.from_id),
    };
    let n = decimal(other);
    concat3(words, "BMO-", n.as_str())
}

/// A count and what is counted: `3 issue(s)`.
pub fn count_message(n: usize, noun: &str) -> (r: String)
    ensures
        r@ == decimal_text(n as int) + " "@ + noun@ + "(s)"@,
{
    let c = count_decimal(n);
    let head = concat3(c.as_str(), " ", noun);
    concat(head.as_str(), "(s)")
}

} // verus!
