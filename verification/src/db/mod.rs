//! The decisions taken around the reads and writes of the issue store: what
//! a write is given, what a claim answers, and how stored rows become values.
//! The store itself is a SQLite file that the program around the library
//! opens and queries.

pub mod query;
pub mod rows;

use std::collections::HashMap;

use vstd::prelude::*;

use crate::errors::BmoError;
use crate::hierarchy::{is_own_parent_error, own_parent_error};
use crate::db::rows::{stored_issue, RowView};
use crate::model::issue::{
    lemma_kind_label_round_trip, lemma_priority_label_round_trip, lemma_status_label_round_trip, Issue, IssueView,
    Kind, Priority, Status,
};
use crate::text::{clone_opt_string, concat3, decimal, decimal_text, owned};

verus! {

/// Input for creating a new issue.
#[derive(Debug)]
pub struct CreateIssueInput {
    pub parent_id: Option<i64>,
    pub title: String,
    pub description: String,
    pub status: Status,
    pub priority: Priority,
    pub kind: Kind,
    pub assignee: Option<String>,
    pub labels: Vec<String>,
    pub files: Vec<String>,
    pub actor: Option<String>,
}

/// Input for a partial update to an existing issue. `None` fields are left unchanged.
#[derive(Debug)]
pub struct UpdateIssueInput {
    pub title: Option<String>,
    pub description: Option<String>,
    pub status: Option<Status>,
    pub priority: Option<Priority>,
    pub kind: Option<Kind>,
    pub assignee: Option<String>,
    /// `Some(Some(id))` sets the parent, `Some(None)` clears it, `None` leaves it.
    pub parent_id: Option<Option<i64>>,
    pub actor: Option<String>,
}

impl UpdateIssueInput {
    /// The update that changes nothing.
    pub open spec fn spec_default() -> UpdateIssueInput {
        UpdateIssueInput {
            title: None,
            description: None,
            status: None,
            priority: None,
            kind: None,
            assignee: None,
            parent_id: None,
            actor: None,
        }
    }
}

impl Default for UpdateIssueInput {
    fn default() -> (r: UpdateIssueInput)
        ensures
            r == UpdateIssueInput::spec_default(),
    {
        UpdateIssueInput {
            title: None,
            description: None,
            status: None,
            priority: None,
            kind: None,
            assignee: None,
            parent_id: None,
            actor: None,
        }
    }
}

/// A column of the issues table that an update can set.
#[derive(Debug, Clone, Copy, PartialEq, Eq, Structural)]
pub enum IssueColumn {
    Title,
    Description,
    Status,
    Priority,
    Kind,
    Assignee,
    ParentId,
}

impl IssueColumn {
    pub open spec fn spec_name(self) -> Seq<char> {
        match self {
            IssueColumn::Title => "title"@,
            IssueColumn::Description => "description"@,
            IssueColumn::Status => "status"@,
            IssueColumn::Priority => "priority"@,
            IssueColumn::Kind => "kind"@,
            IssueColumn::Assignee => "assignee"@,
            IssueColumn::ParentId => "parent_id"@,
        }
    }

    /// The column's name in the store.
    pub fn name(self) -> (r: &'static str)
        ensures
            r@ == self.spec_name(),
    {
        match self {
            IssueColumn::Title => "title",
            IssueColumn::Description => "description",
            IssueColumn::Status => "status",
            IssueColumn::Priority => "priority",
            IssueColumn::Kind => "kind",
            IssueColumn::Assignee => "assignee",
            IssueColumn::ParentId => "parent_id",
        }
    }
}

/// A value written to a column: text, a number, or nothing.
#[derive(Debug)]
pub enum ColumnValue {
    Text(String),
    Int(i64),
    Null,
}

/// A column and the value an update writes to it.
#[derive(Debug)]
pub struct Assignment {
    pub column: IssueColumn,
    pub value: ColumnValue,
}

/// The value of an assignment, with text as a character sequence.
pub enum StoredValue {
    Text(Seq<char>),
    Int(i64),
    Null,
}

pub open spec fn stored(v: ColumnValue) -> StoredValue {
    match v {
        ColumnValue::Text(t) => StoredValue::Text(t@),
        ColumnValue::Int(n) => StoredValue::Int(n),
        ColumnValue::Null => StoredValue::Null,
    }
}

pub open spec fn assignment_views(v: Seq<Assignment>) -> Seq<(IssueColumn, StoredValue)> {
    v.map_values(|a: Assignment| (a.column, stored(a.value)))
}

/// One assignment when the field is given, none when it is not.
pub open spec fn text_part(column: IssueColumn, v: Option<Seq<char>>) -> Seq<(IssueColumn, StoredValue)> {
    match v {
        Some(t) => seq![(column, StoredValue::Text(t))],
        None => seq![],
    }
}

/// What an update writes, column by column, in the order title,
/// description, status, priority, kind, assignee, parent. Status, priority
/// and kind are written as their labels; a parent of `Some(None)` is cleared.
pub open spec fn spec_assignments(u: UpdateIssueInput) -> Seq<(IssueColumn, StoredValue)> {
    text_part(IssueColumn::Title, crate::model::issue::opt_text(u.title))
        + text_part(IssueColumn::Description, crate::model::issue::opt_text(u.description))
        + text_part(IssueColumn::Status, match u.status { Some(s) => Some(s.spec_label()), None => None })
        + text_part(IssueColumn::Priority, match u.priority { Some(p) => Some(p.spec_label()), None => None })
        + text_part(IssueColumn::Kind, match u.kind { Some(k) => Some(k.spec_label()), None => None })
        + text_part(IssueColumn::Assignee, crate::model::issue::opt_text(u.assignee))
        + match u.parent_id {
            Some(Some(p)) => seq![(IssueColumn::ParentId, StoredValue::Int(p))],
            Some(None) => seq![(IssueColumn::ParentId, StoredValue::Null)],
            None => seq![],
        }
}

fn push_text(out: &mut Vec<Assignment>, column: IssueColumn, v: Option<String>)
    ensures
        assignment_views(final(out)@) == assignment_views(old(out)@) + text_part(column, crate::model::issue::opt_text(v)),
{
    let ghost before = assignment_views(out@);
    match v {
        Some(t) => {
            let a = Assignment { column, value: ColumnValue::Text(t) };
            out.push(a);
            assert(assignment_views(out@) =~= before + text_part(column, crate::model::issue::opt_text(v)));
        },
        None => {
            assert(assignment_views(out@) =~= before + text_part(column, crate::model::issue::opt_text(v)));
        },
    }
}

impl UpdateIssueInput {
    /// The columns the update writes and what it writes to each; the
    /// update time is written besides.
    pub fn assignments(&self) -> (r: Vec<Assignment>)
        ensures
            assignment_views(r@) == spec_assignments(*self),
    {
        let mut out: Vec<Assignment> = Vec::new();
        assert(assignment_views(out@) =~= seq![]);
        push_text(&mut out, IssueColumn::Title, clone_opt_string(&self.title));
        push_text(&mut out, IssueColumn::Description, clone_opt_string(&self.description));
        push_text(&mut out, IssueColumn::Status, match self.status { Some(s) => Some(owned(s.label())), None => None });
        push_text(&mut out, IssueColumn::Priority, match self.priority { Some(p) => Some(owned(p.label())), None => None });
        push_text(&mut out, IssueColumn::Kind, match self.kind { Some(k) => Some(owned(k.label())), None => None });
        push_text(&mut out, IssueColumn::Assignee, clone_opt_string(&self.assignee));
        let ghost before = assignment_views(out@);
        match self.parent_id {
            Some(Some(p)) => out.push(Assignment { column: IssueColumn::ParentId, value: ColumnValue::Int(p) }),
            Some(None) => out.push(Assignment { column: IssueColumn::ParentId, value: ColumnValue::Null }),
            None => {},
        }
        assert(assignment_views(out@) =~= before + match self.parent_id {
            Some(Some(p)) => seq![(IssueColumn::ParentId, StoredValue::Int(p))],
            Some(None) => seq![(IssueColumn::ParentId, StoredValue::Null)],
            None => seq![],
        });
        out
    }
}

/// A stored row after one assignment: the column it names holds the value
/// it writes. Only the forms that an update writes change the row: text to
/// the text columns and the assignee, a number or nothing to the parent,
/// nothing to the assignee.
pub open spec fn apply_assignment(v: RowView, a: (IssueColumn, StoredValue)) -> RowView {
    match a {
        (IssueColumn::Title, StoredValue::Text(t)) => RowView { title: t, ..v },
        (IssueColumn::Description, StoredValue::Text(t)) => RowView { description: t, ..v },
        (IssueColumn::Status, StoredValue::Text(t)) => RowView { status: t, ..v },
        (IssueColumn::Priority, StoredValue::Text(t)) => RowView { priority: t, ..v },
        (IssueColumn::Kind, StoredValue::Text(t)) => RowView { kind: t, ..v },
        (IssueColumn::Assignee, StoredValue::Text(t)) => RowView { assignee: Some(t), ..v },
        (IssueColumn::Assignee, StoredValue::Null) => RowView { assignee: None, ..v },
        (IssueColumn::ParentId, StoredValue::Int(p)) => RowView { parent_id: Some(p), ..v },
        (IssueColumn::ParentId, StoredValue::Null) => RowView { parent_id: None, ..v },
        _ => v,
    }
}

/// A stored row after the assignments, in their order.
pub open spec fn apply_all(v: RowView, s: Seq<(IssueColumn, StoredValue)>) -> RowView
    decreases s.len(),
{
    if s.len() == 0 {
        v
    } else {
        apply_all(apply_assignment(v, s[0]), s.drop_first())
    }
}

/// The issue with the fields that the update gives replaced: a given title,
/// description, status, priority, kind or assignee replaces the old one, a
/// given parent (`Some(None)` for none) replaces the old parent, and every
/// other field stays.
pub open spec fn updated_issue(o: IssueView, u: UpdateIssueInput) -> IssueView {
    IssueView {
        title: match u.title {
            Some(t) => t@,
            None => o.title,
        },
        description: match u.description {
            Some(d) => d@,
            None => o.description,
        },
        status: match u.status {
            Some(st) => st,
            None => o.status,
        },
        priority: match u.priority {
            Some(p) => p,
            None => o.priority,
        },
        kind: match u.kind {
            Some(k) => k,
            None => o.kind,
        },
        assignee: match u.assignee {
            Some(a) => Some(a@),
            None => o.assignee,
        },
        parent_id: match u.parent_id {
            Some(p) => p,
            None => o.parent_id,
        },
        ..o
    }
}

proof fn lemma_apply_concat(v: RowView, a: Seq<(IssueColumn, StoredValue)>, b: Seq<(IssueColumn, StoredValue)>)
    ensures
        apply_all(v, a + b) == apply_all(apply_all(v, a), b),
    decreases a.len(),
{
    if a.len() == 0 {
        assert(a + b =~= b);
    } else {
        assert((a + b)[0] == a[0]);
        assert((a + b).drop_first() =~= a.drop_first() + b);
        lemma_apply_concat(apply_assignment(v, a[0]), a.drop_first(), b);
    }
}

proof fn lemma_apply_short(v: RowView, s: Seq<(IssueColumn, StoredValue)>)
    requires
        s.len() <= 1,
    ensures
        apply_all(v, s) == if s.len() == 0 {
            v
        } else {
            apply_assignment(v, s[0])
        },
{
    if s.len() == 1 {
        assert(s.drop_first() =~= seq![]);
        assert(apply_all(apply_assignment(v, s[0]), s.drop_first()) == apply_assignment(v, s[0]));
    }
}

/// An update sets exactly the fields it gives: a stored issue, once the
/// update's assignments are written to its row, reads back as the issue
/// with those fields replaced and every other field kept (the update time,
/// which the store writes besides, aside).
pub proof fn lemma_update_sets_given_fields(v: RowView, u: UpdateIssueInput)
    ensures
        stored_issue(apply_all(v, spec_assignments(u))) == updated_issue(stored_issue(v), u),
{
    let p1 = text_part(IssueColumn::Title, crate::model::issue::opt_text(u.title));
    let p2 = text_part(IssueColumn::Description, crate::model::issue::opt_text(u.description));
    let p3 = text_part(IssueColumn::Status, match u.status { Some(s) => Some(s.spec_label()), None => None });
    let p4 = text_part(IssueColumn::Priority, match u.priority { Some(p) => Some(p.spec_label()), None => None });
    let p5 = text_part(IssueColumn::Kind, match u.kind { Some(k) => Some(k.spec_label()), None => None });
    let p6 = text_part(IssueColumn::Assignee, crate::model::issue::opt_text(u.assignee));
    let p7: Seq<(IssueColumn, StoredValue)> = match u.parent_id {
        Some(Some(p)) => seq![(IssueColumn::ParentId, StoredValue::Int(p))],
        Some(None) => seq![(IssueColumn::ParentId, StoredValue::Null)],
        None => seq![],
    };
    assert(spec_assignments(u) == p1 + p2 + p3 + p4 + p5 + p6 + p7);
    lemma_apply_concat(v, p1 + p2 + p3 + p4 + p5 + p6, p7);
    lemma_apply_concat(v, p1 + p2 + p3 + p4 + p5, p6);
    lemma_apply_concat(v, p1 + p2 + p3 + p4, p5);
    lemma_apply_concat(v, p1 + p2 + p3, p4);
    lemma_apply_concat(v, p1 + p2, p3);
    lemma_apply_concat(v, p1, p2);
    let v1 = apply_all(v, p1);
    lemma_apply_short(v, p1);
    let v2 = apply_all(v1, p2);
    lemma_apply_short(v1, p2);
    let v3 = apply_all(v2, p3);
    lemma_apply_short(v2, p3);
    let v4 = apply_all(v3, p4);
    lemma_apply_short(v3, p4);
    let v5 = apply_all(v4, p5);
    lemma_apply_short(v4, p5);
    let v6 = apply_all(v5, p6);
    lemma_apply_short(v5, p6);
    let v7 = apply_all(v6, p7);
    lemma_apply_short(v6, p7);
    if let Some(st) = u.status {
        lemma_status_label_round_trip(st);
    }
    if let Some(p) = u.priority {
        lemma_priority_label_round_trip(p);
    }
    if let Some(k) = u.kind {
        lemma_kind_label_round_trip(k);
    }
    assert(stored_issue(v7) =~= updated_issue(stored_issue(v), u));
}

/// Closing or reopening an issue, or any move, changes its status and
/// nothing else (the update time, which the store writes besides, aside).
pub proof fn lemma_status_update_changes_only_status(v: RowView, st: Status)
    ensures
        stored_issue(apply_all(v, spec_assignments(crate::cli::issue::move_cmd::status_update(st)))) == (IssueView {
            status: st,
            ..stored_issue(v)
        }),
{
    lemma_update_sets_given_fields(v, crate::cli::issue::move_cmd::status_update(st));
}

/// Input for adding a comment to an issue.
#[derive(Debug)]
pub struct AddCommentInput {
    pub issue_id: i64,
    pub body: String,
    pub author: Option<String>,
}

/// Input for claiming an issue: setting it in progress, and its assignee when one is given.
#[derive(Debug)]
pub struct ClaimIssueInput {
    pub issue_id: i64,
    pub assignee: Option<String>,
}

/// The update a claim writes: the status set in progress, and the assignee
/// when one is given.
pub open spec fn claim_update(c: ClaimIssueInput) -> UpdateIssueInput {
    UpdateIssueInput { status: Some(Status::InProgress), assignee: c.assignee, ..UpdateIssueInput::spec_default() }
}

/// A claim writes to a row only while its stored status is not the
/// in-progress label.
pub open spec fn claim_applies(v: RowView) -> bool {
    v.status != Status::InProgress.spec_label()
}

impl ClaimIssueInput {
    /// The columns a claim writes and what it writes to each; the update
    /// time is written besides.
    pub fn assignments(&self) -> (r: Vec<Assignment>)
        ensures
            assignment_views(r@) == spec_assignments(claim_update(*self)),
    {
        let mut u = UpdateIssueInput::default();
        u.status = Some(Status::InProgress);
        u.assignee = clone_opt_string(&self.assignee);
        u.assignments()
    }
}

/// A claim that applies sets the issue in progress, and its assignee when
/// one is given, and changes nothing else (the update time aside).
pub proof fn lemma_claim_sets_in_progress(v: RowView, c: ClaimIssueInput)
    requires
        claim_applies(v),
    ensures
        stored_issue(apply_all(v, spec_assignments(claim_update(c)))) == (IssueView {
            status: Status::InProgress,
            assignee: match c.assignee {
                Some(a) => Some(a@),
                None => stored_issue(v).assignee,
            },
            ..stored_issue(v)
        }),
{
    lemma_update_sets_given_fields(v, claim_update(c));
}

/// The SET list of an update: the update time, then each column written.
pub open spec fn set_list(cols: Seq<IssueColumn>) -> Seq<char>
    decreases cols.len(),
{
    if cols.len() == 0 {
        "updated_at = ?"@
    } else {
        set_list(cols.drop_last()) + ", "@ + cols.last().spec_name() + " = ?"@
    }
}

/// The UPDATE of one issue that writes the columns `cols`; with `unless`,
/// only while the issue's stored status is not that one's label.
pub open spec fn spec_update_sql(cols: Seq<IssueColumn>, unless: Option<Status>) -> Seq<char> {
    "UPDATE issues SET "@ + set_list(cols) + " WHERE id = ?"@ + match unless {
        Some(_) => " AND status NOT IN (?)"@,
        None => seq![],
    }
}

/// The values bound to that UPDATE, in order: the time, the values written,
/// the issue's id, and the status label of `unless`.
pub open spec fn update_args(stamp: Seq<char>, a: Seq<(IssueColumn, StoredValue)>, id: i64, unless: Option<Status>) -> Seq<
    StoredValue,
> {
    seq![StoredValue::Text(stamp)] + a.map_values(|p: (IssueColumn, StoredValue)| p.1) + seq![StoredValue::Int(id)]
        + match unless {
        Some(s) => seq![StoredValue::Text(s.spec_label())],
        None => seq![],
    }
}

/// `, column = ?` for each column, first to last.
pub open spec fn set_items(cols: Seq<IssueColumn>) -> Seq<char>
    decreases cols.len(),
{
    if cols.len() == 0 {
        seq![]
    } else {
        ", "@ + cols[0].spec_name() + " = ?"@ + set_items(cols.drop_first())
    }
}

proof fn lemma_set_items_last(cols: Seq<IssueColumn>)
    requires
        cols.len() > 0,
    ensures
        set_items(cols) == set_items(cols.drop_last()) + ", "@ + cols.last().spec_name() + " = ?"@,
    decreases cols.len(),
{
    if cols.len() > 1 {
        let d = cols.drop_first();
        lemma_set_items_last(d);
        assert(d.drop_last() =~= cols.drop_last().drop_first());
        assert(cols.drop_last()[0] == cols[0]);
        assert(d.last() == cols.last());
        assert(", "@ + cols[0].spec_name() + " = ?"@ + (set_items(d.drop_last()) + ", "@ + d.last().spec_name() + " = ?"@)
            =~= ", "@ + cols[0].spec_name() + " = ?"@ + set_items(d.drop_last()) + ", "@ + d.last().spec_name() + " = ?"@);
    } else {
        assert(cols.drop_first() =~= Seq::<IssueColumn>::empty());
        assert(cols.drop_last() =~= Seq::<IssueColumn>::empty());
    }
}

proof fn lemma_set_list_items(cols: Seq<IssueColumn>)
    ensures
        set_list(cols) == "updated_at = ?"@ + set_items(cols),
    decreases cols.len(),
{
    if cols.len() > 0 {
        lemma_set_list_items(cols.drop_last());
        lemma_set_items_last(cols);
    }
}

/// The UPDATE of an issue sets the update time and then each column written,
/// in order, each to its bound value, on the row whose id is bound next,
/// and, for a guarded update, only while its status is not the last bound
/// value. The values bound are the time, the written values in order, the
/// id, and the guard's status label.
pub proof fn lemma_update_statement(stamp: Seq<char>, a: Seq<(IssueColumn, StoredValue)>, id: i64, unless: Option<Status>)
    ensures
        spec_update_sql(a.map_values(|p: (IssueColumn, StoredValue)| p.0), unless) == "UPDATE issues SET updated_at = ?"@
            + set_items(a.map_values(|p: (IssueColumn, StoredValue)| p.0)) + " WHERE id = ?"@ + match unless {
            Some(_) => " AND status NOT IN (?)"@,
            None => seq![],
        },
        update_args(stamp, a, id, unless).len() == a.len() + 2 + (if unless is Some { 1int } else { 0int }),
        update_args(stamp, a, id, unless)[0] == StoredValue::Text(stamp),
        forall|k: int| 0 <= k < a.len() ==> update_args(stamp, a, id, unless)[k + 1] == (#[trigger] a[k]).1,
        update_args(stamp, a, id, unless)[a.len() as int + 1] == StoredValue::Int(id),
        unless matches Some(st) ==> update_args(stamp, a, id, unless)[a.len() as int + 2] == StoredValue::Text(st.spec_label()),
        IssueColumn::Title.spec_name() == "title"@ && IssueColumn::Description.spec_name() == "description"@
            && IssueColumn::Status.spec_name() == "status"@ && IssueColumn::Priority.spec_name() == "priority"@
            && IssueColumn::Kind.spec_name() == "kind"@ && IssueColumn::Assignee.spec_name() == "assignee"@
            && IssueColumn::ParentId.spec_name() == "parent_id"@,
{
    let cols = a.map_values(|p: (IssueColumn, StoredValue)| p.0);
    lemma_set_list_items(cols);
    reveal_strlit("UPDATE issues SET updated_at = ?");
    reveal_strlit("UPDATE issues SET ");
    reveal_strlit("updated_at = ?");
    assert("UPDATE issues SET updated_at = ?"@ =~= "UPDATE issues SET "@ + "updated_at = ?"@);
    let args = update_args(stamp, a, id, unless);
    let vals = a.map_values(|p: (IssueColumn, StoredValue)| p.1);
    assert forall|k: int| 0 <= k < a.len() implies args[k + 1] == (#[trigger] a[k]).1 by {
        assert(vals[k] == a[k].1);
    }
}

fn copy_value(v: &ColumnValue) -> (r: ColumnValue)
    ensures
        stored(r) == stored(*v),
{
    match v {
        ColumnValue::Text(t) => ColumnValue::Text(t.clone()),
        ColumnValue::Int(n) => ColumnValue::Int(*n),
        ColumnValue::Null => ColumnValue::Null,
    }
}

/// The UPDATE that writes `assignments` and the time `stamp` to issue `id`,
/// with `unless` as its guard on the status, and the values bound to it.
pub fn update_statement(assignments: &Vec<Assignment>, stamp: String, id: i64, unless: Option<Status>) -> (r: (
    String,
    Vec<ColumnValue>,
))
    ensures
        r.0@ == spec_update_sql(assignment_views(assignments@).map_values(|p: (IssueColumn, StoredValue)| p.0), unless),
        r.1@.map_values(|v: ColumnValue| stored(v)) == update_args(stamp@, assignment_views(assignments@), id, unless),
{
    let ghost cols = assignment_views(assignments@).map_values(|p: (IssueColumn, StoredValue)| p.0);
    let ghost vals = assignment_views(assignments@).map_values(|p: (IssueColumn, StoredValue)| p.1);
    let mut sql = String::from_str("UPDATE issues SET updated_at = ?");
    proof {
        reveal_strlit("UPDATE issues SET updated_at = ?");
        reveal_strlit("UPDATE issues SET ");
        reveal_strlit("updated_at = ?");
        assert("UPDATE issues SET updated_at = ?"@ =~= "UPDATE issues SET "@ + set_list(cols.take(0)));
    }
    let mut args: Vec<ColumnValue> = Vec::new();
    args.push(ColumnValue::Text(stamp));
    let ghost first = stored(args@[0]);
    let mut i: usize = 0;
    while i < assignments.len()
        invariant
            i <= assignments.len(),
            cols == assignment_views(assignments@).map_values(|p: (IssueColumn, StoredValue)| p.0),
            vals == assignment_views(assignments@).map_values(|p: (IssueColumn, StoredValue)| p.1),
            sql@ == "UPDATE issues SET "@ + set_list(cols.take(i as int)),
            args@.map_values(|v: ColumnValue| stored(v)) == seq![first] + vals.take(i as int),
        decreases assignments.len() - i,
    {
        let a = &assignments[i];
        sql.append(", ");
        sql.append(a.column.name());
        sql.append(" = ?");
        let ghost before = args@.map_values(|v: ColumnValue| stored(v));
        args.push(copy_value(&a.value));
        proof {
            assert(cols.take(i + 1).drop_last() =~= cols.take(i as int));
            assert(cols.take(i + 1).last() == a.column);
            assert(args@.map_values(|v: ColumnValue| stored(v)) =~= before + seq![stored(a.value)]);
            assert(vals.take(i + 1) =~= vals.take(i as int) + seq![stored(a.value)]);
        }
        i += 1;
    }
    assert(cols.take(assignments.len() as int) =~= cols);
    assert(vals.take(assignments.len() as int) =~= vals);
    sql.append(" WHERE id = ?");
    args.push(ColumnValue::Int(id));
    let ghost mid = args@.map_values(|v: ColumnValue| stored(v));
    match unless {
        Some(s) => {
            sql.append(" AND status NOT IN (?)");
            args.push(ColumnValue::Text(String::from_str(s.label())));
        },
        None => {},
    }
    assert(args@.map_values(|v: ColumnValue| stored(v)) =~= update_args(stamp@, assignment_views(assignments@), id, unless));
    (sql, args)
}

/// Aggregate issue counts, by the stored text of each status, priority and kind.
#[derive(Debug)]
pub struct Stats {
    pub total: u64,
    pub by_status: HashMap<String, u64>,
    pub by_priority: HashMap<String, u64>,
    pub by_kind: HashMap<String, u64>,
}

/// The error texts of a claim, each naming the issue by its number.
pub open spec fn claim_missing_after_update(id: i64) -> Seq<char> {
    "unexpected state: issue "@ + decimal_text(id as int) + " missing after successful UPDATE"@
}

pub open spec fn claim_not_found(id: i64) -> Seq<char> {
    "issue "@ + decimal_text(id as int) + " not found"@
}

pub open spec fn claim_conflict(id: i64) -> Seq<char> {
    "issue "@ + decimal_text(id as int) + " is already in-progress"@
}

pub open spec fn claim_not_updated(id: i64) -> Seq<char> {
    "unexpected state: issue "@ + decimal_text(id as int) + " was not updated but status is not in-progress"@
}

/// What a claim answers. The claim is one conditional update, which sets the
/// issue in progress unless it already is; `rows_affected` is the number of
/// rows it changed and `current` the issue read back after it. One changed
/// row is a successful claim. No change means the issue is missing, or is
/// already in progress: the claim conflicts with the one who holds it.
pub fn claim_outcome(issue_id: i64, rows_affected: usize, current: Option<Issue>) -> (r: Result<Issue, BmoError>)
    ensures
        rows_affected == 1 ==> match current {
            Some(i) => r == Ok::<Issue, BmoError>(i),
            None => r matches Err(BmoError::Db(m)) && m@ == claim_missing_after_update(issue_id),
        },
        rows_affected != 1 ==> match current {
            None => r matches Err(BmoError::NotFound(m)) && m@ == claim_not_found(issue_id),
            Some(i) => if i.status == Status::InProgress {
                r matches Err(BmoError::Conflict(m)) && m@ == claim_conflict(issue_id)
            } else {
                r matches Err(BmoError::Db(m)) && m@ == claim_not_updated(issue_id)
            },
        },
{
    let n = decimal(issue_id);
    if rows_affected == 1 {
        return match current {
            Some(issue) => Ok(issue),
            None => Err(
                BmoError::Db(concat3("unexpected state: issue ", n.as_str(), " missing after successful UPDATE")),
            ),
        };
    }
    match current {
        None => Err(BmoError::NotFound(concat3("issue ", n.as_str(), " not found"))),
        Some(issue) => if issue.status == Status::InProgress {
            Err(BmoError::Conflict(concat3("issue ", n.as_str(), " is already in-progress")))
        } else {
            Err(
                BmoError::Db(
                    concat3(
                        "unexpected state: issue ",
                        n.as_str(),
                        " was not updated but status is not in-progress",
                    ),
                ),
            )
        },
    }
}

/// The check made once a new issue has its id: it may not be its own parent.
/// (No existing issue can have the new id as an ancestor, so no longer cycle
/// can arise at creation.)
pub fn check_new_issue_parent(parent_id: Option<i64>, new_id: i64) -> (r: Result<(), BmoError>)
    ensures
        r is Err <==> parent_id == Some(new_id),
        r matches Err(e) ==> is_own_parent_error(e),
{
    match parent_id {
        Some(p) => if p == new_id {
            Err(own_parent_error())
        } else {
            Ok(())
        },
        None => Ok(()),
    }
}

/// The statuses a truncation deletes; an empty list deletes nothing and needs
/// no statement at all.
pub fn truncation_needed(statuses: &[Status]) -> (r: bool)
    ensures
        r == (statuses@.len() > 0),
{
    statuses.len() > 0
}

} // verus!
