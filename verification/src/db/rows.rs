//! How the rows the store returns become values.

use std::collections::HashMap;

use vstd::prelude::*;

use crate::db::{stored, ColumnValue, StoredValue};
use crate::model::conflict::{ConflictingIssue, ConflictingIssueView, FileConflict, FileConflictView};
use crate::model::issue::{Issue, IssueView, Kind, Priority, Status};
use crate::model::relation::{Relation, RelationKind};
use crate::text::{dashes_for_underscores, lower_text, lowercase_of, owned, str_eq, texts};

verus! {

// ── Issues ────────────────────────────────────────────────────────────────────

/// The columns of one stored issue, as the store returns them: status,
/// priority and kind as the text under which they were stored.
#[derive(Debug)]
pub struct IssueRow {
    pub id: i64,
    pub parent_id: Option<i64>,
    pub title: String,
    pub description: String,
    pub status: String,
    pub priority: String,
    pub kind: String,
    pub assignee: Option<String>,
    pub created_at: String,
    pub updated_at: String,
}

/// The status a stored text names; text that names none reads as `backlog`.
pub open spec fn stored_status(s: Seq<char>) -> Status {
    match Status::from_lower(lower_text(s)) {
        Some(st) => st,
        None => Status::Backlog,
    }
}

/// The priority a stored text names; text that names none reads as unset.
pub open spec fn stored_priority(s: Seq<char>) -> Priority {
    match Priority::from_lower(lower_text(s)) {
        Some(p) => p,
        None => Priority::Unset,
    }
}

/// The kind a stored text names; text that names none reads as `task`.
pub open spec fn stored_kind(s: Seq<char>) -> Kind {
    match Kind::from_lower(lower_text(s)) {
        Some(k) => k,
        None => Kind::Task,
    }
}

/// The columns of one stored issue, text as character sequences.
pub struct RowView {
    pub id: i64,
    pub parent_id: Option<i64>,
    pub title: Seq<char>,
    pub description: Seq<char>,
    pub status: Seq<char>,
    pub priority: Seq<char>,
    pub kind: Seq<char>,
    pub assignee: Option<Seq<char>>,
    pub created_at: Seq<char>,
    pub updated_at: Seq<char>,
}

impl View for IssueRow {
    type V = RowView;

    open spec fn view(&self) -> RowView {
        RowView {
            id: self.id,
            parent_id: self.parent_id,
            title: self.title@,
            description: self.description@,
            status: self.status@,
            priority: self.priority@,
            kind: self.kind@,
            assignee: crate::model::issue::opt_text(self.assignee),
            created_at: self.created_at@,
            updated_at: self.updated_at@,
        }
    }
}

/// The issue that stored columns hold, before its labels and files are attached.
pub open spec fn stored_issue(v: RowView) -> IssueView {
    IssueView {
        id: v.id,
        parent_id: v.parent_id,
        title: v.title,
        description: v.description,
        status: stored_status(v.status),
        priority: stored_priority(v.priority),
        kind: stored_kind(v.kind),
        assignee: v.assignee,
        labels: seq![],
        files: seq![],
        created_at: v.created_at,
        updated_at: v.updated_at,
    }
}

/// The issue a row holds, before its labels and files are attached.
pub open spec fn row_issue(row: IssueRow) -> IssueView {
    stored_issue(row@)
}

/// Reads an issue from its row. A stored status, priority or kind that no
/// longer names a value reads as the default one rather than failing the read.
pub fn issue_from_row(row: IssueRow) -> (r: Issue)
    ensures
        r@ == row_issue(row),
{
    let status = match Status::parse(row.status.as_str()) {
        Ok(s) => s,
        Err(_) => Status::Backlog,
    };
    let priority = match Priority::parse(row.priority.as_str()) {
        Ok(p) => p,
        Err(_) => Priority::Unset,
    };
    let kind = match Kind::parse(row.kind.as_str()) {
        Ok(k) => k,
        Err(_) => Kind::Task,
    };
    let r = Issue {
        id: row.id,
        parent_id: row.parent_id,
        title: row.title,
        description: row.description,
        status,
        priority,
        kind,
        assignee: row.assignee,
        labels: Vec::new(),
        files: Vec::new(),
        created_at: row.created_at,
        updated_at: row.updated_at,
    };
    assert(r@.labels =~= seq![]);
    assert(r@.files =~= seq![]);
    r
}

// ── Relations ─────────────────────────────────────────────────────────────────

/// The relation kind a stored text names; text that names none reads as `relates-to`.
pub open spec fn stored_relation_kind(s: Seq<char>) -> RelationKind {
    match RelationKind::from_normalized(dashes_for_underscores(lowercase_of(s))) {
        Some(k) => k,
        None => RelationKind::RelatesTo,
    }
}

/// Reads a relation from its stored columns.
pub fn relation_from_row(id: i64, from_id: i64, to_id: i64, kind: &str) -> (r: Relation)
    ensures
        r == (Relation { id, from_id, to_id, kind: stored_relation_kind(kind@) }),
{
    let kind = match RelationKind::parse(kind) {
        Ok(k) => k,
        Err(_) => RelationKind::RelatesTo,
    };
    Relation { id, from_id, to_id, kind }
}

// ── File conflicts ────────────────────────────────────────────────────────────

/// One row of the conflict query: a file of the issue asked about, and
/// another in-progress issue that has the same file. The query returns them
/// ordered by file, then by issue.
#[derive(Debug)]
pub struct ConflictRow {
    pub file: String,
    pub id: i64,
    pub title: String,
    pub status: String,
}

/// The conflict query for an issue: for each file of that issue, every other
/// issue that has the same file and whose stored status is the bound label
/// (in progress), ordered by file, then by issue id. The label and then the
/// issue's id are bound.
pub open spec fn spec_conflict_sql() -> Seq<char> {
    "SELECT f1.path, i.id, i.title, i.status FROM issue_files f1 JOIN issue_files f2 ON f2.path = f1.path AND f2.issue_id != f1.issue_id JOIN issues i ON i.id = f2.issue_id AND i.status = ? WHERE f1.issue_id = ? ORDER BY f1.path, i.id"@
}

/// The conflict query for `issue_id` and the values bound to it, in order.
pub fn conflict_sql(issue_id: i64) -> (r: (String, Vec<ColumnValue>))
    ensures
        r.0@ == spec_conflict_sql(),
        r.1@.map_values(|a: ColumnValue| stored(a)) == seq![
            StoredValue::Text(Status::InProgress.spec_label()),
            StoredValue::Int(issue_id),
        ],
{
    let sql = owned(
        "SELECT f1.path, i.id, i.title, i.status FROM issue_files f1 JOIN issue_files f2 ON f2.path = f1.path AND f2.issue_id != f1.issue_id JOIN issues i ON i.id = f2.issue_id AND i.status = ? WHERE f1.issue_id = ? ORDER BY f1.path, i.id",
    );
    let mut args: Vec<ColumnValue> = Vec::new();
    args.push(ColumnValue::Text(owned(Status::InProgress.label())));
    args.push(ColumnValue::Int(issue_id));
    assert(args@.map_values(|a: ColumnValue| stored(a)) =~= seq![
        StoredValue::Text(Status::InProgress.spec_label()),
        StoredValue::Int(issue_id),
    ]);
    (sql, args)
}

/// What the conflict query asks, clause by clause: the file and the other
/// issue's id, title and status; from the files of one issue (`f1`), joined
/// with the files of the same path that belong to a different issue (`f2`),
/// joined with that issue (`i`) when its status is the first bound value;
/// where `f1` belongs to the issue given as the second bound value; by file,
/// then by issue id. The issue asked about is never its own conflict.
pub proof fn lemma_conflict_query(issue_id: i64)
    ensures
        spec_conflict_sql() == "SELECT f1.path, i.id, i.title, i.status"@ + " FROM issue_files f1"@
            + " JOIN issue_files f2 ON f2.path = f1.path AND f2.issue_id != f1.issue_id"@
            + " JOIN issues i ON i.id = f2.issue_id AND i.status = ?"@ + " WHERE f1.issue_id = ?"@
            + " ORDER BY f1.path, i.id"@,
{
    reveal_strlit(
        "SELECT f1.path, i.id, i.title, i.status FROM issue_files f1 JOIN issue_files f2 ON f2.path = f1.path AND f2.issue_id != f1.issue_id JOIN issues i ON i.id = f2.issue_id AND i.status = ? WHERE f1.issue_id = ? ORDER BY f1.path, i.id",
    );
    reveal_strlit("SELECT f1.path, i.id, i.title, i.status");
    reveal_strlit(" FROM issue_files f1");
    reveal_strlit(" JOIN issue_files f2 ON f2.path = f1.path AND f2.issue_id != f1.issue_id");
    reveal_strlit(" JOIN issues i ON i.id = f2.issue_id AND i.status = ?");
    reveal_strlit(" WHERE f1.issue_id = ?");
    reveal_strlit(" ORDER BY f1.path, i.id");
    assert(spec_conflict_sql() =~= "SELECT f1.path, i.id, i.title, i.status"@ + " FROM issue_files f1"@
        + " JOIN issue_files f2 ON f2.path = f1.path AND f2.issue_id != f1.issue_id"@
        + " JOIN issues i ON i.id = f2.issue_id AND i.status = ?"@ + " WHERE f1.issue_id = ?"@
        + " ORDER BY f1.path, i.id"@);
}

/// The status a conflict row reports; text that names none reads as `in-progress`.
pub open spec fn conflict_status(s: Seq<char>) -> Status {
    match Status::from_lower(lower_text(s)) {
        Some(st) => st,
        None => Status::InProgress,
    }
}

/// The conflicting issue a row names, its status given by its label.
pub open spec fn conflict_entry(row: ConflictRow) -> ConflictingIssueView {
    ConflictingIssueView { id: row.id, title: row.title@, status: conflict_status(row.status@).spec_label() }
}

pub open spec fn conflict_views(v: Seq<FileConflict>) -> Seq<FileConflictView> {
    v.map_values(|g: FileConflict| g@)
}

/// Rows grouped into conflicts: each run of consecutive rows with the same
/// file becomes one conflict, which lists the run's issues in order.
pub open spec fn grouped(rows: Seq<ConflictRow>) -> Seq<FileConflictView>
    decreases rows.len(),
{
    if rows.len() == 0 {
        seq![]
    } else {
        let prev = grouped(rows.drop_last());
        let row = rows.last();
        if prev.len() > 0 && prev.last().file == row.file@ {
            prev.drop_last().push(
                FileConflictView {
                    file: prev.last().file,
                    conflicts_with: prev.last().conflicts_with.push(conflict_entry(row)),
                },
            )
        } else {
            prev.push(FileConflictView { file: row.file@, conflicts_with: seq![conflict_entry(row)] })
        }
    }
}

/// The number of issue-and-file pairs in a list of conflicts.
pub open spec fn conflict_count(v: Seq<FileConflictView>) -> nat
    decreases v.len(),
{
    if v.len() == 0 {
        0
    } else {
        conflict_count(v.drop_last()) + v.last().conflicts_with.len()
    }
}

/// Grouping loses and adds nothing: the conflicts hold one entry per row,
/// and two conflicts in a row never name the same file.
pub proof fn lemma_grouped_rows(rows: Seq<ConflictRow>)
    ensures
        conflict_count(grouped(rows)) == rows.len(),
        forall|i: int| 0 <= i < grouped(rows).len() - 1 ==> #[trigger] grouped(rows)[i].file != grouped(rows)[i + 1].file,
        forall|i: int| 0 <= i < grouped(rows).len() ==> #[trigger] grouped(rows)[i].conflicts_with.len() > 0,
    decreases rows.len(),
{
    if rows.len() > 0 {
        let prev = grouped(rows.drop_last());
        lemma_grouped_rows(rows.drop_last());
        let g = grouped(rows);
        if prev.len() > 0 && prev.last().file == rows.last().file@ {
            assert(g.drop_last() =~= prev.drop_last());
            assert(conflict_count(prev) == conflict_count(prev.drop_last()) + prev.last().conflicts_with.len());
            assert forall|i: int| 0 <= i < g.len() - 1 implies #[trigger] g[i].file != g[i + 1].file by {
                if i + 1 == g.len() - 1 {
                    assert(g[i] == prev[i]);
                    assert(prev[i].file != prev[i + 1].file);
                } else {
                    assert(g[i] == prev[i] && g[i + 1] == prev[i + 1]);
                }
            }
            assert forall|i: int| 0 <= i < g.len() implies #[trigger] g[i].conflicts_with.len() > 0 by {
                if i < g.len() - 1 {
                    assert(g[i] == prev[i]);
                    assert(prev[i].conflicts_with.len() > 0);
                } else {
                    assert(g[i] == g.last());
                    assert(g.last().conflicts_with.len() > 0);
                }
            }
        } else {
            assert(g.drop_last() =~= prev);
            assert forall|i: int| 0 <= i < g.len() - 1 implies #[trigger] g[i].file != g[i + 1].file by {
                if i + 1 == g.len() - 1 {
                    assert(g[i] == prev.last());
                } else {
                    assert(g[i] == prev[i] && g[i + 1] == prev[i + 1]);
                }
            }
            assert forall|i: int| 0 <= i < g.len() implies #[trigger] g[i].conflicts_with.len() > 0 by {
                if i < g.len() - 1 {
                    assert(g[i] == prev[i]);
                    assert(prev[i].conflicts_with.len() > 0);
                } else {
                    assert(g[i] == g.last());
                    assert(g.last().conflicts_with.len() > 0);
                }
            }
        }
    }
}

/// Rows of the same file stand together.
pub open spec fn files_adjacent(rows: Seq<ConflictRow>) -> bool {
    forall|i: int, j: int, k: int|
        #![trigger rows[i], rows[j], rows[k]]
        0 <= i < j < k < rows.len() && rows[i].file@ == rows[k].file@ ==> rows[j].file@ == rows[i].file@
}

/// Among the rows of one file, the issue ids ascend.
pub open spec fn ids_ascend_per_file(rows: Seq<ConflictRow>) -> bool {
    forall|i: int, j: int|
        #![trigger rows[i], rows[j]]
        0 <= i < j < rows.len() && rows[i].file@ == rows[j].file@ ==> rows[i].id < rows[j].id
}

proof fn lemma_grouped_shape(rows: Seq<ConflictRow>)
    requires
        files_adjacent(rows),
        ids_ascend_per_file(rows),
    ensures
        rows.len() > 0 ==> {
            &&& grouped(rows).len() > 0
            &&& grouped(rows).last().file == rows.last().file@
            &&& grouped(rows).last().conflicts_with.len() > 0
            &&& grouped(rows).last().conflicts_with.last().id == rows.last().id
        },
        forall|i: int|
            #![trigger grouped(rows)[i]]
            0 <= i < grouped(rows).len() ==> exists|m: int| 0 <= m < rows.len() && #[trigger] rows[m].file@
                == grouped(rows)[i].file,
        forall|i: int, j: int|
            0 <= i < j < grouped(rows).len() ==> #[trigger] grouped(rows)[i].file != #[trigger] grouped(rows)[j].file,
        forall|i: int, a: int, b: int|
            #![trigger grouped(rows)[i].conflicts_with[a], grouped(rows)[i].conflicts_with[b]]
            0 <= i < grouped(rows).len() && 0 <= a < b < grouped(rows)[i].conflicts_with.len()
                ==> grouped(rows)[i].conflicts_with[a].id < grouped(rows)[i].conflicts_with[b].id,
    decreases rows.len(),
{
    if rows.len() > 0 {
        let n = rows.len() as int;
        let init = rows.drop_last();
        assert forall|i: int, j: int, k: int|
            #![trigger init[i], init[j], init[k]]
            0 <= i < j < k < init.len() && init[i].file@ == init[k].file@ implies init[j].file@ == init[i].file@ by {
            assert(init[i] == rows[i] && init[j] == rows[j] && init[k] == rows[k]);
        }
        assert forall|i: int, j: int|
            #![trigger init[i], init[j]]
            0 <= i < j < init.len() && init[i].file@ == init[j].file@ implies init[i].id < init[j].id by {
            assert(init[i] == rows[i] && init[j] == rows[j]);
        }
        lemma_grouped_shape(init);
        lemma_grouped_rows(init);
        let prev = grouped(init);
        let row = rows.last();
        let g = grouped(rows);
        if prev.len() > 0 && prev.last().file == row.file@ {
            let last = prev.last();
            let cw = last.conflicts_with.push(conflict_entry(row));
            assert(g == prev.drop_last().push(FileConflictView { file: last.file, conflicts_with: cw }));
            assert(init.len() > 0);
            assert(init.last() == rows[n - 2]);
            assert(rows[n - 2].file@ == rows[n - 1].file@);
            assert(rows[n - 2].id < rows[n - 1].id);
            assert forall|i: int|
                #![trigger g[i]]
                0 <= i < g.len() implies exists|m: int| 0 <= m < rows.len() && #[trigger] rows[m].file@
                    == g[i].file by {
                assert(g[i].file == prev[i].file);
                let m = choose|m: int| 0 <= m < init.len() && #[trigger] init[m].file@ == prev[i].file;
                assert(rows[m] == init[m]);
            }
            assert forall|i: int, j: int| 0 <= i < j < g.len() implies #[trigger] g[i].file != #[trigger] g[j].file by {
                assert(g[i].file == prev[i].file && g[j].file == prev[j].file);
            }
            assert forall|i: int, a: int, b: int|
                #![trigger g[i].conflicts_with[a], g[i].conflicts_with[b]]
                0 <= i < g.len() && 0 <= a < b < g[i].conflicts_with.len() implies g[i].conflicts_with[a].id
                    < g[i].conflicts_with[b].id by {
                if i < g.len() - 1 {
                    assert(g[i] == prev[i]);
                } else {
                    let k = last.conflicts_with.len() - 1;
                    assert(last.conflicts_with[k].id == rows[n - 2].id);
                    if b < last.conflicts_with.len() {
                        assert(cw[a] == last.conflicts_with[a] && cw[b] == last.conflicts_with[b]);
                    } else {
                        assert(cw[a] == last.conflicts_with[a]);
                        if a < k {
                            assert(last.conflicts_with[a].id < last.conflicts_with[k].id);
                        }
                    }
                }
            }
        } else {
            let entry = FileConflictView { file: row.file@, conflicts_with: seq![conflict_entry(row)] };
            assert(g == prev.push(entry));
            assert forall|i: int|
                #![trigger g[i]]
                0 <= i < g.len() implies exists|m: int| 0 <= m < rows.len() && #[trigger] rows[m].file@
                    == g[i].file by {
                if i < prev.len() {
                    assert(g[i] == prev[i]);
                    let m = choose|m: int| 0 <= m < init.len() && #[trigger] init[m].file@ == prev[i].file;
                    assert(rows[m] == init[m]);
                } else {
                    assert(rows[n - 1].file@ == g[i].file);
                }
            }
            assert forall|i: int, j: int| 0 <= i < j < g.len() implies #[trigger] g[i].file != #[trigger] g[j].file by {
                if j < prev.len() {
                    assert(g[i] == prev[i] && g[j] == prev[j]);
                } else {
                    assert(g[i] == prev[i]);
                    if prev[i].file == row.file@ {
                        let m = choose|m: int| 0 <= m < init.len() && #[trigger] init[m].file@ == prev[i].file;
                        assert(init[m] == rows[m]);
                        assert(init.last() == rows[n - 2]);
                        assert(prev.last().file == rows[n - 2].file@);
                        if m < n - 2 {
                            assert(rows[m].file@ == rows[n - 1].file@);
                            assert(rows[n - 2].file@ == rows[m].file@);
                        }
                    }
                }
            }
            assert forall|i: int, a: int, b: int|
                #![trigger g[i].conflicts_with[a], g[i].conflicts_with[b]]
                0 <= i < g.len() && 0 <= a < b < g[i].conflicts_with.len() implies g[i].conflicts_with[a].id
                    < g[i].conflicts_with[b].id by {
                if i < prev.len() {
                    assert(g[i] == prev[i]);
                }
            }
        }
    }
}

/// Rows in the order the conflict query returns them (each file's rows
/// together, and among them the issue ids ascending) group into a listing
/// that names each file once, lists each file's issues by ascending id, and
/// holds one entry per row.
pub proof fn lemma_conflict_listing(rows: Seq<ConflictRow>)
    requires
        files_adjacent(rows),
        ids_ascend_per_file(rows),
    ensures
        forall|i: int, j: int|
            0 <= i < j < grouped(rows).len() ==> #[trigger] grouped(rows)[i].file != #[trigger] grouped(rows)[j].file,
        forall|i: int, a: int, b: int|
            #![trigger grouped(rows)[i].conflicts_with[a], grouped(rows)[i].conflicts_with[b]]
            0 <= i < grouped(rows).len() && 0 <= a < b < grouped(rows)[i].conflicts_with.len()
                ==> grouped(rows)[i].conflicts_with[a].id < grouped(rows)[i].conflicts_with[b].id,
        forall|i: int| 0 <= i < grouped(rows).len() ==> #[trigger] grouped(rows)[i].conflicts_with.len() > 0,
        conflict_count(grouped(rows)) == rows.len(),
{
    lemma_grouped_shape(rows);
    lemma_grouped_rows(rows);
}

/// Groups the rows of the conflict query by file.
pub fn group_file_conflicts(rows: Vec<ConflictRow>) -> (r: Vec<FileConflict>)
    ensures
        conflict_views(r@) == grouped(rows@),
{
    let mut result: Vec<FileConflict> = Vec::new();
    let mut i: usize = 0;
    while i < rows.len()
        invariant
            0 <= i <= rows.len(),
            conflict_views(result@) == grouped(rows@.take(i as int)),
        decreases rows.len() - i,
    {
        let row = &rows[i];
        let status = match Status::parse(row.status.as_str()) {
            Ok(s) => s,
            Err(_) => Status::InProgress,
        };
        let entry = ConflictingIssue { id: row.id, title: row.title.clone(), status: owned(status.label()) };
        assert(entry@ == conflict_entry(*row));
        proof {
            assert(rows@.take(i + 1).drop_last() =~= rows@.take(i as int));
            assert(rows@.take(i + 1).last() == rows@[i as int]);
        }
        let n = result.len();
        let same = n > 0 && str_eq(result[n - 1].file.as_str(), row.file.as_str());
        if same {
            let ghost before = result@;
            let mut last = result.pop().unwrap();
            let ghost old_last = last@;
            last.conflicts_with.push(entry);
            assert(last.conflicts_with@.map_values(|c: ConflictingIssue| c@)
                =~= old_last.conflicts_with.push(entry@));
            result.push(last);
            assert(conflict_views(result@) =~= conflict_views(before).drop_last().push(last@));
        } else {
            let ghost before = result@;
            let mut v: Vec<ConflictingIssue> = Vec::new();
            v.push(entry);
            let g = FileConflict { file: row.file.clone(), conflicts_with: v };
            assert(g@.conflicts_with =~= seq![entry@]);
            result.push(g);
            assert(conflict_views(result@) =~= conflict_views(before).push(g@));
        }
        i += 1;
    }
    assert(rows@.take(rows.len() as int) =~= rows@);
    result
}

// ── Labels and files of listed issues ─────────────────────────────────────────

/// The names that rows of (issue, name) give one issue, in row order.
pub open spec fn names_for(rows: Seq<(i64, String)>, id: i64) -> Seq<Seq<char>>
    decreases rows.len(),
{
    if rows.len() == 0 {
        seq![]
    } else {
        let prev = names_for(rows.drop_last(), id);
        if rows.last().0 == id {
            prev.push(rows.last().1@)
        } else {
            prev
        }
    }
}

/// The ids of a list of issues, in order.
pub open spec fn issue_ids(v: Seq<Issue>) -> Seq<i64> {
    v.map_values(|i: Issue| i.id)
}

/// Whether one of the first `k` ids is `id`.
pub open spec fn listed_before(ids: Seq<i64>, k: int, id: i64) -> bool {
    exists|j: int| 0 <= j < k && ids[j] == id
}

/// The names the `k`-th listed issue is given: those the rows give its id,
/// unless an issue listed before it had the same id and took them.
pub open spec fn attached_names(rows: Seq<(i64, String)>, ids: Seq<i64>, k: int) -> Seq<Seq<char>> {
    if listed_before(ids, k, ids[k]) {
        seq![]
    } else {
        names_for(rows, ids[k])
    }
}

/// The rows that name one issue, in row order: what the name query returns
/// when that issue is read alone.
pub open spec fn rows_of(rows: Seq<(i64, String)>, id: i64) -> Seq<(i64, String)>
    decreases rows.len(),
{
    if rows.len() == 0 {
        seq![]
    } else {
        let prev = rows_of(rows.drop_last(), id);
        if rows.last().0 == id {
            prev.push(rows.last())
        } else {
            prev
        }
    }
}

proof fn lemma_names_of_own_rows(rows: Seq<(i64, String)>, id: i64)
    ensures
        names_for(rows_of(rows, id), id) == names_for(rows, id),
    decreases rows.len(),
{
    if rows.len() > 0 {
        lemma_names_of_own_rows(rows.drop_last(), id);
        let prev = rows_of(rows.drop_last(), id);
        if rows.last().0 == id {
            let own = prev.push(rows.last());
            assert(own.drop_last() =~= prev);
            assert(own.last() == rows.last());
        }
    }
}

/// A listing of issues with distinct ids gives each issue the labels (or
/// files) that a read of that issue alone gives it: the names of its own
/// rows, in row order.
pub proof fn lemma_listing_matches_single_read(rows: Seq<(i64, String)>, ids: Seq<i64>, k: int)
    requires
        0 <= k < ids.len(),
        forall|i: int, j: int| 0 <= i < j < ids.len() ==> #[trigger] ids[i] != #[trigger] ids[j],
    ensures
        attached_names(rows, ids, k) == attached_names(rows_of(rows, ids[k]), seq![ids[k]], 0),
        attached_names(rows, ids, k) == names_for(rows, ids[k]),
{
    assert(!listed_before(ids, k, ids[k])) by {
        if listed_before(ids, k, ids[k]) {
            let j = choose|j: int| 0 <= j < k && ids[j] == ids[k];
            assert(ids[j] != ids[k]);
        }
    }
    assert(seq![ids[k]][0] == ids[k]);
    lemma_names_of_own_rows(rows, ids[k]);
}

/// An issue with its labels and files replaced.
pub open spec fn with_names(v: IssueView, labels: Seq<Seq<char>>, files: Seq<Seq<char>>) -> IssueView {
    IssueView {
        id: v.id,
        parent_id: v.parent_id,
        title: v.title,
        description: v.description,
        status: v.status,
        priority: v.priority,
        kind: v.kind,
        assignee: v.assignee,
        labels,
        files,
        created_at: v.created_at,
        updated_at: v.updated_at,
    }
}

/// The names of each issue, gathered from the rows in one pass.
fn collect_names(rows: &Vec<(i64, String)>) -> (m: HashMap<i64, Vec<String>>)
    ensures
        forall|id: i64| #[trigger] m@.contains_key(id) <==> names_for(rows@, id).len() > 0,
        forall|id: i64| #[trigger] m@.contains_key(id) ==> texts(m@[id]@) == names_for(rows@, id),
{
    broadcast use vstd::std_specs::hash::group_hash_axioms;
    let mut m: HashMap<i64, Vec<String>> = HashMap::new();
    let mut i: usize = 0;
    while i < rows.len()
        invariant
            0 <= i <= rows.len(),
            forall|id: i64| #[trigger] m@.contains_key(id) <==> names_for(rows@.take(i as int), id).len() > 0,
            forall|id: i64| #[trigger] m@.contains_key(id) ==> texts(m@[id]@) == names_for(rows@.take(i as int), id),
        decreases rows.len() - i,
    {
        let id = rows[i].0;
        let name = rows[i].1.clone();
        proof {
            assert(rows@.take(i + 1).drop_last() =~= rows@.take(i as int));
            assert(rows@.take(i + 1).last() == rows@[i as int]);
        }
        let ghost before = m@;
        let v = match m.remove(&id) {
            Some(mut v) => {
                v.push(name.clone());
                assert(texts(v@) =~= texts(before[id]@).push(name@));
                v
            },
            None => {
                let mut v: Vec<String> = Vec::new();
                v.push(name.clone());
                assert(texts(v@) =~= seq![name@]);
                assert(names_for(rows@.take(i as int), id) =~= seq![]);
                v
            },
        };
        m.insert(id, v);
        i += 1;
    }
    assert(rows@.take(rows.len() as int) =~= rows@);
    m
}

/// Takes the names gathered for one issue out of the map.
fn take_names(m: &mut HashMap<i64, Vec<String>>, id: i64) -> (r: Vec<String>)
    ensures
        final(m)@ == old(m)@.remove(id),
        old(m)@.contains_key(id) ==> r@ == old(m)@[id]@,
        !old(m)@.contains_key(id) ==> r@.len() == 0,
{
    broadcast use vstd::std_specs::hash::group_hash_axioms;
    match m.remove(&id) {
        Some(v) => v,
        None => Vec::new(),
    }
}

/// Attaches to each listed issue its labels and files, given as rows of
/// (issue id, name) in the order the store returned them. Each issue gets
/// the names of its id in that order; the names of an id go to the first
/// issue listed with it.
pub fn attach_labels_and_files(
    issues: Vec<Issue>,
    label_rows: Vec<(i64, String)>,
    file_rows: Vec<(i64, String)>,
) -> (r: Vec<Issue>)
    ensures
        r@.len() == issues@.len(),
        forall|k: int|
            0 <= k < issues@.len() ==> #[trigger] r@[k]@ == with_names(
                issues@[k]@,
                attached_names(label_rows@, issue_ids(issues@), k),
                attached_names(file_rows@, issue_ids(issues@), k),
            ),
{
    let mut labels = collect_names(&label_rows);
    let mut files = collect_names(&file_rows);
    let ghost ids = issue_ids(issues@);
    let mut out: Vec<Issue> = Vec::new();
    let mut k: usize = 0;
    while k < issues.len()
        invariant
            0 <= k <= issues@.len(),
            ids == issue_ids(issues@),
            out@.len() == k,
            forall|j: int|
                0 <= j < k ==> #[trigger] out@[j]@ == with_names(
                    issues@[j]@,
                    attached_names(label_rows@, ids, j),
                    attached_names(file_rows@, ids, j),
                ),
            forall|id: i64|
                #[trigger] labels@.contains_key(id) <==> (names_for(label_rows@, id).len() > 0
                    && !listed_before(ids, k as int, id)),
            forall|id: i64|
                #[trigger] labels@.contains_key(id) ==> texts(labels@[id]@) == names_for(label_rows@, id),
            forall|id: i64|
                #[trigger] files@.contains_key(id) <==> (names_for(file_rows@, id).len() > 0
                    && !listed_before(ids, k as int, id)),
            forall|id: i64|
                #[trigger] files@.contains_key(id) ==> texts(files@[id]@) == names_for(file_rows@, id),
        decreases issues@.len() - k,
    {
        let id = issues[k].id;
        assert(ids[k as int] == id);
        let ghost lm = labels@;
        let ghost fm = files@;
        let l = take_names(&mut labels, id);
        let f = take_names(&mut files, id);
        assert(texts(l@) == attached_names(label_rows@, ids, k as int)) by {
            if !lm.contains_key(id) {
                assert(texts(l@) =~= seq![]);
                if !listed_before(ids, k as int, id) {
                    assert(names_for(label_rows@, id) =~= seq![]);
                }
            }
        }
        assert(texts(f@) == attached_names(file_rows@, ids, k as int)) by {
            if !fm.contains_key(id) {
                assert(texts(f@) =~= seq![]);
                if !listed_before(ids, k as int, id) {
                    assert(names_for(file_rows@, id) =~= seq![]);
                }
            }
        }
        let mut issue = issues[k].clone();
        issue.labels = l;
        issue.files = f;
        out.push(issue);
        proof {
            assert forall|x: i64| #[trigger] listed_before(ids, k + 1, x) <==> (listed_before(ids, k as int, x) || x == id) by {
                if x == id {
                    assert(ids[k as int] == x);
                }
                if listed_before(ids, k + 1, x) && x != id {
                    let j = choose|j: int| 0 <= j < k + 1 && ids[j] == x;
                    assert(j < k);
                }
            }
        }
        k += 1;
    }
    out
}

} // verus!
