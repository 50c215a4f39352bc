use bmo::db::rows::{
    attach_labels_and_files, group_file_conflicts, issue_from_row, relation_from_row, ConflictRow, IssueRow,
};
use bmo::db::{check_new_issue_parent, claim_outcome, truncation_needed, ColumnValue, IssueColumn, UpdateIssueInput};
use bmo::cli::issue::close::CloseArgs;
use bmo::cli::issue::reopen::ReopenArgs;
use bmo::errors::BmoError;
use bmo::graph::{can_reach_in, check_link_in, leaving, EdgeRow, ReachSearch, SearchStep};
use bmo::hierarchy::{check_parent_in, parent_of, ParentCheck, ParentStep};
use bmo::model::issue::{Issue, Kind, Priority, Status};
use bmo::model::relation::RelationKind;

fn issue(id: i64, status: Status) -> Issue {
    Issue {
        id,
        parent_id: None,
        title: format!("issue {id}"),
        description: String::new(),
        status,
        priority: Priority::Medium,
        kind: Kind::Task,
        assignee: None,
        labels: vec![],
        files: vec![],
        created_at: "2024-01-01T00:00:00+00:00".to_string(),
        updated_at: "2024-01-01T00:00:00+00:00".to_string(),
    }
}

/// The stored relations as (from, kind, to).
fn store(rels: &[(i64, &str, i64)]) -> Vec<EdgeRow> {
    rels.iter()
        .map(|(f, k, t)| EdgeRow { from_id: *f, to_id: *t, kind: k.to_string() })
        .collect()
}

fn can_reach(rows: &[EdgeRow], start: i64, target: i64) -> bool {
    can_reach_in(&rows.iter().map(copy_row).collect(), start, target)
}

fn link(rows: &[EdgeRow], from: i64, kind: RelationKind, to: i64) -> Result<(), BmoError> {
    check_link_in(&rows.iter().map(copy_row).collect(), from, kind, to)
}

fn copy_row(r: &EdgeRow) -> EdgeRow {
    EdgeRow { from_id: r.from_id, to_id: r.to_id, kind: r.kind.clone() }
}

fn set_parent(parents: &[(i64, i64)], issue: i64, candidate: i64) -> Result<(), BmoError> {
    let table: Vec<(i64, Option<i64>)> = parents.iter().map(|(c, p)| (*c, Some(*p))).collect();
    check_parent_in(&table, issue, candidate)
}

/// The same search, stepped by hand, each query answered by `leaving`.
fn can_reach_stepwise(rows: &Vec<EdgeRow>, start: i64, target: i64) -> bool {
    let (mut s, mut step) = ReachSearch::begin(start, target);
    loop {
        match step {
            SearchStep::Answer(b) => return b,
            SearchStep::Query(n) => step = s.step(&leaving(rows, n)),
        }
    }
}

fn set_parent_stepwise(parents: &Vec<(i64, Option<i64>)>, issue: i64, candidate: i64) -> Result<(), BmoError> {
    let (mut c, mut step) = ParentCheck::begin(issue, candidate);
    loop {
        match step {
            ParentStep::Accept => return Ok(()),
            ParentStep::Reject(e) => return Err(e),
            ParentStep::Lookup(n) => step = c.step(parent_of(parents, n)),
        }
    }
}

#[test]
fn claim_outcomes() {
    let ok = claim_outcome(3, 1, Some(issue(3, Status::InProgress))).unwrap();
    assert_eq!(ok.id, 3);
    match claim_outcome(3, 0, Some(issue(3, Status::InProgress))) {
        Err(BmoError::Conflict(m)) => assert_eq!(m, "issue 3 is already in-progress"),
        other => panic!("{other:?}"),
    }
    match claim_outcome(99999, 0, None) {
        Err(BmoError::NotFound(m)) => assert_eq!(m, "issue 99999 not found"),
        other => panic!("{other:?}"),
    }
    match claim_outcome(3, 1, None) {
        Err(BmoError::Db(m)) => assert_eq!(m, "unexpected state: issue 3 missing after successful UPDATE"),
        other => panic!("{other:?}"),
    }
    match claim_outcome(3, 0, Some(issue(3, Status::Todo))) {
        Err(BmoError::Db(m)) => {
            assert_eq!(m, "unexpected state: issue 3 was not updated but status is not in-progress")
        },
        other => panic!("{other:?}"),
    }
}

#[test]
fn new_issue_cannot_be_its_own_parent() {
    match check_new_issue_parent(Some(5), 5) {
        Err(BmoError::Validation(m)) => assert!(m.contains("own parent")),
        other => panic!("{other:?}"),
    }
    assert!(check_new_issue_parent(Some(4), 5).is_ok());
    assert!(check_new_issue_parent(None, 5).is_ok());
    assert!(!truncation_needed(&[]));
    assert!(truncation_needed(&[Status::Done]));
}

#[test]
fn rows_read_with_fallbacks() {
    let row = IssueRow {
        id: 1,
        parent_id: Some(2),
        title: "t".to_string(),
        description: "d".to_string(),
        status: "in_progress".to_string(),
        priority: "bogus".to_string(),
        kind: "weird".to_string(),
        assignee: None,
        created_at: "c".to_string(),
        updated_at: "u".to_string(),
    };
    let i = issue_from_row(row);
    assert_eq!(i.status, Status::InProgress);
    assert_eq!(i.priority, Priority::Unset);
    assert_eq!(i.kind, Kind::Task);
    assert_eq!(i.parent_id, Some(2));
    assert!(i.labels.is_empty() && i.files.is_empty());
    let row = IssueRow {
        id: 1,
        parent_id: None,
        title: "t".to_string(),
        description: "d".to_string(),
        status: "gone".to_string(),
        priority: "high".to_string(),
        kind: "bug".to_string(),
        assignee: Some("a".to_string()),
        created_at: "c".to_string(),
        updated_at: "u".to_string(),
    };
    let i = issue_from_row(row);
    assert_eq!((i.status, i.priority, i.kind), (Status::Backlog, Priority::High, Kind::Bug));
    assert_eq!(relation_from_row(1, 2, 3, "blocks").kind, RelationKind::Blocks);
    assert_eq!(relation_from_row(1, 2, 3, "mystery").kind, RelationKind::RelatesTo);
}

fn crow(file: &str, id: i64, status: &str) -> ConflictRow {
    ConflictRow { file: file.to_string(), id, title: format!("t{id}"), status: status.to_string() }
}

#[test]
fn conflicts_grouped_by_file() {
    let g = group_file_conflicts(vec![
        crow("src/bar.rs", 3, "in-progress"),
        crow("src/foo.rs", 2, "in-progress"),
        crow("src/foo.rs", 4, "odd"),
    ]);
    assert_eq!(g.len(), 2);
    assert_eq!(g[0].file, "src/bar.rs");
    assert_eq!(g[0].conflicts_with.len(), 1);
    assert_eq!(g[0].conflicts_with[0].id, 3);
    assert_eq!(g[1].file, "src/foo.rs");
    assert_eq!(g[1].conflicts_with.iter().map(|c| c.id).collect::<Vec<_>>(), vec![2, 4]);
    assert_eq!(g[1].conflicts_with[1].status, "in-progress");
    assert!(group_file_conflicts(vec![]).is_empty());
}

#[test]
fn conflicts_split_by_runs() {
    let g = group_file_conflicts(vec![crow("a", 1, "in-progress"), crow("b", 2, "review"), crow("a", 3, "todo")]);
    assert_eq!(g.iter().map(|c| c.file.as_str()).collect::<Vec<_>>(), vec!["a", "b", "a"]);
    assert_eq!(g[1].conflicts_with[0].status, "review");
}

#[test]
fn labels_and_files_attached_in_order() {
    let issues = vec![issue(1, Status::Todo), issue(2, Status::Todo), issue(1, Status::Done)];
    let labels = vec![(2, "b".to_string()), (1, "x".to_string()), (1, "y".to_string()), (7, "z".to_string())];
    let files = vec![(1, "f.rs".to_string())];
    let out = attach_labels_and_files(issues, labels, files);
    assert_eq!(out.len(), 3);
    assert_eq!(out[0].labels, vec!["x".to_string(), "y".to_string()]);
    assert_eq!(out[0].files, vec!["f.rs".to_string()]);
    assert_eq!(out[1].labels, vec!["b".to_string()]);
    assert!(out[1].files.is_empty());
    assert!(out[2].labels.is_empty());
    assert_eq!(out[2].status, Status::Done);
}

#[test]
fn reachability_follows_blocks_and_depends_on() {
    // 1 blocks 2; 3 depends on 2 (edge 2 → 3); 4 relates to 1.
    let rows = store(&[(1, "blocks", 2), (3, "depends-on", 2), (4, "relates-to", 1)]);
    assert!(can_reach(&rows, 1, 3));
    assert!(can_reach(&rows, 2, 3));
    assert!(!can_reach(&rows, 3, 1));
    assert!(!can_reach(&rows, 4, 1));
    assert!(can_reach(&rows, 5, 5));
}

#[test]
fn links_that_close_a_cycle_are_refused() {
    let rows = store(&[(1, "blocks", 2), (2, "blocks", 3)]);
    match link(&rows, 3, RelationKind::Blocks, 1) {
        Err(BmoError::Validation(m)) => {
            assert_eq!(m, "adding this link would create a cycle in the dependency graph")
        },
        other => panic!("{other:?}"),
    }
    // 1 depends on 3 adds 3 → 1, which closes 1 → 2 → 3 → 1.
    assert!(link(&rows, 1, RelationKind::DependsOn, 3).is_err());
    assert!(link(&rows, 1, RelationKind::Blocks, 3).is_ok());
    assert!(link(&rows, 3, RelationKind::RelatesTo, 1).is_ok());
    assert!(link(&rows, 4, RelationKind::Blocks, 4).is_err());
    assert!(link(&rows, 4, RelationKind::Duplicates, 4).is_ok());
}

#[test]
fn parents_that_close_a_cycle_are_refused() {
    // 2's parent is 1, 3's parent is 2.
    let parents = [(2, 1), (3, 2)];
    match set_parent(&parents, 1, 1) {
        Err(BmoError::Validation(m)) => assert_eq!(m, "cannot set an issue as its own parent"),
        other => panic!("{other:?}"),
    }
    match set_parent(&parents, 1, 3) {
        Err(BmoError::Validation(m)) => {
            assert_eq!(m, "setting this parent would create a cycle in the issue hierarchy")
        },
        other => panic!("{other:?}"),
    }
    assert!(set_parent(&parents, 1, 2).is_err());
    assert!(set_parent(&parents, 3, 1).is_ok());
    assert!(set_parent(&parents, 4, 3).is_ok());
}

#[test]
fn updates_write_only_the_fields_given() {
    let mut u = UpdateIssueInput::default();
    assert!(u.assignments().is_empty());
    u.title = Some("New".to_string());
    u.status = Some(Status::Review);
    u.parent_id = Some(None);
    let a = u.assignments();
    assert_eq!(a.len(), 3);
    assert_eq!(a[0].column, IssueColumn::Title);
    assert!(matches!(&a[0].value, ColumnValue::Text(t) if t == "New"));
    assert_eq!(a[1].column.name(), "status");
    assert!(matches!(&a[1].value, ColumnValue::Text(t) if t == "review"));
    assert_eq!(a[2].column.name(), "parent_id");
    assert!(matches!(a[2].value, ColumnValue::Null));
    u.parent_id = Some(Some(9));
    assert!(matches!(u.assignments()[2].value, ColumnValue::Int(9)));
}

#[test]
fn neighbour_rows_are_the_dependency_edges_leaving_a_node() {
    let rows = store(&[(1, "blocks", 2), (3, "depends-on", 1), (1, "relates-to", 4), (2, "blocks", 1)]);
    let out = leaving(&rows, 1);
    assert_eq!(out.len(), 2);
    assert_eq!((out[0].from_id, out[0].to_id, out[0].kind.as_str()), (1, 2, "blocks"));
    assert_eq!((out[1].from_id, out[1].to_id, out[1].kind.as_str()), (3, 1, "depends-on"));
    assert!(leaving(&rows, 4).is_empty());
}

#[test]
fn a_search_ends_on_a_store_with_a_cycle() {
    // 1 → 2 → 3 → 1, and 4 apart.
    let rows = store(&[(1, "blocks", 2), (2, "blocks", 3), (3, "blocks", 1)]);
    assert!(can_reach_in(&rows, 1, 3));
    assert!(!can_reach_in(&rows, 1, 4));
    assert_eq!(can_reach_stepwise(&rows, 2, 1), can_reach_in(&rows, 2, 1));
    assert_eq!(can_reach_stepwise(&rows, 2, 4), can_reach_in(&rows, 2, 4));
}

#[test]
fn a_parent_walk_ends_on_a_chain_with_a_cycle() {
    // 5 and 6 are each other's parent; 7's parent is 5.
    let table = vec![(5, Some(6)), (6, Some(5)), (7, Some(5)), (8, None)];
    assert_eq!(parent_of(&table, 7), Some(5));
    assert_eq!(parent_of(&table, 8), None);
    assert_eq!(parent_of(&table, 9), None);
    assert!(check_parent_in(&table, 1, 7).is_ok());
    assert!(check_parent_in(&table, 5, 7).is_err());
    assert_eq!(set_parent_stepwise(&table, 1, 7).is_ok(), check_parent_in(&table, 1, 7).is_ok());
    assert_eq!(set_parent_stepwise(&table, 6, 7).is_ok(), check_parent_in(&table, 6, 7).is_ok());
}

#[test]
fn close_and_reopen_write_only_the_status() {
    let (id, u) = CloseArgs { id: "BMO-4".to_string() }.request().unwrap();
    assert_eq!(id, 4);
    let a = u.assignments();
    assert_eq!(a.len(), 1);
    assert_eq!(a[0].column, IssueColumn::Status);
    assert!(matches!(&a[0].value, ColumnValue::Text(t) if t == "done"));
    let (id, u) = ReopenArgs { id: "7".to_string() }.request().unwrap();
    assert_eq!(id, 7);
    let a = u.assignments();
    assert_eq!(a.len(), 1);
    assert!(matches!(&a[0].value, ColumnValue::Text(t) if t == "todo"));
}
