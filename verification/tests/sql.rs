use bmo::db::query::select_sql;
use bmo::db::rows::{conflict_sql, group_file_conflicts, ConflictRow};
use bmo::db::{update_statement, ClaimIssueInput, ColumnValue, UpdateIssueInput};
use bmo::filter::FilterBuilder;
use bmo::graph::{leaving, neighbour_sql, EdgeRow};
use bmo::model::issue::{IssueFilter, Status};
use rusqlite::types::Value;
use rusqlite::{params_from_iter, Connection};

const SCHEMA: &str = "
CREATE TABLE issues (
    id          INTEGER PRIMARY KEY AUTOINCREMENT,
    parent_id   INTEGER,
    title       TEXT NOT NULL,
    description TEXT NOT NULL DEFAULT '',
    status      TEXT NOT NULL DEFAULT 'backlog',
    priority    TEXT NOT NULL DEFAULT 'medium',
    kind        TEXT NOT NULL DEFAULT 'task',
    assignee    TEXT,
    created_at  TEXT NOT NULL DEFAULT '',
    updated_at  TEXT NOT NULL DEFAULT ''
);
CREATE TABLE labels (id INTEGER PRIMARY KEY AUTOINCREMENT, name TEXT NOT NULL UNIQUE, color TEXT);
CREATE TABLE issue_labels (issue_id INTEGER NOT NULL, label_id INTEGER NOT NULL, PRIMARY KEY (issue_id, label_id));
CREATE TABLE issue_relations (id INTEGER PRIMARY KEY AUTOINCREMENT, from_id INTEGER NOT NULL, to_id INTEGER NOT NULL, relation TEXT NOT NULL);
CREATE TABLE issue_files (id INTEGER PRIMARY KEY AUTOINCREMENT, issue_id INTEGER NOT NULL, path TEXT NOT NULL, added_at TEXT NOT NULL DEFAULT '');
";

fn values(args: Vec<ColumnValue>) -> Vec<Value> {
    args.into_iter()
        .map(|a| match a {
            ColumnValue::Text(t) => Value::Text(t),
            ColumnValue::Int(n) => Value::Integer(n),
            ColumnValue::Null => Value::Null,
        })
        .collect()
}

/// Issues as (title, description, status, priority, assignee, labels).
fn store(issues: &[(&str, &str, &str, &str, Option<&str>, &[&str])]) -> Connection {
    let c = Connection::open_in_memory().unwrap();
    c.execute_batch(SCHEMA).unwrap();
    for (title, desc, status, priority, assignee, labels) in issues {
        c.execute(
            "INSERT INTO issues (title, description, status, priority, assignee) VALUES (?1, ?2, ?3, ?4, ?5)",
            params_from_iter([
                Value::Text(title.to_string()),
                Value::Text(desc.to_string()),
                Value::Text(status.to_string()),
                Value::Text(priority.to_string()),
                match assignee {
                    Some(a) => Value::Text(a.to_string()),
                    None => Value::Null,
                },
            ]),
        )
        .unwrap();
        let id = c.last_insert_rowid();
        for l in labels.iter() {
            c.execute("INSERT OR IGNORE INTO labels (name) VALUES (?1)", [l]).unwrap();
            c.execute(
                "INSERT INTO issue_labels (issue_id, label_id) SELECT ?1, id FROM labels WHERE name = ?2",
                params_from_iter([Value::Integer(id), Value::Text(l.to_string())]),
            )
            .unwrap();
        }
    }
    c
}

fn listed(c: &Connection, mut f: IssueFilter) -> Vec<i64> {
    let q = f.into_issue_query();
    let (sql, args) = select_sql(&q);
    let v = values(args);
    let mut stmt = c.prepare(&sql).unwrap();
    let ids = stmt.query_map(params_from_iter(v.iter()), |r| r.get::<_, i64>(0)).unwrap();
    ids.map(|r| r.unwrap()).collect()
}

fn sample() -> Connection {
    store(&[
        ("login page", "", "todo", "low", Some("ann"), &["ui", "auth"]),
        ("crash", "on login", "in-progress", "critical", None, &["auth"]),
        ("docs", "", "done", "high", Some("ann"), &["ui"]),
        ("cleanup", "", "backlog", "none", None, &[]),
        ("theme", "", "review", "high", Some("bob"), &["ui", "auth", "x"]),
    ])
}

#[test]
fn the_select_of_a_plain_query_is_spelled_out() {
    let mut f = FilterBuilder::default().build().unwrap();
    let q = f.into_issue_query();
    let (sql, args) = select_sql(&q);
    assert!(sql.starts_with(
        "SELECT id, parent_id, title, description, status, priority, kind, assignee, created_at, updated_at FROM issues WHERE status <> ? ORDER BY CASE priority"
    ));
    assert!(sql.ends_with(" ELSE 0 END DESC, id ASC"));
    assert!(matches!(&args[..], [ColumnValue::Text(t)] if t == "done"));
}

#[test]
fn the_select_binds_every_condition_in_order() {
    let mut b = FilterBuilder::default();
    b.statuses = vec!["todo".to_string(), "review".to_string()];
    b.priorities = vec!["high".to_string()];
    b.assignee = Some("ann".to_string());
    b.parent_id = Some("BMO-3".to_string());
    b.search = Some("log".to_string());
    b.labels = vec!["ui".to_string(), "auth".to_string()];
    b.limit = 5;
    b.offset = 2;
    let mut f = b.build().unwrap();
    let (sql, args) = select_sql(&f.into_issue_query());
    let exists = "EXISTS (SELECT 1 FROM issue_labels il JOIN labels l ON l.id = il.label_id WHERE il.issue_id = issues.id AND l.name = ?)";
    let conds = format!(
        " WHERE status IN (?, ?) AND priority IN (?) AND assignee = ? AND parent_id = ? AND (title LIKE ? OR description LIKE ?) AND {exists} AND {exists} ORDER BY "
    );
    assert!(sql.contains(&conds), "{sql}");
    assert!(sql.ends_with(" DESC, id ASC LIMIT 5 OFFSET 2"));
    let shown: Vec<String> = args
        .iter()
        .map(|a| match a {
            ColumnValue::Text(t) => t.clone(),
            ColumnValue::Int(n) => n.to_string(),
            ColumnValue::Null => "null".to_string(),
        })
        .collect();
    assert_eq!(shown, ["todo", "review", "high", "ann", "3", "%log%", "%log%", "ui", "auth"]);
}

#[test]
fn listings_run_on_sqlite() {
    let c = sample();
    // Not done, by priority rank then id.
    assert_eq!(listed(&c, FilterBuilder::default().build().unwrap()), vec![2, 5, 1, 4]);
    // Every issue, done included, in the same order.
    assert_eq!(listed(&c, IssueFilter::all()), vec![2, 3, 5, 1, 4]);
    // Labels are ANDed.
    let mut b = FilterBuilder::default();
    b.labels = vec!["ui".to_string(), "auth".to_string()];
    assert_eq!(listed(&c, b.build().unwrap()), vec![5, 1]);
    // The search looks in the title and in the description.
    let mut b = FilterBuilder::default();
    b.search = Some("login".to_string());
    assert_eq!(listed(&c, b.build().unwrap()), vec![2, 1]);
    // Assignee with done ones included.
    let mut b = FilterBuilder::default();
    b.assignee = Some("ann".to_string());
    b.include_done = true;
    assert_eq!(listed(&c, b.build().unwrap()), vec![3, 1]);
    // Limit and offset, and an offset alone.
    let mut b = FilterBuilder::default();
    b.limit = 2;
    b.offset = 1;
    assert_eq!(listed(&c, b.build().unwrap()), vec![5, 1]);
    let mut b = FilterBuilder::default();
    b.offset = 3;
    assert_eq!(listed(&c, b.build().unwrap()), vec![4]);
}

#[test]
fn a_claim_writes_only_while_the_issue_is_not_in_progress() {
    let c = sample();
    let claim = ClaimIssueInput { issue_id: 1, assignee: Some("zed".to_string()) };
    let (sql, args) = update_statement(&claim.assignments(), "now".to_string(), 1, Some(Status::InProgress));
    assert_eq!(
        sql,
        "UPDATE issues SET updated_at = ?, status = ?, assignee = ? WHERE id = ? AND status NOT IN (?)"
    );
    let v = values(args);
    assert_eq!(c.execute(&sql, params_from_iter(v.iter())).unwrap(), 1);
    assert_eq!(c.execute(&sql, params_from_iter(v.iter())).unwrap(), 0);
    let (status, assignee): (String, String) =
        c.query_row("SELECT status, assignee FROM issues WHERE id = 1", [], |r| Ok((r.get(0)?, r.get(1)?))).unwrap();
    assert_eq!((status.as_str(), assignee.as_str()), ("in-progress", "zed"));
    // Without an assignee, the assignee is left as it was.
    let claim = ClaimIssueInput { issue_id: 4, assignee: None };
    let (sql, args) = update_statement(&claim.assignments(), "now".to_string(), 4, Some(Status::InProgress));
    assert_eq!(sql, "UPDATE issues SET updated_at = ?, status = ? WHERE id = ? AND status NOT IN (?)");
    assert_eq!(c.execute(&sql, params_from_iter(values(args).iter())).unwrap(), 1);
}

#[test]
fn an_update_of_a_missing_issue_changes_nothing() {
    let c = sample();
    let mut u = UpdateIssueInput::default();
    u.title = Some("renamed".to_string());
    u.parent_id = Some(None);
    let (sql, args) = update_statement(&u.assignments(), "t".to_string(), 99, None);
    assert_eq!(sql, "UPDATE issues SET updated_at = ?, title = ?, parent_id = ? WHERE id = ?");
    assert_eq!(c.execute(&sql, params_from_iter(values(args).iter())).unwrap(), 0);
    let (sql, args) = update_statement(&u.assignments(), "t".to_string(), 2, None);
    assert_eq!(c.execute(&sql, params_from_iter(values(args).iter())).unwrap(), 1);
    let title: String = c.query_row("SELECT title FROM issues WHERE id = 2", [], |r| r.get(0)).unwrap();
    assert_eq!(title, "renamed");
}

#[test]
fn the_conflict_query_finds_other_issues_in_progress_on_the_same_files() {
    let c = sample();
    for (issue, path) in [(1, "b.rs"), (1, "a.rs"), (2, "a.rs"), (5, "a.rs"), (2, "b.rs"), (3, "b.rs"), (4, "c.rs")] {
        c.execute("INSERT INTO issue_files (issue_id, path) VALUES (?1, ?2)", params_from_iter([Value::Integer(issue), Value::Text(path.to_string())])).unwrap();
    }
    c.execute("UPDATE issues SET status = 'in-progress' WHERE id = 5", []).unwrap();
    let (sql, args) = conflict_sql(1);
    let v = values(args);
    let mut stmt = c.prepare(&sql).unwrap();
    let rows: Vec<ConflictRow> = stmt
        .query_map(params_from_iter(v.iter()), |r| {
            Ok(ConflictRow { file: r.get(0)?, id: r.get(1)?, title: r.get(2)?, status: r.get(3)? })
        })
        .unwrap()
        .map(|r| r.unwrap())
        .collect();
    let g = group_file_conflicts(rows);
    assert_eq!(g.len(), 2);
    assert_eq!(g[0].file, "a.rs");
    assert_eq!(g[0].conflicts_with.iter().map(|i| i.id).collect::<Vec<_>>(), vec![2, 5]);
    assert_eq!(g[1].file, "b.rs");
    assert_eq!(g[1].conflicts_with.iter().map(|i| i.id).collect::<Vec<_>>(), vec![2]);
}

#[test]
fn the_neighbour_query_selects_the_rows_leaving_a_node() {
    let c = Connection::open_in_memory().unwrap();
    c.execute_batch(SCHEMA).unwrap();
    let rels = [(1, "blocks", 2), (3, "depends-on", 1), (1, "relates-to", 4), (2, "blocks", 1), (1, "depends-on", 5)];
    for (f, k, t) in rels {
        c.execute("INSERT INTO issue_relations (from_id, to_id, relation) VALUES (?1, ?2, ?3)", params_from_iter([Value::Integer(f), Value::Integer(t), Value::Text(k.to_string())]))
            .unwrap();
    }
    let all: Vec<EdgeRow> =
        rels.iter().map(|(f, k, t)| EdgeRow { from_id: *f, to_id: *t, kind: k.to_string() }).collect();
    for node in 1..=5 {
        let (sql, args) = neighbour_sql(node);
        let v = values(args);
        let mut stmt = c.prepare(&format!("{sql} ORDER BY id")).unwrap();
        let got: Vec<(i64, i64, String)> = stmt
            .query_map(params_from_iter(v.iter()), |r| Ok((r.get(0)?, r.get(1)?, r.get(2)?)))
            .unwrap()
            .map(|r| r.unwrap())
            .collect();
        let want: Vec<(i64, i64, String)> =
            leaving(&all, node).into_iter().map(|r| (r.from_id, r.to_id, r.kind)).collect();
        assert_eq!(got, want, "node {node}");
    }
}
