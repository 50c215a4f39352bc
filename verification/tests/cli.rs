use bmo::cli::agent_init::CHEAT_SHEET;
use bmo::cli::board::{board_filter, BoardArgs};
use bmo::cli::import::{comment_import_input, imported_message, issue_import_input};
use bmo::cli::init::InitArgs;
use bmo::cli::issue::claim::{already_claimed_message, claimed_message, ClaimArgs};
use bmo::cli::issue::close::CloseArgs;
use bmo::cli::issue::comment::AddArgs as CommentAddArgs;
use bmo::cli::issue::create::CreateArgs;
use bmo::cli::issue::edit::EditArgs;
use bmo::cli::issue::file_cmd::total_conflicts;
use bmo::cli::issue::graph::{blockers, blocking, other_end};
use bmo::cli::issue::link::{linked_message, AddArgs as LinkAddArgs};
use bmo::cli::issue::list::ListArgs;
use bmo::cli::issue::move_cmd::{move_request, moved_message, MoveArgs};
use bmo::cli::issue::reopen::ReopenArgs;
use bmo::cli::next::NextArgs;
use bmo::cli::plan::{check_phase, phase_heading, phase_issues, phase_message, PlanArgs};
use bmo::cli::truncate::{deleted_message, join_labels, TruncateArgs};
use bmo::cli::web::WebArgs;
use bmo::cli::{is_yes, parse_id};
use bmo::errors::ParseError;
use bmo::model::comment::Comment;
use bmo::model::conflict::{ConflictingIssue, FileConflict};
use bmo::model::issue::{Issue, Kind, Priority, Status};
use bmo::model::relation::{Relation, RelationKind};
use bmo::output::Phase;

fn issue(id: i64, assignee: Option<&str>) -> Issue {
    Issue {
        id,
        parent_id: None,
        title: format!("issue {id}"),
        description: String::new(),
        status: Status::Todo,
        priority: Priority::Medium,
        kind: Kind::Task,
        assignee: assignee.map(|a| a.to_string()),
        labels: vec![],
        files: vec![],
        created_at: "2024-01-01T00:00:00+00:00".to_string(),
        updated_at: "2024-01-01T00:00:00+00:00".to_string(),
    }
}

#[test]
fn cheat_sheet_is_non_empty() {
    assert!(!CHEAT_SHEET.is_empty());
    assert!(CHEAT_SHEET.contains("bmo agent-init"));
    assert!(CHEAT_SHEET.contains("HANDOFF:"));
}

#[test]
fn parse_id_accepts_both_forms() {
    assert_eq!(parse_id("42").unwrap(), 42);
    assert_eq!(parse_id("BMO-42").unwrap(), 42);
    assert_eq!(parse_id("bmo-7").unwrap(), 7);
    assert_eq!(parse_id("  BMO-13 \n").unwrap(), 13);
    assert_eq!(parse_id(" 42 ").unwrap(), 42);
    assert_eq!(parse_id("+5").unwrap(), 5);
    assert_eq!(parse_id("-3").unwrap(), -3);
}

#[test]
fn parse_id_refuses_other_text() {
    for bad in ["", "BMO-", "abc", "BMO-x1", "4 2", "BMO-99999999999999999999"] {
        match parse_id(bad) {
            Err(ParseError::InvalidIssueId(t)) => assert_eq!(t, bad),
            other => panic!("{bad:?} gave {other:?}"),
        }
    }
}

#[test]
fn display_id_reads_back() {
    for n in [0i64, 1, 42, 1000, i64::MAX, -1] {
        let shown = issue(n, None).display_id();
        assert_eq!(parse_id(&shown).unwrap(), n);
        assert_eq!(parse_id(&n.to_string()).unwrap(), n);
    }
}

fn create_args() -> CreateArgs {
    CreateArgs {
        title: "Fix login".to_string(),
        description: String::new(),
        status: "backlog".to_string(),
        priority: "medium".to_string(),
        kind: "task".to_string(),
        assignee: Some("ann".to_string()),
        parent: Some("BMO-3".to_string()),
        label: vec!["ui".to_string()],
        file: vec!["src/a.rs".to_string()],
    }
}

#[test]
fn create_args_read_into_input() {
    let input = create_args().to_input().unwrap();
    assert_eq!(input.title, "Fix login");
    assert_eq!(input.status, Status::Backlog);
    assert_eq!(input.priority, Priority::Medium);
    assert_eq!(input.kind, Kind::Task);
    assert_eq!(input.parent_id, Some(3));
    assert_eq!(input.assignee.as_deref(), Some("ann"));
    assert_eq!(input.labels, vec!["ui".to_string()]);
    assert_eq!(input.files, vec!["src/a.rs".to_string()]);
    assert!(input.actor.is_none());
}

#[test]
fn create_args_report_the_first_bad_field() {
    let mut a = create_args();
    a.priority = "urgent".to_string();
    a.kind = "story".to_string();
    assert!(matches!(a.to_input(), Err(ParseError::UnknownPriority(t)) if t == "urgent"));
    let mut a = create_args();
    a.kind = "story".to_string();
    assert!(matches!(a.to_input(), Err(ParseError::UnknownKind(t)) if t == "story"));
    let mut a = create_args();
    a.parent = Some("nope".to_string());
    assert!(matches!(a.to_input(), Err(ParseError::InvalidIssueId(t)) if t == "nope"));
    let mut a = create_args();
    a.status = "shipped".to_string();
    a.parent = Some("nope".to_string());
    assert!(matches!(a.to_input(), Err(ParseError::UnknownStatus(t)) if t == "shipped"));
}

#[test]
fn edit_args_read_into_update() {
    let e = EditArgs {
        id: "BMO-8".to_string(),
        title: Some("New".to_string()),
        description: None,
        status: Some("review".to_string()),
        priority: None,
        kind: Some("BUG".to_string()),
        assignee: None,
        parent: Some("2".to_string()),
    };
    let (id, u) = e.to_update().unwrap();
    assert_eq!(id, 8);
    assert_eq!(u.title.as_deref(), Some("New"));
    assert!(u.description.is_none());
    assert_eq!(u.status, Some(Status::Review));
    assert_eq!(u.priority, None);
    assert_eq!(u.kind, Some(Kind::Bug));
    assert_eq!(u.parent_id, Some(Some(2)));
    let bad = EditArgs {
        id: "x".to_string(),
        title: None,
        description: None,
        status: Some("bogus".to_string()),
        priority: None,
        kind: None,
        assignee: None,
        parent: None,
    };
    assert!(matches!(bad.to_update(), Err(ParseError::InvalidIssueId(t)) if t == "x"));
}

#[test]
fn moves_set_only_the_status() {
    let (id, u) = move_request("BMO-4", "In_Progress").unwrap();
    assert_eq!(id, 4);
    assert_eq!(u.status, Some(Status::InProgress));
    assert!(u.title.is_none() && u.parent_id.is_none() && u.priority.is_none());
    assert!(matches!(move_request("4", "later"), Err(ParseError::UnknownStatus(t)) if t == "later"));
    assert!(matches!(move_request("four", "later"), Err(ParseError::InvalidIssueId(_))));
    let m = MoveArgs { id: "9".to_string(), status: "done".to_string() };
    assert_eq!(m.request().unwrap().1.status, Some(Status::Done));
    let (id, u) = CloseArgs { id: "BMO-5".to_string() }.request().unwrap();
    assert_eq!((id, u.status), (5, Some(Status::Done)));
    let (id, u) = ReopenArgs { id: "5".to_string() }.request().unwrap();
    assert_eq!((id, u.status), (5, Some(Status::Todo)));
    assert_eq!(moved_message(5, Status::Review), "Moved BMO-5 → review");
}

#[test]
fn link_arguments_and_message() {
    let a = LinkAddArgs { from_id: "BMO-1".to_string(), relation: "depends_on".to_string(), to_id: "2".to_string() };
    assert_eq!(a.parse().unwrap(), (1, RelationKind::DependsOn, 2));
    let b = LinkAddArgs { from_id: "1".to_string(), relation: "owns".to_string(), to_id: "x".to_string() };
    assert!(matches!(b.parse(), Err(ParseError::InvalidIssueId(t)) if t == "x"));
    let c = LinkAddArgs { from_id: "1".to_string(), relation: "owns".to_string(), to_id: "2".to_string() };
    assert!(matches!(c.parse(), Err(ParseError::UnknownRelationKind(t)) if t == "owns"));
    assert_eq!(linked_message(1, RelationKind::Blocks, 2), "Linked BMO-1 blocks BMO-2");
}

#[test]
fn comment_and_claim_inputs() {
    let c = CommentAddArgs { id: "BMO-3".to_string(), body: "hi".to_string(), author: None }.to_input().unwrap();
    assert_eq!((c.issue_id, c.body.as_str()), (3, "hi"));
    let k = ClaimArgs { id: "3".to_string(), assignee: Some("bo".to_string()) }.to_input().unwrap();
    assert_eq!(k.issue_id, 3);
    assert_eq!(k.assignee.as_deref(), Some("bo"));
    assert!(ClaimArgs { id: "?".to_string(), assignee: None }.to_input().is_err());
    assert_eq!(claimed_message(3), "Claimed BMO-3.");
    assert_eq!(already_claimed_message(3), "BMO-3 is already in-progress");
}

#[test]
fn truncate_statuses() {
    let all = TruncateArgs { status: vec![], all: true, yes: false };
    assert_eq!(all.get_statuses().len(), 5);
    let none = TruncateArgs { status: vec![], all: false, yes: false };
    assert_eq!(none.get_statuses(), vec![Status::Done]);
    let some = TruncateArgs {
        status: vec!["review".to_string(), "nonsense".to_string(), "BACKLOG".to_string()],
        all: false,
        yes: true,
    };
    assert_eq!(some.get_statuses(), vec![Status::Review, Status::Backlog]);
    let only_bad = TruncateArgs { status: vec!["nonsense".to_string()], all: false, yes: true };
    assert!(only_bad.get_statuses().is_empty());
}

#[test]
fn truncate_prompts() {
    let all = TruncateArgs { status: vec![], all: true, yes: false };
    assert_eq!(
        all.prompt(&all.get_statuses(), 7),
        "Delete ALL 7 issue(s) permanently? This cannot be undone. [y/N] "
    );
    let none = TruncateArgs { status: vec![], all: false, yes: false };
    assert_eq!(none.prompt(&vec![Status::Done], 2), "Delete 2 done issue(s) permanently? [y/N] ");
    assert_eq!(
        none.prompt(&vec![Status::Review, Status::Todo], 3),
        "Delete 3 issue(s) with status [review, todo]? [y/N] "
    );
    assert_eq!(join_labels(&vec![]), "");
    assert_eq!(deleted_message(4), "Deleted 4 issue(s).");
}

#[test]
fn confirmations() {
    assert!(is_yes("y"));
    assert!(is_yes(" Y\n"));
    assert!(!is_yes("yes"));
    assert!(!is_yes(""));
    assert!(!is_yes("n"));
}

#[test]
fn plan_checks() {
    assert_eq!(
        PlanArgs { assignee: Some("a".to_string()), phase: None }.check(),
        Err("--assignee requires --phase".to_string())
    );
    assert!(PlanArgs { assignee: Some("a".to_string()), phase: Some(1) }.check().is_ok());
    assert!(PlanArgs { assignee: None, phase: None }.check().is_ok());
    assert_eq!(check_phase(0, 3), Err("phase 0 does not exist (plan has 3 phases)".to_string()));
    assert_eq!(check_phase(2, 1), Err("phase 2 does not exist (plan has 1 phase)".to_string()));
    assert!(check_phase(3, 3).is_ok());
    assert_eq!(phase_message(2, 3), "Phase 2: 3 issue(s).");
    assert_eq!(phase_heading(2, 1), "Phase 2 (1 issue):");
    assert_eq!(phase_heading(2, 0), "Phase 2 (0 issues):");
}

#[test]
fn phase_issues_filter_by_assignee() {
    let phases = vec![
        Phase { number: 1, issues: vec![issue(1, Some("a")), issue(2, None)] },
        Phase { number: 2, issues: vec![issue(3, Some("a")), issue(4, Some("b")), issue(5, Some("a"))] },
    ];
    let ids = |v: Vec<Issue>| v.iter().map(|i| i.id).collect::<Vec<_>>();
    assert_eq!(ids(phase_issues(&phases, 2, &None)), vec![3, 4, 5]);
    assert_eq!(ids(phase_issues(&phases, 2, &Some("a".to_string()))), vec![3, 5]);
    assert_eq!(ids(phase_issues(&phases, 3, &None)), Vec::<i64>::new());
}

#[test]
fn next_takes_the_first_ready_issues() {
    let ready = vec![issue(1, Some("a")), issue(2, None), issue(3, Some("a")), issue(4, Some("a"))];
    let ids = |v: Vec<Issue>| v.iter().map(|i| i.id).collect::<Vec<_>>();
    assert_eq!(ids(NextArgs { assignee: None, limit: 10 }.select(&ready)), vec![1, 2, 3, 4]);
    assert_eq!(ids(NextArgs { assignee: None, limit: 2 }.select(&ready)), vec![1, 2]);
    assert_eq!(ids(NextArgs { assignee: Some("a".to_string()), limit: 2 }.select(&ready)), vec![1, 3]);
    assert_eq!(ids(NextArgs { assignee: Some("z".to_string()), limit: 2 }.select(&ready)), Vec::<i64>::new());
}

#[test]
fn board_and_list_filters() {
    let b = BoardArgs { label: vec!["x".to_string()], priority: vec![], assignee: None }.filter_builder();
    assert!(!b.findall && b.include_done);
    assert_eq!(b.limit, 0);
    assert_eq!(b.labels, vec!["x".to_string()]);
    let mut high = BoardArgs { label: vec![], priority: vec!["high".to_string()], assignee: None }
        .filter_builder()
        .build()
        .unwrap();
    let q = high.into_issue_query();
    assert_eq!(q.priority, Some(vec![Priority::High]));
    assert_eq!(q.limit, None);
    assert!(matches!(q.status, bmo::model::issue::StatusClause::Any));
    let f = board_filter();
    assert!(f.findall && f.limit == 500 && f.labels.is_empty());
    let l = ListArgs {
        status: vec!["todo".to_string()],
        priority: vec![],
        kind: vec![],
        assignee: None,
        label: vec![],
        parent: None,
        search: Some("x".to_string()),
        limit: 50,
        sort: None,
        all: true,
    }
    .filter_builder();
    assert!(l.include_done && !l.findall);
    assert_eq!(l.limit, 50);
    let filter = l.build().unwrap();
    assert_eq!(filter.status, Some(vec![Status::Todo]));
    assert_eq!(filter.limit, Some(50));
}

#[test]
fn web_url_and_init_config() {
    let w = WebArgs { port: 7777, host: "127.0.0.1".to_string(), no_open: true };
    assert_eq!(w.url(), "http://127.0.0.1:7777");
    let c = InitArgs { name: Some("demo".to_string()) }.initial_config();
    assert_eq!(c.project_name.as_deref(), Some("demo"));
    assert!(c.default_assignee.is_none() && c.web_port.is_none() && c.web_host.is_none());
}

#[test]
fn import_inputs() {
    let mut i = issue(4, Some("a"));
    i.parent_id = Some(1);
    i.labels = vec!["l".to_string()];
    let input = issue_import_input(&i);
    assert_eq!(input.actor.as_deref(), Some("import"));
    assert_eq!(input.parent_id, Some(1));
    assert_eq!(input.labels, vec!["l".to_string()]);
    let c = Comment {
        id: 1,
        issue_id: 4,
        body: "b".to_string(),
        author: Some("x".to_string()),
        created_at: "2024-01-01T00:00:00+00:00".to_string(),
    };
    let ci = comment_import_input(&c);
    assert_eq!((ci.issue_id, ci.body.as_str(), ci.author.as_deref()), (4, "b", Some("x")));
    assert_eq!(imported_message(3, 0), "Imported 3 issue(s) and 0 comment(s)");
}

#[test]
fn graph_blockers_and_blocking() {
    let rels = vec![
        Relation { id: 1, from_id: 5, to_id: 6, kind: RelationKind::Blocks },
        Relation { id: 2, from_id: 7, to_id: 5, kind: RelationKind::Blocks },
        Relation { id: 3, from_id: 5, to_id: 8, kind: RelationKind::BlockedBy },
        Relation { id: 4, from_id: 9, to_id: 5, kind: RelationKind::BlockedBy },
        Relation { id: 5, from_id: 5, to_id: 10, kind: RelationKind::RelatesTo },
    ];
    let ids = |v: Vec<Relation>| v.iter().map(|r| r.id).collect::<Vec<_>>();
    assert_eq!(ids(blockers(&rels, 5)), vec![2, 3]);
    assert_eq!(ids(blocking(&rels, 5)), vec![1, 4]);
    assert_eq!(other_end(&rels[0], 5), 6);
    assert_eq!(other_end(&rels[1], 5), 7);
}

#[test]
fn conflict_totals() {
    let ci = |id: i64| ConflictingIssue { id, title: "t".to_string(), status: "in-progress".to_string() };
    let v = vec![
        FileConflict { file: "a".to_string(), conflicts_with: vec![ci(1), ci(2)] },
        FileConflict { file: "b".to_string(), conflicts_with: vec![ci(3)] },
    ];
    assert_eq!(total_conflicts(&v), 3);
    assert_eq!(total_conflicts(&vec![]), 0);
}

#[test]
fn parse_id_reads_numbers_as_i64_parsing_does() {
    assert_eq!(parse_id("9223372036854775807").unwrap(), i64::MAX);
    assert_eq!(parse_id("-9223372036854775808").unwrap(), i64::MIN);
    assert_eq!(parse_id("BMO-007").unwrap(), 7);
    assert_eq!(parse_id("-0").unwrap(), 0);
    assert_eq!(parse_id("\u{3000}42\u{a0}").unwrap(), 42);
    for bad in ["9223372036854775808", "-9223372036854775809", "-", "+", "+-1", "١٢", "\u{200b}1"] {
        assert!(parse_id(bad).is_err(), "{bad:?}");
    }
}
