use bmo::model::issue::{Issue, IssueFilter, Kind, Priority, Status, StatusClause};
use bmo::model::relation::RelationKind;
use bmo::errors::ParseError;

fn issue(id: i64) -> Issue {
    Issue {
        id,
        parent_id: None,
        title: "test".to_string(),
        description: String::new(),
        status: Status::Todo,
        priority: Priority::Medium,
        kind: Kind::Task,
        assignee: None,
        labels: vec![],
        files: vec![],
        created_at: chrono::Utc::now().to_rfc3339(),
        updated_at: chrono::Utc::now().to_rfc3339(),
    }
}

#[test]
fn status_round_trip() {
    for s in Status::all() {
        let label = s.label();
        let parsed: Status = label.parse().unwrap();
        assert_eq!(*s, parsed);
    }
}

#[test]
fn status_in_progress_aliases() {
    assert_eq!("in-progress".parse::<Status>().unwrap(), Status::InProgress);
    assert_eq!("in_progress".parse::<Status>().unwrap(), Status::InProgress);
}

#[test]
fn priority_ordering() {
    assert!(Priority::Critical > Priority::High);
    assert!(Priority::High > Priority::Medium);
    assert!(Priority::Medium > Priority::Low);
    assert!(Priority::Low > Priority::Unset);
}

#[test]
fn kind_round_trip() {
    for k in [Kind::Bug, Kind::Feature, Kind::Task, Kind::Epic, Kind::Chore] {
        let label = k.label();
        let parsed: Kind = label.parse().unwrap();
        assert_eq!(k, parsed);
    }
}

#[test]
fn display_id() {
    let issue = issue(42);
    assert_eq!(issue.display_id(), "BMO-42");
}

#[test]
fn relation_kind_round_trip() {
    let kinds = [
        RelationKind::Blocks,
        RelationKind::BlockedBy,
        RelationKind::DependsOn,
        RelationKind::DependencyOf,
        RelationKind::RelatesTo,
        RelationKind::Duplicates,
        RelationKind::DuplicateOf,
    ];
    for k in kinds {
        let label = k.label();
        let parsed: RelationKind = label.parse().unwrap();
        assert_eq!(k, parsed, "round trip failed for {label}");
    }
}

#[test]
fn inverse_pairs() {
    assert_eq!(RelationKind::Blocks.inverse(), RelationKind::BlockedBy);
    assert_eq!(RelationKind::DependsOn.inverse(), RelationKind::DependencyOf);
    assert_eq!(RelationKind::RelatesTo.inverse(), RelationKind::RelatesTo);
}

#[test]
fn inverse_twice_gives_back_the_kind() {
    for k in [
        RelationKind::Blocks,
        RelationKind::BlockedBy,
        RelationKind::DependsOn,
        RelationKind::DependencyOf,
        RelationKind::RelatesTo,
        RelationKind::Duplicates,
        RelationKind::DuplicateOf,
    ] {
        assert_eq!(k.inverse().inverse(), k);
        assert!(!(k.is_dag_edge() && k.inverse().is_dag_edge()));
    }
    assert!(RelationKind::Blocks.is_dag_edge());
    assert!(RelationKind::DependsOn.is_dag_edge());
    assert!(!RelationKind::RelatesTo.is_dag_edge());
}

#[test]
fn parsing_ignores_case() {
    assert_eq!(Status::parse("TODO").unwrap(), Status::Todo);
    assert_eq!(Status::parse("InProgress").unwrap(), Status::InProgress);
    assert_eq!(Priority::parse("HIGH").unwrap(), Priority::High);
    assert_eq!(Kind::parse("Bug").unwrap(), Kind::Bug);
    assert_eq!(RelationKind::parse("BLOCKED_BY").unwrap(), RelationKind::BlockedBy);
    assert_eq!(RelationKind::parse("depends_on").unwrap(), RelationKind::DependsOn);
}

#[test]
fn unknown_names_are_refused() {
    match Status::parse("finished") {
        Err(ParseError::UnknownStatus(t)) => assert_eq!(t, "finished"),
        other => panic!("unexpected {:?}", other),
    }
    match Priority::parse("urgent") {
        Err(ParseError::UnknownPriority(t)) => assert_eq!(t, "urgent"),
        other => panic!("unexpected {:?}", other),
    }
    match Kind::parse("story") {
        Err(ParseError::UnknownKind(t)) => assert_eq!(t, "story"),
        other => panic!("unexpected {:?}", other),
    }
    match RelationKind::parse("parent-of") {
        Err(ParseError::UnknownRelationKind(t)) => assert_eq!(t, "parent-of"),
        other => panic!("unexpected {:?}", other),
    }
    assert_eq!(ParseError::UnknownStatus("x".to_string()).message(), "unknown status: x");
}

#[test]
fn labels_and_icons() {
    assert_eq!(Status::InProgress.label(), "in-progress");
    assert_eq!(Status::Done.icon(), "✔");
    assert_eq!(Priority::Unset.label(), "none");
    assert_eq!(Priority::Critical.icon(), "⏫");
    assert_eq!(Kind::Epic.label(), "epic");
    assert_eq!(RelationKind::DuplicateOf.label(), "duplicate-of");
    let all: Vec<Status> = Status::all().to_vec();
    assert_eq!(
        all,
        vec![Status::Backlog, Status::Todo, Status::InProgress, Status::Review, Status::Done]
    );
}

#[test]
fn priority_comparisons_follow_rank() {
    let order = [Priority::Unset, Priority::Low, Priority::Medium, Priority::High, Priority::Critical];
    for (i, a) in order.iter().enumerate() {
        for (j, b) in order.iter().enumerate() {
            assert_eq!(a < b, i < j);
            assert_eq!(a.order() < b.order(), i < j);
        }
    }
}

#[test]
fn display_id_of_negative_and_large_numbers() {
    assert_eq!(issue(-7).display_id(), "BMO--7");
    assert_eq!(issue(i64::MAX).display_id(), "BMO-9223372036854775807");
    assert_eq!(issue(0).display_id(), "BMO-0");
}

#[test]
fn default_filter_leaves_out_done_issues() {
    let mut f = IssueFilter::default();
    let q = f.into_issue_query();
    assert!(matches!(q.status, StatusClause::Not(Status::Done)));
    let mut all = IssueFilter::all();
    let q = all.into_issue_query();
    assert!(matches!(q.status, StatusClause::Any));
}

#[test]
fn issue_clone_keeps_every_field() {
    let mut a = issue(3);
    a.labels = vec!["x".to_string()];
    a.assignee = Some("ann".to_string());
    let b = a.clone();
    assert_eq!(b.id, 3);
    assert_eq!(b.labels, vec!["x".to_string()]);
    assert_eq!(b.assignee.as_deref(), Some("ann"));
    assert_eq!(b.created_at, a.created_at);
}

#[test]
fn listed_issues_are_ordered_by_priority_rank() {
    assert_eq!(
        bmo::model::issue::priority_rank_sql(),
        "CASE priority WHEN 'none' THEN 0 WHEN 'low' THEN 1 WHEN 'medium' THEN 2 WHEN 'high' THEN 3 \
         WHEN 'critical' THEN 4 ELSE 0 END"
    );
}

#[test]
fn underscores_become_dashes() {
    assert_eq!(bmo::text::underscores_to_dashes("blocked_by"), "blocked-by");
    assert_eq!(bmo::text::underscores_to_dashes("__é_"), "--é-");
    assert_eq!(bmo::text::underscores_to_dashes(""), "");
}
