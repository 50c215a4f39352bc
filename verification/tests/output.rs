use bmo::config::{Config, ConfigError};
use bmo::model::issue::{Issue, Kind, Priority, Status};
use bmo::model::relation::{Relation, RelationKind};
use bmo::output::{count_message, human_printer_for, relation_direction, BoardColumns, HumanPrinter, OutputMode};

fn issue(id: i64, status: Status) -> Issue {
    Issue {
        id,
        parent_id: None,
        title: format!("issue {id}"),
        description: String::new(),
        status,
        priority: Priority::Medium,
        kind: Kind::Task,
        assignee: None,
        labels: vec![],
        files: vec![],
        created_at: "2024-01-01T00:00:00+00:00".to_string(),
        updated_at: "2024-01-01T00:00:00+00:00".to_string(),
    }
}

#[test]
fn board_splits_by_status_in_order() {
    let issues = vec![
        issue(1, Status::Todo),
        issue(2, Status::Done),
        issue(3, Status::Todo),
        issue(4, Status::InProgress),
        issue(5, Status::Backlog),
    ];
    let b = BoardColumns::from_issues(&issues);
    let ids = |v: &Vec<Issue>| v.iter().map(|i| i.id).collect::<Vec<_>>();
    assert_eq!(ids(&b.todo), vec![1, 3]);
    assert_eq!(ids(&b.done), vec![2]);
    assert_eq!(ids(&b.in_progress), vec![4]);
    assert_eq!(ids(&b.backlog), vec![5]);
    assert!(b.review.is_empty());
}

#[test]
fn printers() {
    assert!(!HumanPrinter::new().is_oneline());
    assert!(HumanPrinter::oneline().is_oneline());
    assert!(!HumanPrinter::default().is_oneline());
    assert!(human_printer_for(OutputMode::Json).is_none());
    assert!(human_printer_for(OutputMode::Oneline).unwrap().is_oneline());
    assert!(!human_printer_for(OutputMode::Human).unwrap().is_oneline());
}

#[test]
fn relation_directions() {
    let r = |kind| Relation { id: 1, from_id: 3, to_id: 4, kind };
    assert_eq!(relation_direction(&r(RelationKind::Blocks)), "→ blocks BMO-4");
    assert_eq!(relation_direction(&r(RelationKind::BlockedBy)), "← blocked by BMO-3");
    assert_eq!(relation_direction(&r(RelationKind::DependsOn)), "→ depends on BMO-4");
    assert_eq!(relation_direction(&r(RelationKind::DependencyOf)), "← dependency of BMO-3");
    assert_eq!(relation_direction(&r(RelationKind::RelatesTo)), "↔ relates to BMO-4");
    assert_eq!(relation_direction(&r(RelationKind::Duplicates)), "→ duplicates BMO-4");
    assert_eq!(relation_direction(&r(RelationKind::DuplicateOf)), "← duplicate of BMO-3");
    assert_eq!(count_message(3, "issue"), "3 issue(s)");
    assert_eq!(count_message(0, "label"), "0 label(s)");
}

#[test]
fn config_defaults() {
    let c = Config::default();
    assert_eq!(c.web_port(), 7777);
    assert_eq!(c.web_host(), "127.0.0.1");
    assert_eq!(c.get("project_name").unwrap(), "");
    assert_eq!(c.get("web_port").unwrap(), "7777");
}

#[test]
fn config_set_and_get() {
    let mut c = Config::default();
    c.set("project_name=demo=x").unwrap();
    assert_eq!(c.project_name.as_deref(), Some("demo=x"));
    c.set("web_port=8080").unwrap();
    assert_eq!(c.web_port(), 8080);
    assert_eq!(c.get("web_port").unwrap(), "8080");
    c.set("web_host=0.0.0.0").unwrap();
    assert_eq!(c.web_host(), "0.0.0.0");
    c.set("default_assignee=ann").unwrap();
    assert_eq!(c.get("default_assignee").unwrap(), "ann");
}

#[test]
fn config_refusals() {
    let mut c = Config::default();
    assert!(matches!(c.set("web_port"), Err(ConfigError::MissingEquals)));
    assert!(matches!(c.set("web_port=http"), Err(ConfigError::BadPort)));
    assert!(matches!(c.set("web_port=70000"), Err(ConfigError::BadPort)));
    assert_eq!(c.web_port(), 7777);
    match c.set("colour=red") {
        Err(ConfigError::UnknownKey(k)) => assert_eq!(k, "colour"),
        other => panic!("{other:?}"),
    }
    match c.get("colour") {
        Err(e) => assert_eq!(e.message(), "unknown config key: colour"),
        Ok(v) => panic!("{v}"),
    }
    assert_eq!(ConfigError::MissingEquals.message(), "--set requires key=value format");
    assert_eq!(ConfigError::BadPort.message(), "web_port must be a number");
}

#[test]
fn config_ports_read_as_u16_parsing_does() {
    let mut c = Config::default();
    c.set("web_port=+65535").unwrap();
    assert_eq!(c.web_port(), 65535);
    c.set("web_port=0").unwrap();
    assert_eq!(c.web_port(), 0);
    for bad in ["web_port=65536", "web_port=-1", "web_port=", "web_port= 80", "web_port=+"] {
        assert!(matches!(c.set(bad), Err(ConfigError::BadPort)), "{bad:?}");
    }
    assert_eq!(c.web_port(), 0);
    c.set("web_host=a=b").unwrap();
    assert_eq!(c.web_host(), "a=b");
}
