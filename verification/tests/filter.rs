use bmo::errors::ParseError;
use bmo::filter::FilterBuilder;
use bmo::model::issue::{Priority, Status, StatusClause};

#[test]
fn build_reads_every_list() {
    let mut b = FilterBuilder::default();
    b.statuses = vec!["todo".to_string(), "IN_PROGRESS".to_string()];
    b.priorities = vec!["high".to_string()];
    b.parent_id = Some("BMO-4".to_string());
    b.limit = 20;
    let f = b.build().unwrap();
    assert_eq!(f.status, Some(vec![Status::Todo, Status::InProgress]));
    assert_eq!(f.priority, Some(vec![Priority::High]));
    assert_eq!(f.kind, None);
    assert_eq!(f.parent_id, Some(4));
    assert_eq!(f.limit, Some(20));
    assert_eq!(f.offset, None);
    assert_eq!(f.labels, None);
}

#[test]
fn build_reports_the_first_refusal() {
    let mut b = FilterBuilder::default();
    b.statuses = vec!["todo".to_string(), "later".to_string(), "never".to_string()];
    b.priorities = vec!["huge".to_string()];
    assert!(matches!(b.build(), Err(ParseError::UnknownStatus(t)) if t == "later"));
    let mut b = FilterBuilder::default();
    b.priorities = vec!["huge".to_string()];
    b.kinds = vec!["story".to_string()];
    assert!(matches!(b.build(), Err(ParseError::UnknownPriority(t)) if t == "huge"));
    let mut b = FilterBuilder::default();
    b.kinds = vec!["story".to_string()];
    assert!(matches!(b.build(), Err(ParseError::UnknownKind(t)) if t == "story"));
    let mut b = FilterBuilder::default();
    b.parent_id = Some("p".to_string());
    assert!(matches!(b.build(), Err(ParseError::InvalidIssueId(t)) if t == "p"));
}

#[test]
fn include_done_with_a_priority_filter_keeps_done_issues() {
    let mut b = FilterBuilder::default();
    b.priorities = vec!["high".to_string()];
    b.include_done = true;
    let mut f = b.build().unwrap();
    let q = f.into_issue_query();
    assert!(matches!(q.status, StatusClause::Any));
    assert_eq!(q.priority, Some(vec![Priority::High]));
}

#[test]
fn statuses_given_replace_the_done_exclusion() {
    let mut b = FilterBuilder::default();
    b.statuses = vec!["done".to_string()];
    let mut f = b.build().unwrap();
    let q = f.into_issue_query();
    match q.status {
        StatusClause::In(v) => assert_eq!(v, vec![Status::Done]),
        _ => panic!("expected a status list"),
    }
}

#[test]
fn an_all_issues_query_keeps_the_listing_order() {
    let mut f = bmo::model::issue::IssueFilter::all();
    let q = f.into_issue_query();
    assert!(matches!(q.status, StatusClause::Any));
    assert!(q.ordered);
    assert_eq!(q.limit, None);
    assert_eq!(q.offset, None);
}
