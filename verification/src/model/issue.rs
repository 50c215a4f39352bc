//! Issues and the values that classify them.

use std::str::FromStr;

use vstd::prelude::*;

use crate::errors::ParseError;
use crate::text::{
    lemma_ascii_lower_fixed, ascii_lower, concat, concat3, owned, clone_strings, decimal, decimal_text, is_ascii_char, is_ascii_text, texts, lowercase_of, str_eq, to_lowercase,
};

verus! {

// ── Status ────────────────────────────────────────────────────────────────────

/// Workflow state of an issue.
#[derive(Debug, Clone, Copy, PartialEq, Eq, Hash, Structural)]
pub enum Status {
    /// Not yet scheduled for active work.
    Backlog,
    /// Scheduled and ready to start.
    Todo,
    /// Currently being worked on.
    InProgress,
    /// Work complete, awaiting review.
    Review,
    /// Closed and resolved.
    Done,
}

impl Status {
    pub open spec fn spec_icon(self) -> Seq<char> {
        match self {
            Status::Backlog => "○"@,
            Status::Todo => "●"@,
            Status::InProgress => "◐"@,
            Status::Review => "◎"@,
            Status::Done => "✔"@,
        }
    }

    pub fn icon(self) -> (r: &'static str)
        ensures
            r@ == self.spec_icon(),
    {
        match self {
            Status::Backlog => "○",
            Status::Todo => "●",
            Status::InProgress => "◐",
            Status::Review => "◎",
            Status::Done => "✔",
        }
    }

    pub open spec fn spec_label(self) -> Seq<char> {
        match self {
            Status::Backlog => "backlog"@,
            Status::Todo => "todo"@,
            Status::InProgress => "in-progress"@,
            Status::Review => "review"@,
            Status::Done => "done"@,
        }
    }

    /// The text by which the status is stored, shown and parsed.
    pub fn label(self) -> (r: &'static str)
        ensures
            r@ == self.spec_label(),
    {
        match self {
            Status::Backlog => "backlog",
            Status::Todo => "todo",
            Status::InProgress => "in-progress",
            Status::Review => "review",
            Status::Done => "done",
        }
    }

    /// The statuses in workflow order.
    pub open spec fn spec_all() -> Seq<Status> {
        seq![Status::Backlog, Status::Todo, Status::InProgress, Status::Review, Status::Done]
    }

    pub fn all() -> (r: &'static [Status])
        ensures
            r@ == Self::spec_all(),
    {
        let r: &'static [Status] = &[Status::Backlog, Status::Todo, Status::InProgress, Status::Review, Status::Done];
        assert(r@ =~= Self::spec_all());
        r
    }

    /// The status that a lower-cased text names: a label, or one of the
    /// spellings `in_progress` and `inprogress` of `in-progress`.
    pub open spec fn from_lower(l: Seq<char>) -> Option<Status> {
        if l == "backlog"@ {
            Some(Status::Backlog)
        } else if l == "todo"@ {
            Some(Status::Todo)
        } else if l == "in-progress"@ || l == "in_progress"@ || l == "inprogress"@ {
            Some(Status::InProgress)
        } else if l == "review"@ {
            Some(Status::Review)
        } else if l == "done"@ {
            Some(Status::Done)
        } else {
            None
        }
    }

    /// Reads a status, ignoring case.
    pub fn parse(s: &str) -> (r: Result<Status, ParseError>)
        ensures
            match Self::from_lower(lowercase_of(s@)) {
                Some(st) => r == Ok::<Status, ParseError>(st),
                None => r matches Err(ParseError::UnknownStatus(t)) && t@ == s@,
            },
            is_ascii_text(s@) ==> Self::from_lower(lowercase_of(s@)) == Self::from_lower(ascii_lower(s@)),
    {
        let l = to_lowercase(s);
        let l = l.as_str();
        if str_eq(l, "backlog") {
            Ok(Status::Backlog)
        } else if str_eq(l, "todo") {
            Ok(Status::Todo)
        } else if str_eq(l, "in-progress") || str_eq(l, "in_progress") || str_eq(l, "inprogress") {
            Ok(Status::InProgress)
        } else if str_eq(l, "review") {
            Ok(Status::Review)
        } else if str_eq(l, "done") {
            Ok(Status::Done)
        } else {
            Err(ParseError::UnknownStatus(owned(s)))
        }
    }
}

impl FromStr for Status {
    type Err = ParseError;

    /// Reads a status as `Status::parse` does.
    fn from_str(s: &str) -> (r: Result<Status, ParseError>)
        ensures
            match Status::from_lower(lowercase_of(s@)) {
                Some(st) => r == Ok::<Status, ParseError>(st),
                None => r matches Err(ParseError::UnknownStatus(t)) && t@ == s@,
            },
            is_ascii_text(s@) ==> Status::from_lower(lowercase_of(s@)) == Status::from_lower(ascii_lower(s@)),
    {
        Status::parse(s)
    }
}

// ── Priority ──────────────────────────────────────────────────────────────────

/// Relative urgency of an issue. Variants are ordered from lowest to highest.
#[derive(Debug, Clone, Copy, PartialEq, Eq, Ord, Hash, Structural)]
pub enum Priority {
    /// No priority assigned.
    Unset,
    /// Low urgency.
    Low,
    /// Normal urgency.
    Medium,
    /// Elevated urgency.
    High,
    /// Requires immediate attention.
    Critical,
}

impl Priority {
    /// The place of the priority in the order, lowest first.
    pub open spec fn rank(self) -> int {
        match self {
            Priority::Unset => 0,
            Priority::Low => 1,
            Priority::Medium => 2,
            Priority::High => 3,
            Priority::Critical => 4,
        }
    }

    /// The place of the priority in the order, lowest first.
    pub fn order(self) -> (r: u8)
        ensures
            r as int == self.rank(),
    {
        match self {
            Priority::Unset => 0,
            Priority::Low => 1,
            Priority::Medium => 2,
            Priority::High => 3,
            Priority::Critical => 4,
        }
    }

    pub open spec fn spec_icon(self) -> Seq<char> {
        match self {
            Priority::Critical => "⏫"@,
            Priority::High => "↑"@,
            Priority::Medium => "↔"@,
            Priority::Low => "↓"@,
            Priority::Unset => "•"@,
        }
    }

    pub fn icon(self) -> (r: &'static str)
        ensures
            r@ == self.spec_icon(),
    {
        match self {
            Priority::Critical => "⏫",
            Priority::High => "↑",
            Priority::Medium => "↔",
            Priority::Low => "↓",
            Priority::Unset => "•",
        }
    }

    pub open spec fn spec_label(self) -> Seq<char> {
        match self {
            Priority::Critical => "critical"@,
            Priority::High => "high"@,
            Priority::Medium => "medium"@,
            Priority::Low => "low"@,
            Priority::Unset => "none"@,
        }
    }

    /// The text by which the priority is stored, shown and parsed.
    pub fn label(self) -> (r: &'static str)
        ensures
            r@ == self.spec_label(),
    {
        match self {
            Priority::Critical => "critical",
            Priority::High => "high",
            Priority::Medium => "medium",
            Priority::Low => "low",
            Priority::Unset => "none",
        }
    }

    /// The priority that a lower-cased text names.
    pub open spec fn from_lower(l: Seq<char>) -> Option<Priority> {
        if l == "critical"@ {
            Some(Priority::Critical)
        } else if l == "high"@ {
            Some(Priority::High)
        } else if l == "medium"@ {
            Some(Priority::Medium)
        } else if l == "low"@ {
            Some(Priority::Low)
        } else if l == "none"@ {
            Some(Priority::Unset)
        } else {
            None
        }
    }

    /// Reads a priority, ignoring case.
    pub fn parse(s: &str) -> (r: Result<Priority, ParseError>)
        ensures
            match Self::from_lower(lowercase_of(s@)) {
                Some(p) => r == Ok::<Priority, ParseError>(p),
                None => r matches Err(ParseError::UnknownPriority(t)) && t@ == s@,
            },
            is_ascii_text(s@) ==> Self::from_lower(lowercase_of(s@)) == Self::from_lower(ascii_lower(s@)),
    {
        let l = to_lowercase(s);
        let l = l.as_str();
        if str_eq(l, "critical") {
            Ok(Priority::Critical)
        } else if str_eq(l, "high") {
            Ok(Priority::High)
        } else if str_eq(l, "medium") {
            Ok(Priority::Medium)
        } else if str_eq(l, "low") {
            Ok(Priority::Low)
        } else if str_eq(l, "none") {
            Ok(Priority::Unset)
        } else {
            Err(ParseError::UnknownPriority(owned(s)))
        }
    }
}

impl FromStr for Priority {
    type Err = ParseError;

    /// Reads a priority as `Priority::parse` does.
    fn from_str(s: &str) -> (r: Result<Priority, ParseError>)
        ensures
            match Priority::from_lower(lowercase_of(s@)) {
                Some(v) => r == Ok::<Priority, ParseError>(v),
                None => r matches Err(ParseError::UnknownPriority(t)) && t@ == s@,
            },
            is_ascii_text(s@) ==> Priority::from_lower(lowercase_of(s@)) == Priority::from_lower(ascii_lower(s@)),
    {
        Priority::parse(s)
    }
}

// ── Kind ──────────────────────────────────────────────────────────────────────

/// Classification of an issue by type of work.
#[derive(Debug, Clone, Copy, PartialEq, Eq, Hash, Structural)]
pub enum Kind {
    /// A defect or regression to fix.
    Bug,
    /// New functionality to add.
    Feature,
    /// A discrete unit of work.
    Task,
    /// A large body of work spanning multiple issues.
    Epic,
    /// Maintenance or non-functional work.
    Chore,
}

impl Kind {
    pub open spec fn spec_icon(self) -> Seq<char> {
        match self {
            Kind::Bug => "■"@,
            Kind::Feature => "✦"@,
            Kind::Task => "▶"@,
            Kind::Epic => "⬡"@,
            Kind::Chore => "⚒"@,
        }
    }

    pub fn icon(self) -> (r: &'static str)
        ensures
            r@ == self.spec_icon(),
    {
        match self {
            Kind::Bug => "■",
            Kind::Feature => "✦",
            Kind::Task => "▶",
            Kind::Epic => "⬡",
            Kind::Chore => "⚒",
        }
    }

    pub open spec fn spec_label(self) -> Seq<char> {
        match self {
            Kind::Bug => "bug"@,
            Kind::Feature => "feature"@,
            Kind::Task => "task"@,
            Kind::Epic => "epic"@,
            Kind::Chore => "chore"@,
        }
    }

    /// The text by which the kind is stored, shown and parsed.
    pub fn label(self) -> (r: &'static str)
        ensures
            r@ == self.spec_label(),
    {
        match self {
            Kind::Bug => "bug",
            Kind::Feature => "feature",
            Kind::Task => "task",
            Kind::Epic => "epic",
            Kind::Chore => "chore",
        }
    }

    /// The kind that a lower-cased text names.
    pub open spec fn from_lower(l: Seq<char>) -> Option<Kind> {
        if l == "bug"@ {
            Some(Kind::Bug)
        } else if l == "feature"@ {
            Some(Kind::Feature)
        } else if l == "task"@ {
            Some(Kind::Task)
        } else if l == "epic"@ {
            Some(Kind::Epic)
        } else if l == "chore"@ {
            Some(Kind::Chore)
        } else {
            None
        }
    }

    /// Reads a kind, ignoring case.
    pub fn parse(s: &str) -> (r: Result<Kind, ParseError>)
        ensures
            match Self::from_lower(lowercase_of(s@)) {
                Some(k) => r == Ok::<Kind, ParseError>(k),
                None => r matches Err(ParseError::UnknownKind(t)) && t@ == s@,
            },
            is_ascii_text(s@) ==> Self::from_lower(lowercase_of(s@)) == Self::from_lower(ascii_lower(s@)),
    {
        let l = to_lowercase(s);
        let l = l.as_str();
        if str_eq(l, "bug") {
            Ok(Kind::Bug)
        } else if str_eq(l, "feature") {
            Ok(Kind::Feature)
        } else if str_eq(l, "task") {
            Ok(Kind::Task)
        } else if str_eq(l, "epic") {
            Ok(Kind::Epic)
        } else if str_eq(l, "chore") {
            Ok(Kind::Chore)
        } else {
            Err(ParseError::UnknownKind(owned(s)))
        }
    }
}

impl FromStr for Kind {
    type Err = ParseError;

    /// Reads a kind as `Kind::parse` does.
    fn from_str(s: &str) -> (r: Result<Kind, ParseError>)
        ensures
            match Kind::from_lower(lowercase_of(s@)) {
                Some(v) => r == Ok::<Kind, ParseError>(v),
                None => r matches Err(ParseError::UnknownKind(t)) && t@ == s@,
            },
            is_ascii_text(s@) ==> Kind::from_lower(lowercase_of(s@)) == Kind::from_lower(ascii_lower(s@)),
    {
        Kind::parse(s)
    }
}

/// Every status label is ASCII text that, read back, names the same status.
pub proof fn lemma_status_label_round_trip(st: Status)
    ensures
        is_ascii_text(st.spec_label()),
        Status::from_lower(ascii_lower(st.spec_label())) == Some(st),
{
    reveal_strlit("backlog");
    reveal_strlit("todo");
    reveal_strlit("in-progress");
    reveal_strlit("in_progress");
    reveal_strlit("inprogress");
    reveal_strlit("review");
    reveal_strlit("done");
    let l = st.spec_label();
    assert forall|i: int| 0 <= i < l.len() implies #[trigger] l[i] < 'A' || 'Z' < l[i] by {}
    assert forall|i: int| 0 <= i < l.len() implies is_ascii_char(#[trigger] l[i]) by {}
    lemma_ascii_lower_fixed(l);
    assert("backlog"@.len() == 7 && "todo"@.len() == 4 && "in-progress"@.len() == 11);
    assert("in_progress"@.len() == 11 && "inprogress"@.len() == 10 && "review"@.len() == 6);
    assert("done"@.len() == 4 && "done"@[0] != "todo"@[0]);
}

/// Every priority label is ASCII text that, read back, names the same priority.
pub proof fn lemma_priority_label_round_trip(p: Priority)
    ensures
        is_ascii_text(p.spec_label()),
        Priority::from_lower(ascii_lower(p.spec_label())) == Some(p),
{
    reveal_strlit("critical");
    reveal_strlit("high");
    reveal_strlit("medium");
    reveal_strlit("low");
    reveal_strlit("none");
    let l = p.spec_label();
    assert forall|i: int| 0 <= i < l.len() implies #[trigger] l[i] < 'A' || 'Z' < l[i] by {}
    assert forall|i: int| 0 <= i < l.len() implies is_ascii_char(#[trigger] l[i]) by {}
    lemma_ascii_lower_fixed(l);
    assert("critical"@.len() == 8 && "high"@.len() == 4 && "medium"@.len() == 6);
    assert("low"@.len() == 3 && "none"@.len() == 4 && "none"@[0] != "high"@[0]);
}

/// Every kind label is ASCII text that, read back, names the same kind.
pub proof fn lemma_kind_label_round_trip(k: Kind)
    ensures
        is_ascii_text(k.spec_label()),
        Kind::from_lower(ascii_lower(k.spec_label())) == Some(k),
{
    reveal_strlit("bug");
    reveal_strlit("feature");
    reveal_strlit("task");
    reveal_strlit("epic");
    reveal_strlit("chore");
    let l = k.spec_label();
    assert forall|i: int| 0 <= i < l.len() implies #[trigger] l[i] < 'A' || 'Z' < l[i] by {}
    assert forall|i: int| 0 <= i < l.len() implies is_ascii_char(#[trigger] l[i]) by {}
    lemma_ascii_lower_fixed(l);
    assert("bug"@.len() == 3 && "feature"@.len() == 7 && "task"@.len() == 4);
    assert("epic"@.len() == 4 && "chore"@.len() == 5 && "epic"@[0] != "task"@[0]);
}

/// `in-progress` may also be written `in_progress` or `inprogress`.
pub proof fn lemma_in_progress_spellings()
    ensures
        Status::from_lower("in_progress"@) == Some(Status::InProgress),
        Status::from_lower("inprogress"@) == Some(Status::InProgress),
        is_ascii_text("in_progress"@),
        ascii_lower("in_progress"@) == "in_progress"@,
{
    reveal_strlit("backlog");
    reveal_strlit("todo");
    reveal_strlit("in-progress");
    reveal_strlit("in_progress");
    reveal_strlit("inprogress");
    assert("backlog"@.len() == 7 && "todo"@.len() == 4 && "in-progress"@.len() == 11);
    assert("in_progress"@.len() == 11 && "inprogress"@.len() == 10);
    assert("in-progress"@[2] != "in_progress"@[2]);
    let l = "in_progress"@;
    assert forall|i: int| 0 <= i < l.len() implies #[trigger] l[i] < 'A' || 'Z' < l[i] by {}
    assert forall|i: int| 0 <= i < l.len() implies is_ascii_char(#[trigger] l[i]) by {}
    lemma_ascii_lower_fixed(l);
}

// ── Issue ─────────────────────────────────────────────────────────────────────

/// The value of an issue, with its texts as character sequences.
pub struct IssueView {
    pub id: i64,
    pub parent_id: Option<i64>,
    pub title: Seq<char>,
    pub description: Seq<char>,
    pub status: Status,
    pub priority: Priority,
    pub kind: Kind,
    pub assignee: Option<Seq<char>>,
    pub labels: Seq<Seq<char>>,
    pub files: Seq<Seq<char>>,
    pub created_at: Seq<char>,
    pub updated_at: Seq<char>,
}

pub open spec fn opt_text(s: Option<String>) -> Option<Seq<char>> {
    match s {
        Some(t) => Some(t@),
        None => None,
    }
}

/// A single tracked work item. Its time stamps are kept as the RFC 3339
/// text under which they are stored.
#[derive(Debug)]
pub struct Issue {
    /// Auto-assigned numeric identifier.
    pub id: i64,
    /// Parent issue id, if this is a sub-issue.
    pub parent_id: Option<i64>,
    pub title: String,
    pub description: String,
    pub status: Status,
    pub priority: Priority,
    pub kind: Kind,
    pub assignee: Option<String>,
    /// Labels attached to this issue (by name).
    pub labels: Vec<String>,
    /// File paths attached to this issue.
    pub files: Vec<String>,
    pub created_at: String,
    pub updated_at: String,
}

impl View for Issue {
    type V = IssueView;

    open spec fn view(&self) -> IssueView {
        IssueView {
            id: self.id,
            parent_id: self.parent_id,
            title: self.title@,
            description: self.description@,
            status: self.status,
            priority: self.priority,
            kind: self.kind,
            assignee: opt_text(self.assignee),
            labels: texts(self.labels@),
            files: texts(self.files@),
            created_at: self.created_at@,
            updated_at: self.updated_at@,
        }
    }
}

impl Clone for Issue {
    fn clone(&self) -> (r: Issue)
        ensures
            r@ == self@,
    {
        Issue {
            id: self.id,
            parent_id: self.parent_id,
            title: self.title.clone(),
            description: self.description.clone(),
            status: self.status,
            priority: self.priority,
            kind: self.kind,
            assignee: crate::text::clone_opt_string(&self.assignee),
            labels: clone_strings(&self.labels),
            files: clone_strings(&self.files),
            created_at: self.created_at.clone(),
            updated_at: self.updated_at.clone(),
        }
    }
}

/// The identifier under which an issue is shown: `BMO-` and its number.
pub open spec fn spec_display_id(id: i64) -> Seq<char> {
    "BMO-"@ + decimal_text(id as int)
}

impl Issue {
    pub fn display_id(&self) -> (r: String)
        ensures
            r@ == spec_display_id(self.id),
    {
        let n = decimal(self.id);
        concat("BMO-", n.as_str())
    }
}

/// The attachment of a label to an issue.
#[derive(Debug, Clone, Copy)]
pub struct IssueLabel {
    pub issue_id: i64,
    pub label_id: i64,
}

// ── IssueFilter ───────────────────────────────────────────────────────────────

/// Parameters for filtering issue queries. All fields are optional; unset fields are ignored.
#[derive(Debug)]
pub struct IssueFilter {
    pub status: Option<Vec<Status>>,
    pub priority: Option<Vec<Priority>>,
    pub kind: Option<Vec<Kind>>,
    pub assignee: Option<String>,
    pub labels: Option<Vec<String>>,
    pub parent_id: Option<i64>,
    pub search: Option<String>,
    pub limit: Option<usize>,
    pub offset: Option<usize>,
    /// By default the filter leaves out `done` issues; `true` removes that
    /// exclusion and leaves the other conditions in effect.
    pub include_done: bool,
    /// Short-circuits everything above and selects all issues.
    pub findall: bool,
}

impl IssueFilter {
    /// The filter with nothing set.
    pub open spec fn spec_default() -> IssueFilter {
        IssueFilter {
            status: None,
            priority: None,
            kind: None,
            assignee: None,
            labels: None,
            parent_id: None,
            search: None,
            limit: None,
            offset: None,
            include_done: false,
            findall: false,
        }
    }

    /// The filter that selects every issue.
    pub fn all() -> (r: IssueFilter)
        ensures
            r == (IssueFilter { findall: true, ..Self::spec_default() }),
    {
        IssueFilter {
            status: None,
            priority: None,
            kind: None,
            assignee: None,
            labels: None,
            parent_id: None,
            search: None,
            limit: None,
            offset: None,
            include_done: false,
            findall: true,
        }
    }
}

impl Default for IssueFilter {
    fn default() -> (r: IssueFilter)
        ensures
            r == IssueFilter::spec_default(),
    {
        IssueFilter {
            status: None,
            priority: None,
            kind: None,
            assignee: None,
            labels: None,
            parent_id: None,
            search: None,
            limit: None,
            offset: None,
            include_done: false,
            findall: false,
        }
    }
}

// ── IssueQuery ────────────────────────────────────────────────────────────────

/// The condition an issue query puts on the status column.
#[derive(Debug)]
pub enum StatusClause {
    /// No condition.
    Any,
    /// The status is one of these.
    In(Vec<Status>),
    /// The status is not this one.
    Not(Status),
}

/// A query over the issues table, described by its conditions, each of them
/// ANDed with the others: the description from which the SQL is built.
#[derive(Debug)]
pub struct IssueQuery {
    pub status: StatusClause,
    /// The priority is one of these.
    pub priority: Option<Vec<Priority>>,
    /// The kind is one of these.
    pub kind: Option<Vec<Kind>>,
    /// The assignee is this one.
    pub assignee: Option<String>,
    /// The parent is this issue.
    pub parent_id: Option<i64>,
    /// The title or the description contains this text.
    pub search: Option<String>,
    /// The issue carries every one of these labels.
    pub labels: Option<Vec<String>>,
    /// Rows come by priority rank (`Priority::rank`, as `priority_rank_sql`
    /// computes it from the stored label) descending, then id ascending.
    pub ordered: bool,
    pub limit: Option<usize>,
    pub offset: Option<usize>,
}

impl IssueFilter {
    /// Builds the query that the filter describes. A `findall` filter selects
    /// every row, in the listing order and unlimited, and is left as it was. Otherwise the
    /// status condition is the listed statuses, or, with none listed, "not
    /// done" unless `include_done` is set; the priority, kind, assignee, parent
    /// and search conditions are moved out of the filter into the query; the
    /// labels are copied; rows are ordered and limit and offset apply.
    pub fn into_issue_query(&mut self) -> (r: IssueQuery)
        ensures
            old(self).findall ==> {
                &&& r.status is Any
                &&& r.priority is None && r.kind is None && r.assignee is None
                &&& r.parent_id is None && r.search is None && r.labels is None
                &&& r.ordered && r.limit is None && r.offset is None
                &&& *final(self) == *old(self)
            },
            !old(self).findall ==> {
                &&& match old(self).status {
                    Some(v) => r.status matches StatusClause::In(w) && w@ == v@,
                    None => if old(self).include_done {
                        r.status is Any
                    } else {
                        r.status == StatusClause::Not(Status::Done)
                    },
                }
                &&& r.priority == old(self).priority
                &&& r.kind == old(self).kind
                &&& r.assignee == old(self).assignee
                &&& r.parent_id == old(self).parent_id
                &&& r.search == old(self).search
                &&& match old(self).labels {
                    Some(l) => r.labels matches Some(m) && m@ == l@,
                    None => r.labels is None,
                }
                &&& r.ordered
                &&& r.limit == old(self).limit
                &&& r.offset == old(self).offset
                &&& final(self).priority is None && final(self).kind is None
                &&& final(self).assignee is None && final(self).parent_id is None
                &&& final(self).search is None
                &&& final(self).status == old(self).status
                &&& final(self).labels == old(self).labels
                &&& final(self).limit == old(self).limit
                &&& final(self).offset == old(self).offset
                &&& final(self).include_done == old(self).include_done
                &&& final(self).findall == old(self).findall
            },
    {
        if self.findall {
            return IssueQuery {
                status: StatusClause::Any,
                priority: None,
                kind: None,
                assignee: None,
                parent_id: None,
                search: None,
                labels: None,
                ordered: true,
                limit: None,
                offset: None,
            };
        }
        let status = match &self.status {
            Some(v) => {
                let w = v.clone();
                assert(w@ =~= v@);
                StatusClause::In(w)
            },
            None => if self.include_done {
                StatusClause::Any
            } else {
                StatusClause::Not(Status::Done)
            },
        };
        let labels = match &self.labels {
            Some(l) => Some(clone_strings(l)),
            None => None,
        };
        IssueQuery {
            status,
            priority: self.priority.take(),
            kind: self.kind.take(),
            assignee: self.assignee.take(),
            parent_id: self.parent_id.take(),
            search: self.search.take(),
            labels,
            ordered: true,
            limit: self.limit,
            offset: self.offset,
        }
    }
}

// ── Order of listed issues ────────────────────────────────────────────────────

/// The branch of the rank expression for one priority: `WHEN 'high' THEN 3`.
pub open spec fn rank_branch(p: Priority) -> Seq<char> {
    " WHEN '"@ + p.spec_label() + "' THEN "@ + decimal_text(p.rank())
}

/// The SQL expression that gives a stored priority label its rank, the key
/// by which listed issues are ordered: each label its `Priority::rank`, and
/// text that names no priority the rank of an unset one, as a row reads it.
pub open spec fn spec_priority_rank_sql() -> Seq<char> {
    "CASE priority"@ + rank_branch(Priority::Unset) + rank_branch(Priority::Low) + rank_branch(Priority::Medium)
        + rank_branch(Priority::High) + rank_branch(Priority::Critical) + " ELSE 0 END"@
}

fn push_rank_branch(out: &mut String, p: Priority)
    ensures
        final(out)@ == old(out)@ + rank_branch(p),
{
    let n = decimal(p.order() as i64);
    let head = concat3(" WHEN '", p.label(), "' THEN ");
    out.append(head.as_str());
    out.append(n.as_str());
}

/// The rank of the stored priority, as SQL.
pub fn priority_rank_sql() -> (r: String)
    ensures
        r@ == spec_priority_rank_sql(),
{
    let mut out = owned("CASE priority");
    push_rank_branch(&mut out, Priority::Unset);
    push_rank_branch(&mut out, Priority::Low);
    push_rank_branch(&mut out, Priority::Medium);
    push_rank_branch(&mut out, Priority::High);
    push_rank_branch(&mut out, Priority::Critical);
    out.append(" ELSE 0 END");
    out
}

/// The rank expression gives `none` 0, `low` 1, `medium` 2, `high` 3 and
/// `critical` 4, and any other text 0: a higher priority ranks higher.
pub proof fn lemma_rank_sql_text()
    ensures
        spec_priority_rank_sql()
            == "CASE priority WHEN 'none' THEN 0 WHEN 'low' THEN 1 WHEN 'medium' THEN 2 WHEN 'high' THEN 3 WHEN 'critical' THEN 4 ELSE 0 END"@,
{
    reveal_strlit(
        "CASE priority WHEN 'none' THEN 0 WHEN 'low' THEN 1 WHEN 'medium' THEN 2 WHEN 'high' THEN 3 WHEN 'critical' THEN 4 ELSE 0 END",
    );
    reveal_strlit("CASE priority");
    reveal_strlit(" WHEN '");
    reveal_strlit("' THEN ");
    reveal_strlit(" ELSE 0 END");
    reveal_strlit("none");
    reveal_strlit("low");
    reveal_strlit("medium");
    reveal_strlit("high");
    reveal_strlit("critical");
    assert(decimal_text(0) =~= seq!['0']);
    assert(decimal_text(1) =~= seq!['1']);
    assert(decimal_text(2) =~= seq!['2']);
    assert(decimal_text(3) =~= seq!['3']);
    assert(decimal_text(4) =~= seq!['4']);
    assert(spec_priority_rank_sql()
        =~= "CASE priority WHEN 'none' THEN 0 WHEN 'low' THEN 1 WHEN 'medium' THEN 2 WHEN 'high' THEN 3 WHEN 'critical' THEN 4 ELSE 0 END"@);
}

} // verus!
