//! The SQL of an issue query: the SELECT that an `IssueQuery` stands for,
//! with its `?` placeholders and the values bound to them, in order.

use vstd::prelude::*;

use crate::db::rows::RowView;
use crate::db::{stored, ColumnValue, StoredValue};
use crate::model::issue::{
    lemma_rank_sql_text, priority_rank_sql, spec_priority_rank_sql, IssueQuery, Kind, Priority, Status, StatusClause,
};
use crate::text::{ascii_lower_char, concat3, count_decimal, decimal_text, owned, texts};

verus! {

/// The columns of an issue row, in the order `IssueRow` is read, from the issues table.
pub open spec fn select_head() -> Seq<char> {
    "SELECT id, parent_id, title, description, status, priority, kind, assignee, created_at, updated_at FROM issues"@
}

/// `n` placeholders, separated by commas.
pub open spec fn placeholders(n: nat) -> Seq<char>
    decreases n,
{
    if n == 0 {
        seq![]
    } else if n == 1 {
        "?"@
    } else {
        placeholders((n - 1) as nat) + ", ?"@
    }
}

/// The column holds one of `n` bound values.
pub open spec fn in_list(column: Seq<char>, n: nat) -> Seq<char> {
    column + " IN ("@ + placeholders(n) + ")"@
}

/// The title or the description matches the bound pattern (bound twice).
pub open spec fn search_condition() -> Seq<char> {
    "(title LIKE ? OR description LIKE ?)"@
}

/// The issue carries the label whose name is bound.
pub open spec fn label_condition() -> Seq<char> {
    "EXISTS (SELECT 1 FROM issue_labels il JOIN labels l ON l.id = il.label_id WHERE il.issue_id = issues.id AND l.name = ?)"@
}

/// The pattern under which a text occurs anywhere in a column.
pub open spec fn like_pattern(t: Seq<char>) -> Seq<char> {
    "%"@ + t + "%"@
}

pub open spec fn text_values(v: Seq<Seq<char>>) -> Seq<StoredValue> {
    v.map_values(|t: Seq<char>| StoredValue::Text(t))
}

pub open spec fn arg_views(v: Seq<ColumnValue>) -> Seq<StoredValue> {
    v.map_values(|a: ColumnValue| stored(a))
}

pub open spec fn status_labels(v: Seq<Status>) -> Seq<Seq<char>> {
    v.map_values(|s: Status| s.spec_label())
}

pub open spec fn priority_labels(v: Seq<Priority>) -> Seq<Seq<char>> {
    v.map_values(|p: Priority| p.spec_label())
}

pub open spec fn kind_labels(v: Seq<Kind>) -> Seq<Seq<char>> {
    v.map_values(|k: Kind| k.spec_label())
}

/// The status condition: the status is one of those listed, or is not the
/// one named, by its stored label.
pub open spec fn status_sqls(c: StatusClause) -> Seq<Seq<char>> {
    match c {
        StatusClause::Any => seq![],
        StatusClause::In(v) => seq![in_list("status"@, v@.len())],
        StatusClause::Not(_) => seq!["status <> ?"@],
    }
}

pub open spec fn status_args(c: StatusClause) -> Seq<StoredValue> {
    match c {
        StatusClause::Any => seq![],
        StatusClause::In(v) => text_values(status_labels(v@)),
        StatusClause::Not(s) => seq![StoredValue::Text(s.spec_label())],
    }
}

pub open spec fn priority_sqls(v: Option<Vec<Priority>>) -> Seq<Seq<char>> {
    match v {
        Some(v) => seq![in_list("priority"@, v@.len())],
        None => seq![],
    }
}

pub open spec fn priority_args(v: Option<Vec<Priority>>) -> Seq<StoredValue> {
    match v {
        Some(v) => text_values(priority_labels(v@)),
        None => seq![],
    }
}

pub open spec fn kind_sqls(v: Option<Vec<Kind>>) -> Seq<Seq<char>> {
    match v {
        Some(v) => seq![in_list("kind"@, v@.len())],
        None => seq![],
    }
}

pub open spec fn kind_args(v: Option<Vec<Kind>>) -> Seq<StoredValue> {
    match v {
        Some(v) => text_values(kind_labels(v@)),
        None => seq![],
    }
}

pub open spec fn assignee_sqls(a: Option<String>) -> Seq<Seq<char>> {
    match a {
        Some(_) => seq!["assignee = ?"@],
        None => seq![],
    }
}

pub open spec fn assignee_args(a: Option<String>) -> Seq<StoredValue> {
    match a {
        Some(a) => seq![StoredValue::Text(a@)],
        None => seq![],
    }
}

pub open spec fn parent_sqls(p: Option<i64>) -> Seq<Seq<char>> {
    match p {
        Some(_) => seq!["parent_id = ?"@],
        None => seq![],
    }
}

pub open spec fn parent_args(p: Option<i64>) -> Seq<StoredValue> {
    match p {
        Some(p) => seq![StoredValue::Int(p)],
        None => seq![],
    }
}

pub open spec fn search_sqls(t: Option<String>) -> Seq<Seq<char>> {
    match t {
        Some(_) => seq![search_condition()],
        None => seq![],
    }
}

pub open spec fn search_args(t: Option<String>) -> Seq<StoredValue> {
    match t {
        Some(t) => seq![StoredValue::Text(like_pattern(t@)), StoredValue::Text(like_pattern(t@))],
        None => seq![],
    }
}

pub open spec fn label_sqls(l: Option<Vec<String>>) -> Seq<Seq<char>> {
    match l {
        Some(l) => Seq::new(l@.len(), |i: int| label_condition()),
        None => seq![],
    }
}

pub open spec fn label_args(l: Option<Vec<String>>) -> Seq<StoredValue> {
    match l {
        Some(l) => text_values(texts(l@)),
        None => seq![],
    }
}

/// The conditions of the query, ANDed, in order: status, priority, kind,
/// assignee, parent, search, then one for each label.
pub open spec fn condition_sqls(q: IssueQuery) -> Seq<Seq<char>> {
    status_sqls(q.status) + priority_sqls(q.priority) + kind_sqls(q.kind) + assignee_sqls(q.assignee)
        + parent_sqls(q.parent_id) + search_sqls(q.search) + label_sqls(q.labels)
}

/// The values bound to the placeholders of the conditions, in order.
pub open spec fn condition_args(q: IssueQuery) -> Seq<StoredValue> {
    status_args(q.status) + priority_args(q.priority) + kind_args(q.kind) + assignee_args(q.assignee)
        + parent_args(q.parent_id) + search_args(q.search) + label_args(q.labels)
}

/// Conditions joined by `AND`.
pub open spec fn and_joined(c: Seq<Seq<char>>) -> Seq<char>
    decreases c.len(),
{
    if c.len() == 0 {
        seq![]
    } else if c.len() == 1 {
        c[0]
    } else {
        and_joined(c.drop_last()) + " AND "@ + c.last()
    }
}

pub open spec fn where_part(c: Seq<Seq<char>>) -> Seq<char> {
    if c.len() == 0 {
        seq![]
    } else {
        " WHERE "@ + and_joined(c)
    }
}

/// The listing order: priority rank descending, then id ascending.
pub open spec fn order_part(ordered: bool) -> Seq<char> {
    if ordered {
        " ORDER BY "@ + spec_priority_rank_sql() + " DESC, id ASC"@
    } else {
        seq![]
    }
}

/// The limit and offset; an offset alone comes with no limit (`-1`), as
/// SQLite reads it.
pub open spec fn limit_part(limit: Option<usize>, offset: Option<usize>) -> Seq<char> {
    match (limit, offset) {
        (Some(n), Some(m)) => " LIMIT "@ + decimal_text(n as int) + " OFFSET "@ + decimal_text(m as int),
        (Some(n), None) => " LIMIT "@ + decimal_text(n as int),
        (None, Some(m)) => " LIMIT -1 OFFSET "@ + decimal_text(m as int),
        (None, None) => seq![],
    }
}

/// The SELECT that the query stands for.
pub open spec fn spec_select_sql(q: IssueQuery) -> Seq<char> {
    select_head() + where_part(condition_sqls(q)) + order_part(q.ordered) + limit_part(q.limit, q.offset)
}

fn push_sql(sqls: &mut Vec<String>, s: String)
    ensures
        texts(final(sqls)@) == texts(old(sqls)@) + seq![s@],
{
    let ghost before = texts(sqls@);
    sqls.push(s);
    assert(texts(sqls@) =~= before + seq![s@]);
}

fn push_arg(args: &mut Vec<ColumnValue>, a: ColumnValue)
    ensures
        arg_views(final(args)@) == arg_views(old(args)@) + seq![stored(a)],
{
    let ghost before = arg_views(args@);
    args.push(a);
    assert(arg_views(args@) =~= before + seq![stored(a)]);
}

/// `n` placeholders, separated by commas.
fn placeholders_sql(n: usize) -> (r: String)
    ensures
        r@ == placeholders(n as nat),
{
    let mut out = String::new();
    let mut i: usize = 0;
    while i < n
        invariant
            i <= n,
            out@ == placeholders(i as nat),
        decreases n - i,
    {
        if i == 0 {
            out.append("?");
            proof {
                reveal_strlit("?");
            }
        } else {
            out.append(", ?");
        }
        i += 1;
    }
    out
}

fn in_list_sql(column: &str, n: usize) -> (r: String)
    ensures
        r@ == in_list(column@, n as nat),
{
    let p = placeholders_sql(n);
    let head = concat3(column, " IN (", p.as_str());
    let mut out = head;
    out.append(")");
    out
}

fn add_statuses(v: &Vec<Status>, args: &mut Vec<ColumnValue>)
    ensures
        arg_views(final(args)@) == arg_views(old(args)@) + text_values(status_labels(v@)),
{
    let ghost a0 = arg_views(args@);
    let mut i: usize = 0;
    while i < v.len()
        invariant
            i <= v.len(),
            arg_views(args@) == a0 + text_values(status_labels(v@.take(i as int))),
        decreases v.len() - i,
    {
        push_arg(args, ColumnValue::Text(owned(v[i].label())));
        assert(text_values(status_labels(v@.take(i + 1))) =~= text_values(status_labels(v@.take(i as int)))
            + seq![StoredValue::Text(v@[i as int].spec_label())]);
        i += 1;
    }
    assert(v@.take(v.len() as int) =~= v@);
}

fn add_priorities(v: &Vec<Priority>, args: &mut Vec<ColumnValue>)
    ensures
        arg_views(final(args)@) == arg_views(old(args)@) + text_values(priority_labels(v@)),
{
    let ghost a0 = arg_views(args@);
    let mut i: usize = 0;
    while i < v.len()
        invariant
            i <= v.len(),
            arg_views(args@) == a0 + text_values(priority_labels(v@.take(i as int))),
        decreases v.len() - i,
    {
        push_arg(args, ColumnValue::Text(owned(v[i].label())));
        assert(text_values(priority_labels(v@.take(i + 1))) =~= text_values(priority_labels(v@.take(i as int)))
            + seq![StoredValue::Text(v@[i as int].spec_label())]);
        i += 1;
    }
    assert(v@.take(v.len() as int) =~= v@);
}

fn add_kinds(v: &Vec<Kind>, args: &mut Vec<ColumnValue>)
    ensures
        arg_views(final(args)@) == arg_views(old(args)@) + text_values(kind_labels(v@)),
{
    let ghost a0 = arg_views(args@);
    let mut i: usize = 0;
    while i < v.len()
        invariant
            i <= v.len(),
            arg_views(args@) == a0 + text_values(kind_labels(v@.take(i as int))),
        decreases v.len() - i,
    {
        push_arg(args, ColumnValue::Text(owned(v[i].label())));
        assert(text_values(kind_labels(v@.take(i + 1))) =~= text_values(kind_labels(v@.take(i as int)))
            + seq![StoredValue::Text(v@[i as int].spec_label())]);
        i += 1;
    }
    assert(v@.take(v.len() as int) =~= v@);
}

fn add_labels(l: &Vec<String>, sqls: &mut Vec<String>, args: &mut Vec<ColumnValue>)
    ensures
        texts(final(sqls)@) == texts(old(sqls)@) + Seq::new(l@.len(), |i: int| label_condition()),
        arg_views(final(args)@) == arg_views(old(args)@) + text_values(texts(l@)),
{
    let ghost s0 = texts(sqls@);
    let ghost a0 = arg_views(args@);
    let mut i: usize = 0;
    while i < l.len()
        invariant
            i <= l.len(),
            texts(sqls@) == s0 + Seq::new(i as nat, |k: int| label_condition()),
            arg_views(args@) == a0 + text_values(texts(l@.take(i as int))),
        decreases l.len() - i,
    {
        push_sql(
            sqls,
            owned(
                "EXISTS (SELECT 1 FROM issue_labels il JOIN labels l ON l.id = il.label_id WHERE il.issue_id = issues.id AND l.name = ?)",
            ),
        );
        push_arg(args, ColumnValue::Text(l[i].clone()));
        assert(Seq::new((i + 1) as nat, |k: int| label_condition()) =~= Seq::new(i as nat, |k: int| label_condition())
            + seq![label_condition()]);
        assert(text_values(texts(l@.take(i + 1))) =~= text_values(texts(l@.take(i as int))) + seq![
            StoredValue::Text(l@[i as int]@),
        ]);
        i += 1;
    }
    assert(l@.take(l.len() as int) =~= l@);
}

/// The conditions joined by `AND`.
fn join_and(sqls: &Vec<String>) -> (r: String)
    ensures
        r@ == and_joined(texts(sqls@)),
{
    let mut out = String::new();
    let mut i: usize = 0;
    while i < sqls.len()
        invariant
            i <= sqls.len(),
            out@ == and_joined(texts(sqls@.take(i as int))),
        decreases sqls.len() - i,
    {
        let ghost c = texts(sqls@.take(i + 1));
        assert(c.drop_last() =~= texts(sqls@.take(i as int)));
        assert(c.last() == sqls@[i as int]@);
        if i > 0 {
            out.append(" AND ");
        }
        out.append(sqls[i].as_str());
        i += 1;
    }
    assert(sqls@.take(sqls.len() as int) =~= sqls@);
    out
}

fn add_status_part(c: &StatusClause, sqls: &mut Vec<String>, args: &mut Vec<ColumnValue>)
    ensures
        texts(final(sqls)@) == texts(old(sqls)@) + status_sqls(*c),
        arg_views(final(args)@) == arg_views(old(args)@) + status_args(*c),
{
    match c {
        StatusClause::Any => {
            assert(texts(sqls@) =~= texts(sqls@) + status_sqls(*c));
            assert(arg_views(args@) =~= arg_views(args@) + status_args(*c));
        },
        StatusClause::In(v) => {
            push_sql(sqls, in_list_sql("status", v.len()));
            add_statuses(v, args);
        },
        StatusClause::Not(s) => {
            push_sql(sqls, owned("status <> ?"));
            push_arg(args, ColumnValue::Text(owned(s.label())));
        },
    }
}

fn add_priority_part(v: &Option<Vec<Priority>>, sqls: &mut Vec<String>, args: &mut Vec<ColumnValue>)
    ensures
        texts(final(sqls)@) == texts(old(sqls)@) + priority_sqls(*v),
        arg_views(final(args)@) == arg_views(old(args)@) + priority_args(*v),
{
    match v {
        Some(v) => {
            push_sql(sqls, in_list_sql("priority", v.len()));
            add_priorities(v, args);
        },
        None => {
            assert(texts(sqls@) =~= texts(sqls@) + seq![]);
            assert(arg_views(args@) =~= arg_views(args@) + seq![]);
        },
    }
}

fn add_kind_part(v: &Option<Vec<Kind>>, sqls: &mut Vec<String>, args: &mut Vec<ColumnValue>)
    ensures
        texts(final(sqls)@) == texts(old(sqls)@) + kind_sqls(*v),
        arg_views(final(args)@) == arg_views(old(args)@) + kind_args(*v),
{
    match v {
        Some(v) => {
            push_sql(sqls, in_list_sql("kind", v.len()));
            add_kinds(v, args);
        },
        None => {
            assert(texts(sqls@) =~= texts(sqls@) + seq![]);
            assert(arg_views(args@) =~= arg_views(args@) + seq![]);
        },
    }
}

fn add_assignee_part(a: &Option<String>, sqls: &mut Vec<String>, args: &mut Vec<ColumnValue>)
    ensures
        texts(final(sqls)@) == texts(old(sqls)@) + assignee_sqls(*a),
        arg_views(final(args)@) == arg_views(old(args)@) + assignee_args(*a),
{
    match a {
        Some(a) => {
            push_sql(sqls, owned("assignee = ?"));
            push_arg(args, ColumnValue::Text(a.clone()));
        },
        None => {
            assert(texts(sqls@) =~= texts(sqls@) + seq![]);
            assert(arg_views(args@) =~= arg_views(args@) + seq![]);
        },
    }
}

fn add_parent_part(p: Option<i64>, sqls: &mut Vec<String>, args: &mut Vec<ColumnValue>)
    ensures
        texts(final(sqls)@) == texts(old(sqls)@) + parent_sqls(p),
        arg_views(final(args)@) == arg_views(old(args)@) + parent_args(p),
{
    match p {
        Some(p) => {
            push_sql(sqls, owned("parent_id = ?"));
            push_arg(args, ColumnValue::Int(p));
        },
        None => {
            assert(texts(sqls@) =~= texts(sqls@) + seq![]);
            assert(arg_views(args@) =~= arg_views(args@) + seq![]);
        },
    }
}

fn add_search_part(t: &Option<String>, sqls: &mut Vec<String>, args: &mut Vec<ColumnValue>)
    ensures
        texts(final(sqls)@) == texts(old(sqls)@) + search_sqls(*t),
        arg_views(final(args)@) == arg_views(old(args)@) + search_args(*t),
{
    match t {
        Some(t) => {
            let pattern = concat3("%", t.as_str(), "%");
            proof {
                reveal_strlit("%");
            }
            let ghost a0 = arg_views(args@);
            push_sql(sqls, owned("(title LIKE ? OR description LIKE ?)"));
            push_arg(args, ColumnValue::Text(pattern.clone()));
            push_arg(args, ColumnValue::Text(pattern));
            assert(arg_views(args@) =~= a0 + search_args(Some(*t)));
        },
        None => {
            assert(texts(sqls@) =~= texts(sqls@) + seq![]);
            assert(arg_views(args@) =~= arg_views(args@) + seq![]);
        },
    }
}

fn add_label_part(l: &Option<Vec<String>>, sqls: &mut Vec<String>, args: &mut Vec<ColumnValue>)
    ensures
        texts(final(sqls)@) == texts(old(sqls)@) + label_sqls(*l),
        arg_views(final(args)@) == arg_views(old(args)@) + label_args(*l),
{
    match l {
        Some(l) => {
            add_labels(l, sqls, args);
        },
        None => {
            assert(texts(sqls@) =~= texts(sqls@) + seq![]);
            assert(arg_views(args@) =~= arg_views(args@) + seq![]);
        },
    }
}

/// The conditions of the query and the values bound to them.
fn conditions(q: &IssueQuery) -> (r: (Vec<String>, Vec<ColumnValue>))
    ensures
        texts(r.0@) == condition_sqls(*q),
        arg_views(r.1@) == condition_args(*q),
{
    let mut sqls: Vec<String> = Vec::new();
    let mut args: Vec<ColumnValue> = Vec::new();
    assert(texts(sqls@) =~= seq![]);
    assert(arg_views(args@) =~= seq![]);
    add_status_part(&q.status, &mut sqls, &mut args);
    assert(texts(sqls@) =~= status_sqls(q.status));
    assert(arg_views(args@) =~= status_args(q.status));
    add_priority_part(&q.priority, &mut sqls, &mut args);
    add_kind_part(&q.kind, &mut sqls, &mut args);
    add_assignee_part(&q.assignee, &mut sqls, &mut args);
    add_parent_part(q.parent_id, &mut sqls, &mut args);
    add_search_part(&q.search, &mut sqls, &mut args);
    add_label_part(&q.labels, &mut sqls, &mut args);
    (sqls, args)
}

fn append_limit(out: &mut String, limit: Option<usize>, offset: Option<usize>)
    ensures
        final(out)@ == old(out)@ + limit_part(limit, offset),
{
    match (limit, offset) {
        (Some(n), Some(m)) => {
            out.append(" LIMIT ");
            out.append(count_decimal(n).as_str());
            out.append(" OFFSET ");
            out.append(count_decimal(m).as_str());
        },
        (Some(n), None) => {
            out.append(" LIMIT ");
            out.append(count_decimal(n).as_str());
        },
        (None, Some(m)) => {
            out.append(" LIMIT -1 OFFSET ");
            out.append(count_decimal(m).as_str());
        },
        (None, None) => {},
    }
}

/// The SELECT that the query stands for, and the values bound to its
/// placeholders, in order.
pub fn select_sql(q: &IssueQuery) -> (r: (String, Vec<ColumnValue>))
    ensures
        r.0@ == spec_select_sql(*q),
        arg_views(r.1@) == condition_args(*q),
{
    let (sqls, args) = conditions(q);
    let mut out = owned(
        "SELECT id, parent_id, title, description, status, priority, kind, assignee, created_at, updated_at FROM issues",
    );
    if sqls.len() > 0 {
        out.append(" WHERE ");
        let w = join_and(&sqls);
        out.append(w.as_str());
    }
    assert(out@ == select_head() + where_part(condition_sqls(*q)));
    if q.ordered {
        out.append(" ORDER BY ");
        let rank = priority_rank_sql();
        out.append(rank.as_str());
        out.append(" DESC, id ASC");
    }
    assert(out@ == select_head() + where_part(condition_sqls(*q)) + order_part(q.ordered));
    append_limit(&mut out, q.limit, q.offset);
    (out, args)
}

// ── What the conditions mean ────────────────────────────────────────────────

/// A column of the issues table that a condition reads.
pub enum QueryColumn {
    Status,
    Priority,
    Kind,
    Assignee,
    ParentId,
}

pub open spec fn column_name(c: QueryColumn) -> Seq<char> {
    match c {
        QueryColumn::Status => "status"@,
        QueryColumn::Priority => "priority"@,
        QueryColumn::Kind => "kind"@,
        QueryColumn::Assignee => "assignee"@,
        QueryColumn::ParentId => "parent_id"@,
    }
}

/// The value a stored row holds in a column, as SQL sees it.
pub open spec fn column_value(v: RowView, c: QueryColumn) -> StoredValue {
    match c {
        QueryColumn::Status => StoredValue::Text(v.status),
        QueryColumn::Priority => StoredValue::Text(v.priority),
        QueryColumn::Kind => StoredValue::Text(v.kind),
        QueryColumn::Assignee => match v.assignee {
            Some(a) => StoredValue::Text(a),
            None => StoredValue::Null,
        },
        QueryColumn::ParentId => match v.parent_id {
            Some(p) => StoredValue::Int(p),
            None => StoredValue::Null,
        },
    }
}

/// `n` question marks, separated by a comma and a space.
pub open spec fn marks(n: nat) -> Seq<char>
    decreases n,
{
    if n == 0 {
        seq![]
    } else if n == 1 {
        seq!['?']
    } else {
        marks((n - 1) as nat) + seq![',', ' ', '?']
    }
}

/// `column IN (?, …)` with `n` placeholders.
pub open spec fn sql_in(c: QueryColumn, n: nat) -> Seq<char> {
    column_name(c) + " IN ("@ + marks(n) + seq![')']
}

/// `column <> ?`.
pub open spec fn sql_ne(c: QueryColumn) -> Seq<char> {
    column_name(c) + " <> ?"@
}

/// `column = ?`.
pub open spec fn sql_eq(c: QueryColumn) -> Seq<char> {
    column_name(c) + " = ?"@
}

/// SQL's `=`: true only of two equal values, neither of them NULL.
pub open spec fn sql_equal(a: StoredValue, b: StoredValue) -> bool {
    a !is Null && b !is Null && a == b
}

/// SQL's `<>`: true only of two different values, neither of them NULL.
pub open spec fn sql_differ(a: StoredValue, b: StoredValue) -> bool {
    a !is Null && b !is Null && a != b
}

/// SQLite's `LIKE`: `%` matches any run of characters, `_` any one
/// character, and letters match regardless of ASCII case.
pub open spec fn like_matches(s: Seq<char>, p: Seq<char>) -> bool
    decreases p.len(), s.len(),
{
    if p.len() == 0 {
        s.len() == 0
    } else if p[0] == '%' {
        like_matches(s, p.drop_first()) || (s.len() > 0 && like_matches(s.drop_first(), p))
    } else if s.len() == 0 {
        false
    } else if p[0] == '_' || ascii_lower_char(p[0]) == ascii_lower_char(s[0]) {
        like_matches(s.drop_first(), p.drop_first())
    } else {
        false
    }
}

pub open spec fn like_value(s: Seq<char>, a: StoredValue) -> bool {
    a matches StoredValue::Text(p) && like_matches(s, p)
}

/// The bound value is the name of one of the row's labels.
pub open spec fn label_named(a: StoredValue, names: Set<Seq<char>>) -> bool {
    a matches StoredValue::Text(n) && names.contains(n)
}

/// Whether a condition, read as SQL with `args` bound to its placeholders in
/// order, holds of a stored row that carries the label names `names`. A text
/// of no known form holds of no row.
pub open spec fn condition_holds(sql: Seq<char>, args: Seq<StoredValue>, v: RowView, names: Set<Seq<char>>) -> bool {
    ||| exists|c: QueryColumn, n: nat|
        #![trigger sql_in(c, n)]
        sql == sql_in(c, n) && args.len() == n && exists|i: int|
            0 <= i < n && sql_equal(column_value(v, c), #[trigger] args[i])
    ||| exists|c: QueryColumn|
        #![trigger sql_ne(c)]
        sql == sql_ne(c) && args.len() == 1 && sql_differ(column_value(v, c), args[0])
    ||| exists|c: QueryColumn|
        #![trigger sql_eq(c)]
        sql == sql_eq(c) && args.len() == 1 && sql_equal(column_value(v, c), args[0])
    ||| sql == search_text() && args.len() == 2 && (like_value(v.title, args[0])
        || like_value(v.description, args[1]))
    ||| sql == label_text() && args.len() == 1 && label_named(args[0], names)
}

proof fn lemma_column_names()
    ensures
        forall|c: QueryColumn| #[trigger] column_name(c).len() >= 4 && 'a' <= column_name(c)[0] <= 'z',
        forall|c: QueryColumn, d: QueryColumn|
            #[trigger] column_name(c) == #[trigger] column_name(d) || column_name(c)[0] != column_name(d)[0]
                || column_name(c)[1] != column_name(d)[1],
        forall|c: QueryColumn, d: QueryColumn| column_name(c) == column_name(d) ==> c == d,
{
    reveal_strlit("status");
    reveal_strlit("priority");
    reveal_strlit("kind");
    reveal_strlit("assignee");
    reveal_strlit("parent_id");
    assert forall|c: QueryColumn, d: QueryColumn| column_name(c) == column_name(d) implies c == d by {
        assert(column_name(c)[0] == column_name(d)[0] && column_name(c)[1] == column_name(d)[1]);
    }
}

proof fn lemma_marks_len(n: nat)
    ensures
        marks(n).len() == if n == 0 { 0 } else { 3 * n - 2 },
    decreases n,
{
    if n > 1 {
        lemma_marks_len((n - 1) as nat);
    }
}

proof fn lemma_placeholders_are_marks(n: nat)
    ensures
        placeholders(n) == marks(n),
    decreases n,
{
    reveal_strlit("?");
    reveal_strlit(", ?");
    if n > 1 {
        lemma_placeholders_are_marks((n - 1) as nat);
        assert(", ?"@ =~= seq![',', ' ', '?']);
    }
    if n == 1 {
        assert("?"@ =~= seq!['?']);
    }
}

/// Two texts that are equal are equal at every index.
proof fn lemma_eq_at(a: Seq<char>, b: Seq<char>, i: int)
    requires
        a == b,
        0 <= i < a.len(),
    ensures
        a[i] == b[i],
{
}

proof fn lemma_in_ends(c: QueryColumn, n: nat)
    ensures
        sql_in(c, n).len() >= 1,
        sql_in(c, n)[sql_in(c, n).len() - 1] == ')',
{
    let a = sql_in(c, n);
    assert(a == (column_name(c) + " IN ("@ + marks(n)) + seq![')']);
}

proof fn lemma_ne_eq_ends(c: QueryColumn)
    ensures
        sql_ne(c).len() >= 3 && sql_ne(c)[sql_ne(c).len() - 1] == '?' && sql_ne(c)[sql_ne(c).len() - 3] == '>',
        sql_eq(c).len() >= 3 && sql_eq(c)[sql_eq(c).len() - 1] == '?' && sql_eq(c)[sql_eq(c).len() - 3] == '=',
{
    reveal_strlit(" <> ?");
    reveal_strlit(" = ?");
    let a = sql_ne(c);
    let b = sql_eq(c);
    let k = column_name(c).len() as int;
    assert(a.len() == k + 5 && a[k + 4] == " <> ?"@[4] && a[k + 2] == " <> ?"@[2]);
    assert(b.len() == k + 4 && b[k + 3] == " = ?"@[3] && b[k + 1] == " = ?"@[1]);
}

pub open spec fn search_text() -> Seq<char> {
    "(title LIKE ? OR description LIKE ?)"@
}

pub open spec fn label_text() -> Seq<char> {
    "EXISTS (SELECT 1 FROM issue_labels il JOIN labels l ON l.id = il.label_id WHERE il.issue_id = issues.id AND l.name = ?)"@
}

proof fn lemma_first_chars(c: QueryColumn, n: nat)
    ensures
        sql_in(c, n)[0] == column_name(c)[0] && sql_in(c, n)[1] == column_name(c)[1],
        sql_ne(c)[0] == column_name(c)[0] && sql_ne(c)[1] == column_name(c)[1],
        sql_eq(c)[0] == column_name(c)[0] && sql_eq(c)[1] == column_name(c)[1],
        'a' <= column_name(c)[0] <= 'z',
        search_text().len() > 0 && search_text()[0] == '(',
        label_text().len() > 0 && label_text()[0] == 'E',
        sql_in(c, n).len() > 1 && sql_ne(c).len() > 1 && sql_eq(c).len() > 1,
{
    lemma_column_names();
    reveal_strlit("(title LIKE ? OR description LIKE ?)");
    reveal_strlit("EXISTS (SELECT 1 FROM issue_labels il JOIN labels l ON l.id = il.label_id WHERE il.issue_id = issues.id AND l.name = ?)");
    assert(sql_in(c, n) == column_name(c) + (" IN ("@ + marks(n) + seq![')']));
}

proof fn lemma_in_injective(c: QueryColumn, n: nat, d: QueryColumn, m: nat)
    requires
        sql_in(c, n) == sql_in(d, m),
    ensures
        c == d && n == m,
{
    lemma_column_names();
    lemma_first_chars(c, n);
    lemma_first_chars(d, m);
    lemma_eq_at(sql_in(c, n), sql_in(d, m), 0);
    lemma_eq_at(sql_in(c, n), sql_in(d, m), 1);
    assert(column_name(c) == column_name(d));
    lemma_marks_len(n);
    lemma_marks_len(m);
}

proof fn lemma_ne_injective(c: QueryColumn, d: QueryColumn)
    requires
        sql_ne(c) == sql_ne(d),
    ensures
        c == d,
{
    lemma_column_names();
    lemma_first_chars(c, 0);
    lemma_first_chars(d, 0);
    lemma_eq_at(sql_ne(c), sql_ne(d), 0);
    lemma_eq_at(sql_ne(c), sql_ne(d), 1);
    assert(column_name(c) == column_name(d));
}

proof fn lemma_eq_injective(c: QueryColumn, d: QueryColumn)
    requires
        sql_eq(c) == sql_eq(d),
    ensures
        c == d,
{
    lemma_column_names();
    lemma_first_chars(c, 0);
    lemma_first_chars(d, 0);
    lemma_eq_at(sql_eq(c), sql_eq(d), 0);
    lemma_eq_at(sql_eq(c), sql_eq(d), 1);
    assert(column_name(c) == column_name(d));
}

/// No text is of two different condition forms.
proof fn lemma_forms_apart(c: QueryColumn, n: nat, d: QueryColumn)
    ensures
        sql_in(c, n) != sql_ne(d),
        sql_in(c, n) != sql_eq(d),
        sql_ne(c) != sql_eq(d),
        sql_in(c, n) != search_text() && sql_in(c, n) != label_text(),
        sql_ne(c) != search_text() && sql_ne(c) != label_text(),
        sql_eq(c) != search_text() && sql_eq(c) != label_text(),
        search_text() != label_text(),
{
    lemma_first_chars(c, n);
    lemma_in_ends(c, n);
    lemma_ne_eq_ends(c);
    lemma_ne_eq_ends(d);
    if sql_in(c, n) == sql_ne(d) {
        lemma_eq_at(sql_in(c, n), sql_ne(d), sql_in(c, n).len() - 1);
    }
    if sql_in(c, n) == sql_eq(d) {
        lemma_eq_at(sql_in(c, n), sql_eq(d), sql_in(c, n).len() - 1);
    }
    if sql_ne(c) == sql_eq(d) {
        lemma_eq_at(sql_ne(c), sql_eq(d), sql_ne(c).len() - 3);
    }
    if sql_in(c, n) == search_text() {
        lemma_eq_at(sql_in(c, n), search_text(), 0);
    }
    if sql_in(c, n) == label_text() {
        lemma_eq_at(sql_in(c, n), label_text(), 0);
    }
    if sql_ne(c) == search_text() {
        lemma_eq_at(sql_ne(c), search_text(), 0);
    }
    if sql_ne(c) == label_text() {
        lemma_eq_at(sql_ne(c), label_text(), 0);
    }
    if sql_eq(c) == search_text() {
        lemma_eq_at(sql_eq(c), search_text(), 0);
    }
    if sql_eq(c) == label_text() {
        lemma_eq_at(sql_eq(c), label_text(), 0);
    }
    if search_text() == label_text() {
        lemma_eq_at(search_text(), label_text(), 0);
    }
}

// ── The law: the conditions select exactly the issues the query asks for ─────

/// Whether a stored row, carrying the label names `names`, is one the query
/// asks for: its status label is one of those listed (or is not the one
/// excluded), its priority and kind labels are among those listed, it has
/// the assignee and the parent given, the search text occurs (as SQLite's
/// LIKE finds it) in its title or its description, and it carries every
/// label given.
pub open spec fn issue_selected(q: IssueQuery, v: RowView, names: Set<Seq<char>>) -> bool {
    &&& match q.status {
        StatusClause::Any => true,
        StatusClause::In(w) => exists|i: int| 0 <= i < w@.len() && v.status == #[trigger] w@[i].spec_label(),
        StatusClause::Not(st) => v.status != st.spec_label(),
    }
    &&& match q.priority {
        Some(w) => exists|i: int| 0 <= i < w@.len() && v.priority == #[trigger] w@[i].spec_label(),
        None => true,
    }
    &&& match q.kind {
        Some(w) => exists|i: int| 0 <= i < w@.len() && v.kind == #[trigger] w@[i].spec_label(),
        None => true,
    }
    &&& match q.assignee {
        Some(a) => v.assignee == Some(a@),
        None => true,
    }
    &&& match q.parent_id {
        Some(p) => v.parent_id == Some(p),
        None => true,
    }
    &&& match q.search {
        Some(t) => like_matches(v.title, seq!['%'] + t@ + seq!['%']) || like_matches(
            v.description,
            seq!['%'] + t@ + seq!['%'],
        ),
        None => true,
    }
    &&& match q.labels {
        Some(l) => forall|i: int| 0 <= i < l@.len() ==> names.contains(#[trigger] l@[i]@),
        None => true,
    }
}

/// A condition's text with the values bound to it.
pub type Condition = (Seq<char>, Seq<StoredValue>);

/// Every condition holds of the row.
pub open spec fn all_hold(c: Seq<Condition>, v: RowView, names: Set<Seq<char>>) -> bool {
    forall|i: int| 0 <= i < c.len() ==> condition_holds(#[trigger] c[i].0, c[i].1, v, names)
}

pub open spec fn pair_sqls(c: Seq<Condition>) -> Seq<Seq<char>> {
    c.map_values(|x: Condition| x.0)
}

/// The values of the conditions, one after another.
pub open spec fn pair_args(c: Seq<Condition>) -> Seq<StoredValue>
    decreases c.len(),
{
    if c.len() == 0 {
        seq![]
    } else {
        pair_args(c.drop_last()) + c.last().1
    }
}

pub open spec fn status_conditions(c: StatusClause) -> Seq<Condition> {
    match c {
        StatusClause::Any => seq![],
        StatusClause::In(w) => seq![(in_list("status"@, w@.len()), text_values(status_labels(w@)))],
        StatusClause::Not(st) => seq![("status <> ?"@, seq![StoredValue::Text(st.spec_label())])],
    }
}

pub open spec fn priority_conditions(v: Option<Vec<Priority>>) -> Seq<Condition> {
    match v {
        Some(w) => seq![(in_list("priority"@, w@.len()), text_values(priority_labels(w@)))],
        None => seq![],
    }
}

pub open spec fn kind_conditions(v: Option<Vec<Kind>>) -> Seq<Condition> {
    match v {
        Some(w) => seq![(in_list("kind"@, w@.len()), text_values(kind_labels(w@)))],
        None => seq![],
    }
}

pub open spec fn assignee_conditions(a: Option<String>) -> Seq<Condition> {
    match a {
        Some(a) => seq![("assignee = ?"@, seq![StoredValue::Text(a@)])],
        None => seq![],
    }
}

pub open spec fn parent_conditions(p: Option<i64>) -> Seq<Condition> {
    match p {
        Some(p) => seq![("parent_id = ?"@, seq![StoredValue::Int(p)])],
        None => seq![],
    }
}

pub open spec fn search_conditions(t: Option<String>) -> Seq<Condition> {
    match t {
        Some(t) => seq![
            (search_condition(), seq![StoredValue::Text(like_pattern(t@)), StoredValue::Text(like_pattern(t@))]),
        ],
        None => seq![],
    }
}

pub open spec fn label_conditions(l: Option<Vec<String>>) -> Seq<Condition> {
    match l {
        Some(l) => Seq::new(l@.len(), |i: int| (label_condition(), seq![StoredValue::Text(l@[i]@)])),
        None => seq![],
    }
}

/// The conditions of the query, each with its bound values.
pub open spec fn query_conditions(q: IssueQuery) -> Seq<Condition> {
    status_conditions(q.status) + priority_conditions(q.priority) + kind_conditions(q.kind) + assignee_conditions(
        q.assignee,
    ) + parent_conditions(q.parent_id) + search_conditions(q.search) + label_conditions(q.labels)
}

proof fn lemma_all_hold_concat(a: Seq<Condition>, b: Seq<Condition>, v: RowView, names: Set<Seq<char>>)
    ensures
        all_hold(a + b, v, names) <==> all_hold(a, v, names) && all_hold(b, v, names),
{
    if all_hold(a + b, v, names) {
        assert forall|i: int| 0 <= i < a.len() implies condition_holds(#[trigger] a[i].0, a[i].1, v, names) by {
            assert((a + b)[i] == a[i]);
        }
        assert forall|i: int| 0 <= i < b.len() implies condition_holds(#[trigger] b[i].0, b[i].1, v, names) by {
            assert((a + b)[a.len() + i] == b[i]);
        }
    }
    if all_hold(a, v, names) && all_hold(b, v, names) {
        assert forall|i: int| 0 <= i < (a + b).len() implies condition_holds(#[trigger] (a + b)[i].0, (a + b)[i].1, v, names) by {
            if i < a.len() {
                assert((a + b)[i] == a[i]);
            } else {
                assert((a + b)[i] == b[i - a.len()]);
            }
        }
    }
}

proof fn lemma_pair_args_concat(a: Seq<Condition>, b: Seq<Condition>)
    ensures
        pair_args(a + b) == pair_args(a) + pair_args(b),
    decreases b.len(),
{
    if b.len() == 0 {
        assert(a + b =~= a);
        assert(pair_args(a) + pair_args(b) =~= pair_args(a));
    } else {
        assert((a + b).drop_last() =~= a + b.drop_last());
        assert((a + b).last() == b.last());
        lemma_pair_args_concat(a, b.drop_last());
        assert(pair_args(a) + pair_args(b.drop_last()) + b.last().1 =~= pair_args(a) + (pair_args(b.drop_last())
            + b.last().1));
    }
}

proof fn lemma_one_pair(c: Condition)
    ensures
        pair_args(seq![c]) == c.1,
        pair_sqls(seq![c]) == seq![c.0],
{
    assert(seq![c].drop_last() =~= Seq::<Condition>::empty());
    assert(pair_args(Seq::<Condition>::empty()) + c.1 =~= c.1);
    assert(pair_sqls(seq![c]) =~= seq![c.0]);
}

proof fn lemma_label_pairs(l: Seq<String>, n: nat)
    requires
        n <= l.len(),
    ensures
        pair_args(Seq::new(n, |i: int| (label_condition(), seq![StoredValue::Text(l[i]@)]))) == text_values(texts(l.take(n as int))),
        pair_sqls(Seq::new(n, |i: int| (label_condition(), seq![StoredValue::Text(l[i]@)]))) == Seq::new(n, |i: int| label_condition()),
    decreases n,
{
    let c = Seq::new(n, |i: int| (label_condition(), seq![StoredValue::Text(l[i]@)]));
    assert(pair_sqls(c) =~= Seq::new(n, |i: int| label_condition()));
    if n > 0 {
        let m = (n - 1) as nat;
        lemma_label_pairs(l, m);
        assert(c.drop_last() =~= Seq::new(m, |i: int| (label_condition(), seq![StoredValue::Text(l[i]@)])));
        assert(text_values(texts(l.take(n as int))) =~= text_values(texts(l.take(m as int))) + seq![StoredValue::Text(l[m as int]@)]);
    } else {
        assert(text_values(texts(l.take(0))) =~= Seq::<StoredValue>::empty());
    }
}

proof fn lemma_short_part(p: Seq<Condition>, sqls: Seq<Seq<char>>, args: Seq<StoredValue>)
    requires
        p.len() <= 1,
        p.len() == 0 ==> sqls == Seq::<Seq<char>>::empty() && args == Seq::<StoredValue>::empty(),
        p.len() == 1 ==> sqls == seq![p[0].0] && args == p[0].1,
    ensures
        pair_sqls(p) == sqls,
        pair_args(p) == args,
{
    if p.len() == 1 {
        lemma_one_pair(p[0]);
        assert(p =~= seq![p[0]]);
    } else {
        assert(pair_sqls(p) =~= sqls);
    }
}

proof fn lemma_pair_sqls_concat(a: Seq<Condition>, b: Seq<Condition>)
    ensures
        pair_sqls(a + b) == pair_sqls(a) + pair_sqls(b),
{
    assert(pair_sqls(a + b) =~= pair_sqls(a) + pair_sqls(b));
}

/// The conditions of the query, with their values, are the texts and the
/// values of its SELECT.
proof fn lemma_conditions_are_the_select(q: IssueQuery)
    ensures
        pair_sqls(query_conditions(q)) == condition_sqls(q),
        pair_args(query_conditions(q)) == condition_args(q),
{
    let p1 = status_conditions(q.status);
    let p2 = priority_conditions(q.priority);
    let p3 = kind_conditions(q.kind);
    let p4 = assignee_conditions(q.assignee);
    let p5 = parent_conditions(q.parent_id);
    let p6 = search_conditions(q.search);
    let p7 = label_conditions(q.labels);
    lemma_short_part(p1, status_sqls(q.status), status_args(q.status));
    lemma_short_part(p2, priority_sqls(q.priority), priority_args(q.priority));
    lemma_short_part(p3, kind_sqls(q.kind), kind_args(q.kind));
    lemma_short_part(p4, assignee_sqls(q.assignee), assignee_args(q.assignee));
    lemma_short_part(p5, parent_sqls(q.parent_id), parent_args(q.parent_id));
    lemma_short_part(p6, search_sqls(q.search), search_args(q.search));
    assert(pair_sqls(p7) == label_sqls(q.labels) && pair_args(p7) == label_args(q.labels)) by {
        match q.labels {
            Some(l) => {
                lemma_label_pairs(l@, l@.len());
                assert(l@.take(l@.len() as int) =~= l@);
            },
            None => {
                assert(pair_sqls(p7) =~= seq![]);
            },
        }
    }
    lemma_pair_args_concat(p1, p2);
    lemma_pair_args_concat(p1 + p2, p3);
    lemma_pair_args_concat(p1 + p2 + p3, p4);
    lemma_pair_args_concat(p1 + p2 + p3 + p4, p5);
    lemma_pair_args_concat(p1 + p2 + p3 + p4 + p5, p6);
    lemma_pair_args_concat(p1 + p2 + p3 + p4 + p5 + p6, p7);
    lemma_pair_sqls_concat(p1, p2);
    lemma_pair_sqls_concat(p1 + p2, p3);
    lemma_pair_sqls_concat(p1 + p2 + p3, p4);
    lemma_pair_sqls_concat(p1 + p2 + p3 + p4, p5);
    lemma_pair_sqls_concat(p1 + p2 + p3 + p4 + p5, p6);
    lemma_pair_sqls_concat(p1 + p2 + p3 + p4 + p5 + p6, p7);
}

proof fn lemma_in_means(c: QueryColumn, n: nat, args: Seq<StoredValue>, v: RowView, names: Set<Seq<char>>)
    ensures
        condition_holds(sql_in(c, n), args, v, names) <==> args.len() == n && exists|i: int|
            0 <= i < n && sql_equal(column_value(v, c), #[trigger] args[i]),
{
    let sql = sql_in(c, n);
    if condition_holds(sql, args, v, names) {
        if exists|d: QueryColumn, m: nat|
            #![trigger sql_in(d, m)]
            sql == sql_in(d, m) && args.len() == m && exists|i: int|
                0 <= i < m && sql_equal(column_value(v, d), #[trigger] args[i]) {
            let (d, m) = choose|d: QueryColumn, m: nat|
                #![trigger sql_in(d, m)]
                sql == sql_in(d, m) && args.len() == m && exists|i: int|
                    0 <= i < m && sql_equal(column_value(v, d), #[trigger] args[i]);
            lemma_in_injective(c, n, d, m);
        } else if exists|d: QueryColumn| #![trigger sql_ne(d)] sql == sql_ne(d) {
            let d = choose|d: QueryColumn| #![trigger sql_ne(d)] sql == sql_ne(d);
            lemma_forms_apart(c, n, d);
        } else if exists|d: QueryColumn| #![trigger sql_eq(d)] sql == sql_eq(d) {
            let d = choose|d: QueryColumn| #![trigger sql_eq(d)] sql == sql_eq(d);
            lemma_forms_apart(c, n, d);
        } else {
            lemma_forms_apart(c, n, c);
        }
    }
}

proof fn lemma_ne_means(c: QueryColumn, args: Seq<StoredValue>, v: RowView, names: Set<Seq<char>>)
    ensures
        condition_holds(sql_ne(c), args, v, names) <==> args.len() == 1 && sql_differ(column_value(v, c), args[0]),
{
    let sql = sql_ne(c);
    if condition_holds(sql, args, v, names) {
        if exists|d: QueryColumn, m: nat| #![trigger sql_in(d, m)] sql == sql_in(d, m) {
            let (d, m) = choose|d: QueryColumn, m: nat| #![trigger sql_in(d, m)] sql == sql_in(d, m);
            lemma_forms_apart(d, m, c);
        } else if exists|d: QueryColumn| #![trigger sql_ne(d)] sql == sql_ne(d) && args.len() == 1 && sql_differ(
            column_value(v, d),
            args[0],
        ) {
            let d = choose|d: QueryColumn|
                #![trigger sql_ne(d)]
                sql == sql_ne(d) && args.len() == 1 && sql_differ(column_value(v, d), args[0]);
            lemma_ne_injective(c, d);
        } else if exists|d: QueryColumn| #![trigger sql_eq(d)] sql == sql_eq(d) {
            let d = choose|d: QueryColumn| #![trigger sql_eq(d)] sql == sql_eq(d);
            lemma_forms_apart(c, 0, d);
        } else {
            lemma_forms_apart(c, 0, c);
        }
    }
}

proof fn lemma_eq_means(c: QueryColumn, args: Seq<StoredValue>, v: RowView, names: Set<Seq<char>>)
    ensures
        condition_holds(sql_eq(c), args, v, names) <==> args.len() == 1 && sql_equal(column_value(v, c), args[0]),
{
    let sql = sql_eq(c);
    if condition_holds(sql, args, v, names) {
        if exists|d: QueryColumn, m: nat| #![trigger sql_in(d, m)] sql == sql_in(d, m) {
            let (d, m) = choose|d: QueryColumn, m: nat| #![trigger sql_in(d, m)] sql == sql_in(d, m);
            lemma_forms_apart(d, m, c);
        } else if exists|d: QueryColumn| #![trigger sql_ne(d)] sql == sql_ne(d) {
            let d = choose|d: QueryColumn| #![trigger sql_ne(d)] sql == sql_ne(d);
            lemma_forms_apart(d, 0, c);
        } else if exists|d: QueryColumn| #![trigger sql_eq(d)] sql == sql_eq(d) && args.len() == 1 && sql_equal(
            column_value(v, d),
            args[0],
        ) {
            let d = choose|d: QueryColumn|
                #![trigger sql_eq(d)]
                sql == sql_eq(d) && args.len() == 1 && sql_equal(column_value(v, d), args[0]);
            lemma_eq_injective(c, d);
        } else {
            lemma_forms_apart(c, 0, c);
        }
    }
}

proof fn lemma_search_means(args: Seq<StoredValue>, v: RowView, names: Set<Seq<char>>)
    ensures
        condition_holds(search_text(), args, v, names) <==> args.len() == 2 && (like_value(v.title, args[0])
            || like_value(v.description, args[1])),
{
    let sql = search_text();
    if condition_holds(sql, args, v, names) {
        if exists|d: QueryColumn, m: nat| #![trigger sql_in(d, m)] sql == sql_in(d, m) {
            let (d, m) = choose|d: QueryColumn, m: nat| #![trigger sql_in(d, m)] sql == sql_in(d, m);
            lemma_forms_apart(d, m, d);
        } else if exists|d: QueryColumn| #![trigger sql_ne(d)] sql == sql_ne(d) {
            let d = choose|d: QueryColumn| #![trigger sql_ne(d)] sql == sql_ne(d);
            lemma_forms_apart(d, 0, d);
        } else if exists|d: QueryColumn| #![trigger sql_eq(d)] sql == sql_eq(d) {
            let d = choose|d: QueryColumn| #![trigger sql_eq(d)] sql == sql_eq(d);
            lemma_forms_apart(d, 0, d);
        } else {
            lemma_forms_apart(QueryColumn::Status, 0, QueryColumn::Status);
        }
    }
}

proof fn lemma_label_means(args: Seq<StoredValue>, v: RowView, names: Set<Seq<char>>)
    ensures
        condition_holds(label_text(), args, v, names) <==> args.len() == 1 && label_named(args[0], names),
{
    let sql = label_text();
    if condition_holds(sql, args, v, names) {
        if exists|d: QueryColumn, m: nat| #![trigger sql_in(d, m)] sql == sql_in(d, m) {
            let (d, m) = choose|d: QueryColumn, m: nat| #![trigger sql_in(d, m)] sql == sql_in(d, m);
            lemma_forms_apart(d, m, d);
        } else if exists|d: QueryColumn| #![trigger sql_ne(d)] sql == sql_ne(d) {
            let d = choose|d: QueryColumn| #![trigger sql_ne(d)] sql == sql_ne(d);
            lemma_forms_apart(d, 0, d);
        } else if exists|d: QueryColumn| #![trigger sql_eq(d)] sql == sql_eq(d) {
            let d = choose|d: QueryColumn| #![trigger sql_eq(d)] sql == sql_eq(d);
            lemma_forms_apart(d, 0, d);
        } else {
            lemma_forms_apart(QueryColumn::Status, 0, QueryColumn::Status);
        }
    }
}

/// The texts the SELECT is built from are of the known forms.
proof fn lemma_texts_are_forms(n: nat)
    ensures
        in_list("status"@, n) == sql_in(QueryColumn::Status, n),
        in_list("priority"@, n) == sql_in(QueryColumn::Priority, n),
        in_list("kind"@, n) == sql_in(QueryColumn::Kind, n),
        "status <> ?"@ == sql_ne(QueryColumn::Status),
        "assignee = ?"@ == sql_eq(QueryColumn::Assignee),
        "parent_id = ?"@ == sql_eq(QueryColumn::ParentId),
        search_condition() == search_text(),
        label_condition() == label_text(),
{
    reveal_strlit(")");
    reveal_strlit("status");
    reveal_strlit("priority");
    reveal_strlit("kind");
    reveal_strlit("assignee");
    reveal_strlit("parent_id");
    reveal_strlit(" <> ?");
    reveal_strlit(" = ?");
    reveal_strlit("status <> ?");
    reveal_strlit("assignee = ?");
    reveal_strlit("parent_id = ?");
    lemma_placeholders_are_marks(n);
    assert(")"@ =~= seq![')']);
    assert(in_list("status"@, n) =~= sql_in(QueryColumn::Status, n));
    assert(in_list("priority"@, n) =~= sql_in(QueryColumn::Priority, n));
    assert(in_list("kind"@, n) =~= sql_in(QueryColumn::Kind, n));
    assert("status <> ?"@ =~= sql_ne(QueryColumn::Status));
    assert("assignee = ?"@ =~= sql_eq(QueryColumn::Assignee));
    assert("parent_id = ?"@ =~= sql_eq(QueryColumn::ParentId));
}

/// A list condition holds exactly when the column's text is one of the labels.
proof fn lemma_list_holds(c: QueryColumn, labels: Seq<Seq<char>>, text: Seq<char>, v: RowView, names: Set<Seq<char>>)
    requires
        column_value(v, c) == StoredValue::Text(text),
    ensures
        condition_holds(sql_in(c, labels.len()), text_values(labels), v, names) <==> exists|i: int|
            0 <= i < labels.len() && text == #[trigger] labels[i],
{
    lemma_in_means(c, labels.len(), text_values(labels), v, names);
    let args = text_values(labels);
    if exists|i: int| 0 <= i < labels.len() && text == #[trigger] labels[i] {
        let i = choose|i: int| 0 <= i < labels.len() && text == #[trigger] labels[i];
        assert(sql_equal(column_value(v, c), args[i]));
    }
    if exists|i: int| 0 <= i < labels.len() && sql_equal(column_value(v, c), #[trigger] args[i]) {
        let i = choose|i: int| 0 <= i < labels.len() && sql_equal(column_value(v, c), #[trigger] args[i]);
        assert(text == labels[i]);
    }
}

proof fn lemma_status_part(c: StatusClause, v: RowView, names: Set<Seq<char>>)
    ensures
        all_hold(status_conditions(c), v, names) <==> match c {
            StatusClause::Any => true,
            StatusClause::In(w) => exists|i: int| 0 <= i < w@.len() && v.status == #[trigger] w@[i].spec_label(),
            StatusClause::Not(st) => v.status != st.spec_label(),
        },
{
    let p = status_conditions(c);
    match c {
        StatusClause::Any => {},
        StatusClause::In(w) => {
            lemma_texts_are_forms(w@.len());
            let labels = status_labels(w@);
            lemma_list_holds(QueryColumn::Status, labels, v.status, v, names);
            assert(all_hold(p, v, names) <==> condition_holds(p[0].0, p[0].1, v, names));
            if exists|i: int| 0 <= i < labels.len() && v.status == #[trigger] labels[i] {
                let i = choose|i: int| 0 <= i < labels.len() && v.status == #[trigger] labels[i];
                assert(v.status == w@[i].spec_label());
            }
            if exists|i: int| 0 <= i < w@.len() && v.status == #[trigger] w@[i].spec_label() {
                let i = choose|i: int| 0 <= i < w@.len() && v.status == #[trigger] w@[i].spec_label();
                assert(v.status == labels[i]);
            }
        },
        StatusClause::Not(st) => {
            lemma_texts_are_forms(0);
            lemma_ne_means(QueryColumn::Status, p[0].1, v, names);
            assert(all_hold(p, v, names) <==> condition_holds(p[0].0, p[0].1, v, names));
        },
    }
}

proof fn lemma_priority_part(o: Option<Vec<Priority>>, v: RowView, names: Set<Seq<char>>)
    ensures
        all_hold(priority_conditions(o), v, names) <==> match o {
            Some(w) => exists|i: int| 0 <= i < w@.len() && v.priority == #[trigger] w@[i].spec_label(),
            None => true,
        },
{
    let p = priority_conditions(o);
    if let Some(w) = o {
        lemma_texts_are_forms(w@.len());
        let labels = priority_labels(w@);
        lemma_list_holds(QueryColumn::Priority, labels, v.priority, v, names);
        assert(all_hold(p, v, names) <==> condition_holds(p[0].0, p[0].1, v, names));
        if exists|i: int| 0 <= i < labels.len() && v.priority == #[trigger] labels[i] {
            let i = choose|i: int| 0 <= i < labels.len() && v.priority == #[trigger] labels[i];
            assert(v.priority == w@[i].spec_label());
        }
        if exists|i: int| 0 <= i < w@.len() && v.priority == #[trigger] w@[i].spec_label() {
            let i = choose|i: int| 0 <= i < w@.len() && v.priority == #[trigger] w@[i].spec_label();
            assert(v.priority == labels[i]);
        }
    }
}

proof fn lemma_kind_part(o: Option<Vec<Kind>>, v: RowView, names: Set<Seq<char>>)
    ensures
        all_hold(kind_conditions(o), v, names) <==> match o {
            Some(w) => exists|i: int| 0 <= i < w@.len() && v.kind == #[trigger] w@[i].spec_label(),
            None => true,
        },
{
    let p = kind_conditions(o);
    if let Some(w) = o {
        lemma_texts_are_forms(w@.len());
        let labels = kind_labels(w@);
        lemma_list_holds(QueryColumn::Kind, labels, v.kind, v, names);
        assert(all_hold(p, v, names) <==> condition_holds(p[0].0, p[0].1, v, names));
        if exists|i: int| 0 <= i < labels.len() && v.kind == #[trigger] labels[i] {
            let i = choose|i: int| 0 <= i < labels.len() && v.kind == #[trigger] labels[i];
            assert(v.kind == w@[i].spec_label());
        }
        if exists|i: int| 0 <= i < w@.len() && v.kind == #[trigger] w@[i].spec_label() {
            let i = choose|i: int| 0 <= i < w@.len() && v.kind == #[trigger] w@[i].spec_label();
            assert(v.kind == labels[i]);
        }
    }
}

proof fn lemma_single_parts(q: IssueQuery, v: RowView, names: Set<Seq<char>>)
    ensures
        all_hold(assignee_conditions(q.assignee), v, names) <==> match q.assignee {
            Some(a) => v.assignee == Some(a@),
            None => true,
        },
        all_hold(parent_conditions(q.parent_id), v, names) <==> match q.parent_id {
            Some(p) => v.parent_id == Some(p),
            None => true,
        },
        all_hold(search_conditions(q.search), v, names) <==> match q.search {
            Some(t) => like_matches(v.title, seq!['%'] + t@ + seq!['%']) || like_matches(
                v.description,
                seq!['%'] + t@ + seq!['%'],
            ),
            None => true,
        },
{
    lemma_texts_are_forms(0);
    let pa = assignee_conditions(q.assignee);
    if pa.len() == 1 {
        lemma_eq_means(QueryColumn::Assignee, pa[0].1, v, names);
        assert(all_hold(pa, v, names) <==> condition_holds(pa[0].0, pa[0].1, v, names));
    }
    let pp = parent_conditions(q.parent_id);
    if pp.len() == 1 {
        lemma_eq_means(QueryColumn::ParentId, pp[0].1, v, names);
        assert(all_hold(pp, v, names) <==> condition_holds(pp[0].0, pp[0].1, v, names));
    }
    let ps = search_conditions(q.search);
    if let Some(t) = q.search {
        reveal_strlit("%");
        assert(like_pattern(t@) =~= seq!['%'] + t@ + seq!['%']);
        lemma_search_means(ps[0].1, v, names);
        assert(all_hold(ps, v, names) <==> condition_holds(ps[0].0, ps[0].1, v, names));
    }
}

proof fn lemma_label_part(o: Option<Vec<String>>, v: RowView, names: Set<Seq<char>>)
    ensures
        all_hold(label_conditions(o), v, names) <==> match o {
            Some(l) => forall|i: int| 0 <= i < l@.len() ==> names.contains(#[trigger] l@[i]@),
            None => true,
        },
{
    lemma_texts_are_forms(0);
    if let Some(l) = o {
        let p = label_conditions(o);
        if all_hold(p, v, names) {
            assert forall|i: int| 0 <= i < l@.len() implies names.contains(#[trigger] l@[i]@) by {
                assert(condition_holds(p[i].0, p[i].1, v, names));
                lemma_label_means(p[i].1, v, names);
            }
        }
        if forall|i: int| 0 <= i < l@.len() ==> names.contains(#[trigger] l@[i]@) {
            assert forall|i: int| 0 <= i < p.len() implies condition_holds(#[trigger] p[i].0, p[i].1, v, names) by {
                lemma_label_means(p[i].1, v, names);
                assert(names.contains(l@[i]@));
            }
        }
    }
}

/// The WHERE of an issue query selects exactly the issues the query asks
/// for. Its conditions, with their bound values, are the texts and the
/// values of the SELECT; read as SQL, they all hold of a stored row (with
/// the label names it carries) exactly when the row is one the query asks
/// for: the status, priority and kind labels among those listed (or the
/// status not the one excluded), the assignee and parent given, the search
/// text in the title or the description, every label given.
pub proof fn lemma_query_selects(q: IssueQuery, v: RowView, names: Set<Seq<char>>)
    ensures
        pair_sqls(query_conditions(q)) == condition_sqls(q),
        pair_args(query_conditions(q)) == condition_args(q),
        all_hold(query_conditions(q), v, names) <==> issue_selected(q, v, names),
{
    lemma_conditions_are_the_select(q);
    let p1 = status_conditions(q.status);
    let p2 = priority_conditions(q.priority);
    let p3 = kind_conditions(q.kind);
    let p4 = assignee_conditions(q.assignee);
    let p5 = parent_conditions(q.parent_id);
    let p6 = search_conditions(q.search);
    let p7 = label_conditions(q.labels);
    lemma_all_hold_concat(p1, p2, v, names);
    lemma_all_hold_concat(p1 + p2, p3, v, names);
    lemma_all_hold_concat(p1 + p2 + p3, p4, v, names);
    lemma_all_hold_concat(p1 + p2 + p3 + p4, p5, v, names);
    lemma_all_hold_concat(p1 + p2 + p3 + p4 + p5, p6, v, names);
    lemma_all_hold_concat(p1 + p2 + p3 + p4 + p5 + p6, p7, v, names);
    lemma_status_part(q.status, v, names);
    lemma_priority_part(q.priority, v, names);
    lemma_kind_part(q.kind, v, names);
    lemma_single_parts(q, v, names);
    lemma_label_part(q.labels, v, names);
}

/// `s` ends with `t`.
pub open spec fn ends_with(s: Seq<char>, t: Seq<char>) -> bool {
    t.len() <= s.len() && s.skip(s.len() - t.len()) == t
}

/// The statement returns at most `n` rows: it ends with `LIMIT n`, or with
/// `LIMIT n OFFSET m`.
pub open spec fn caps_rows(sql: Seq<char>, n: int) -> bool {
    ||| ends_with(sql, " LIMIT "@ + decimal_text(n))
    ||| exists|m: int| m >= 0 && ends_with(sql, " LIMIT "@ + decimal_text(n) + " OFFSET "@ + #[trigger] decimal_text(m))
}

proof fn lemma_ends_with_tail(x: Seq<char>, t: Seq<char>)
    ensures
        ends_with(x + t, t),
{
    assert((x + t).skip(x.len() as int) =~= t);
}

/// A query with a limit returns at most that many rows, whether or not it
/// has an offset; a query with an offset skips that many rows.
pub proof fn lemma_select_limit(q: IssueQuery)
    ensures
        q.limit matches Some(n) ==> caps_rows(spec_select_sql(q), n as int),
        q.offset matches Some(m) ==> ends_with(spec_select_sql(q), " OFFSET "@ + decimal_text(m as int)),
{
    let x = select_head() + where_part(condition_sqls(q)) + order_part(q.ordered);
    reveal_strlit(" LIMIT -1 OFFSET ");
    reveal_strlit(" OFFSET ");
    match (q.limit, q.offset) {
        (Some(n), Some(m)) => {
            let t = " LIMIT "@ + decimal_text(n as int) + " OFFSET "@ + decimal_text(m as int);
            assert(spec_select_sql(q) == x + t);
            lemma_ends_with_tail(x, t);
            assert(t =~= (" LIMIT "@ + decimal_text(n as int)) + (" OFFSET "@ + decimal_text(m as int)));
            lemma_ends_with_tail(x + (" LIMIT "@ + decimal_text(n as int)), " OFFSET "@ + decimal_text(m as int));
            assert(x + t =~= x + (" LIMIT "@ + decimal_text(n as int)) + (" OFFSET "@ + decimal_text(m as int)));
        },
        (Some(n), None) => {
            let t = " LIMIT "@ + decimal_text(n as int);
            assert(spec_select_sql(q) == x + t);
            lemma_ends_with_tail(x, t);
        },
        (None, Some(m)) => {
            let t = " LIMIT -1 OFFSET "@ + decimal_text(m as int);
            assert(spec_select_sql(q) == x + t);
            assert(" LIMIT -1 OFFSET "@ =~= " LIMIT -1"@ + " OFFSET "@) by {
                reveal_strlit(" LIMIT -1");
            }
            assert(x + t =~= (x + " LIMIT -1"@) + (" OFFSET "@ + decimal_text(m as int)));
            lemma_ends_with_tail(x + " LIMIT -1"@, " OFFSET "@ + decimal_text(m as int));
        },
        (None, None) => {},
    }
}

/// Conditions joined by `AND`, first to last.
pub open spec fn and_list(c: Seq<Seq<char>>) -> Seq<char>
    decreases c.len(),
{
    if c.len() == 0 {
        seq![]
    } else if c.len() == 1 {
        c[0]
    } else {
        c[0] + " AND "@ + and_list(c.drop_first())
    }
}

proof fn lemma_and_joined_is_and_list(c: Seq<Seq<char>>)
    ensures
        and_joined(c) == and_list(c),
    decreases c.len(),
{
    if c.len() >= 2 {
        let a = " AND "@;
        lemma_and_joined_is_and_list(c.drop_last());
        lemma_and_joined_is_and_list(c.drop_first());
        if c.len() == 2 {
            assert(c.drop_last() =~= seq![c[0]]);
            assert(c.drop_first() =~= seq![c[1]]);
        } else {
            let d = c.drop_first();
            lemma_and_joined_is_and_list(d.drop_last());
            assert(c.drop_last().drop_first() =~= d.drop_last());
            assert(c.drop_last()[0] == c[0]);
            assert(d.last() == c.last());
            assert(and_joined(d) == and_joined(d.drop_last()) + a + d.last());
            assert(and_list(c.drop_last()) == c[0] + a + and_list(c.drop_last().drop_first()));
            assert(c[0] + a + and_list(d.drop_last()) + a + c.last() =~= c[0] + a + (and_list(d.drop_last()) + a
                + c.last()));
        }
    }
}

/// The shape of the SELECT: the columns of an issue row from the issues
/// table; when there are conditions, `WHERE` and the conditions joined by
/// `AND`; when ordered, by the rank of the priority (`none` 0 up to
/// `critical` 4) descending, then id ascending; then the limit and offset.
pub proof fn lemma_select_shape(q: IssueQuery)
    ensures
        spec_select_sql(q)
            == "SELECT id, parent_id, title, description, status, priority, kind, assignee, created_at, updated_at FROM issues"@
            + (if condition_sqls(q).len() == 0 {
            seq![]
        } else {
            " WHERE "@ + and_list(condition_sqls(q))
        }) + (if q.ordered {
            " ORDER BY CASE priority WHEN 'none' THEN 0 WHEN 'low' THEN 1 WHEN 'medium' THEN 2 WHEN 'high' THEN 3 WHEN 'critical' THEN 4 ELSE 0 END DESC, id ASC"@
        } else {
            seq![]
        }) + limit_part(q.limit, q.offset),
{
    lemma_and_joined_is_and_list(condition_sqls(q));
    lemma_rank_sql_text();
    reveal_strlit(" ORDER BY ");
    reveal_strlit(" DESC, id ASC");
    reveal_strlit(
        "CASE priority WHEN 'none' THEN 0 WHEN 'low' THEN 1 WHEN 'medium' THEN 2 WHEN 'high' THEN 3 WHEN 'critical' THEN 4 ELSE 0 END",
    );
    reveal_strlit(
        " ORDER BY CASE priority WHEN 'none' THEN 0 WHEN 'low' THEN 1 WHEN 'medium' THEN 2 WHEN 'high' THEN 3 WHEN 'critical' THEN 4 ELSE 0 END DESC, id ASC",
    );
    if q.ordered {
        assert(order_part(q.ordered)
            =~= " ORDER BY CASE priority WHEN 'none' THEN 0 WHEN 'low' THEN 1 WHEN 'medium' THEN 2 WHEN 'high' THEN 3 WHEN 'critical' THEN 4 ELSE 0 END DESC, id ASC"@);
    }
}

} // verus!
