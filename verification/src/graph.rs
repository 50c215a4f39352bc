//! The dependency graph formed by `blocks` and `depends-on` relations.
//!
//! A `blocks` relation from A to B is the edge A → B; a `depends-on`
//! relation from A to B is the edge B → A. Adding a relation that would
//! close a cycle is refused. Whether it would is decided by a breadth-first
//! search that asks the store, one node at a time, for the relations
//! leaving that node: [`ReachSearch`] holds the search and decides, the
//! caller performs each query and hands the rows back.

use std::collections::HashSet;
use std::collections::VecDeque;

use vstd::prelude::*;

use crate::db::{stored, ColumnValue, StoredValue};
use crate::errors::BmoError;
use crate::model::relation::RelationKind;
use crate::text::str_eq;

verus! {

broadcast use vstd::std_specs::hash::group_hash_axioms;

/// One stored relation as the neighbour query returns it: its endpoints and
/// the stored text of its kind.
#[derive(Debug)]
pub struct EdgeRow {
    pub from_id: i64,
    pub to_id: i64,
    pub kind: String,
}

/// The node that `row` leads to, when it is an edge of the dependency graph.
pub open spec fn row_next(row: EdgeRow) -> Option<i64> {
    if row.kind@ == RelationKind::Blocks.spec_label() {
        Some(row.to_id)
    } else if row.kind@ == RelationKind::DependsOn.spec_label() {
        Some(row.from_id)
    } else {
        None
    }
}

/// `row` is an edge of the dependency graph that leaves `node`: the rows the
/// neighbour query selects for `node`.
pub open spec fn row_leaves(row: EdgeRow, node: i64) -> bool {
    ||| row.kind@ == RelationKind::Blocks.spec_label() && row.from_id == node
    ||| row.kind@ == RelationKind::DependsOn.spec_label() && row.to_id == node
}

/// The neighbour query for a node: the stored relations that leave it, a
/// `blocks` relation from it or a `depends-on` relation to it, as
/// `row_leaves` says. The node and the two kind labels are bound.
pub open spec fn spec_neighbour_sql() -> Seq<char> {
    "SELECT from_id, to_id, relation FROM issue_relations WHERE (relation = ? AND from_id = ?) OR (relation = ? AND to_id = ?)"@
}

pub open spec fn neighbour_args(node: i64) -> Seq<StoredValue> {
    seq![
        StoredValue::Text(RelationKind::Blocks.spec_label()),
        StoredValue::Int(node),
        StoredValue::Text(RelationKind::DependsOn.spec_label()),
        StoredValue::Int(node),
    ]
}

/// The neighbour query selects, from the stored relations, the `blocks`
/// relations from the node and the `depends-on` relations to it: the edges
/// of the dependency graph that leave it.
pub proof fn lemma_neighbour_query(node: i64)
    ensures
        spec_neighbour_sql() == "SELECT from_id, to_id, relation FROM issue_relations"@
            + " WHERE (relation = ? AND from_id = ?)"@ + " OR (relation = ? AND to_id = ?)"@,
        neighbour_args(node) == seq![
            StoredValue::Text("blocks"@),
            StoredValue::Int(node),
            StoredValue::Text("depends-on"@),
            StoredValue::Int(node),
        ],
{
    reveal_strlit(
        "SELECT from_id, to_id, relation FROM issue_relations WHERE (relation = ? AND from_id = ?) OR (relation = ? AND to_id = ?)",
    );
    reveal_strlit("SELECT from_id, to_id, relation FROM issue_relations");
    reveal_strlit(" WHERE (relation = ? AND from_id = ?)");
    reveal_strlit(" OR (relation = ? AND to_id = ?)");
    assert(spec_neighbour_sql() =~= "SELECT from_id, to_id, relation FROM issue_relations"@
        + " WHERE (relation = ? AND from_id = ?)"@ + " OR (relation = ? AND to_id = ?)"@);
}

/// The neighbour query for `node` and the values bound to it, in order.
pub fn neighbour_sql(node: i64) -> (r: (String, Vec<ColumnValue>))
    ensures
        r.0@ == spec_neighbour_sql(),
        r.1@.map_values(|a: ColumnValue| stored(a)) == neighbour_args(node),
{
    let sql = String::from_str(
        "SELECT from_id, to_id, relation FROM issue_relations WHERE (relation = ? AND from_id = ?) OR (relation = ? AND to_id = ?)",
    );
    let mut args: Vec<ColumnValue> = Vec::new();
    args.push(ColumnValue::Text(String::from_str(RelationKind::Blocks.label())));
    args.push(ColumnValue::Int(node));
    args.push(ColumnValue::Text(String::from_str(RelationKind::DependsOn.label())));
    args.push(ColumnValue::Int(node));
    assert(args@.map_values(|a: ColumnValue| stored(a)) =~= neighbour_args(node));
    (sql, args)
}

/// The stored relations `rows` hold an edge from `a` to `b`.
pub open spec fn dag_edge(rows: Seq<EdgeRow>, a: i64, b: i64) -> bool {
    exists|i: int| 0 <= i < rows.len() && #[trigger] row_leaves(rows[i], a) && row_next(rows[i]) == Some(b)
}

/// `p` is a walk along edges of `rows`.
pub open spec fn is_walk(rows: Seq<EdgeRow>, p: Seq<i64>) -> bool {
    &&& p.len() >= 1
    &&& forall|i: int| 0 <= i < p.len() - 1 ==> #[trigger] dag_edge(rows, p[i], p[i + 1])
}

/// `b` can be reached from `a` along edges of `rows` (in zero or more steps).
pub open spec fn reaches(rows: Seq<EdgeRow>, a: i64, b: i64) -> bool {
    exists|p: Seq<i64>| #[trigger] is_walk(rows, p) && p[0] == a && p.last() == b
}

/// No walk of one or more steps along edges of `rows` returns to where it began.
pub open spec fn acyclic(rows: Seq<EdgeRow>) -> bool {
    forall|p: Seq<i64>| #[trigger] is_walk(rows, p) && p.len() >= 2 ==> p[0] != p.last()
}

/// `batch` is what the neighbour query for `node` returns when the store holds
/// `rows`: stored rows leaving `node`, and all of them.
pub open spec fn answers(rows: Seq<EdgeRow>, node: i64, batch: Seq<EdgeRow>) -> bool {
    &&& forall|j: int| 0 <= j < batch.len() ==> rows.contains(#[trigger] batch[j]) && row_leaves(batch[j], node)
    &&& forall|i: int| 0 <= i < rows.len() && #[trigger] row_leaves(rows[i], node) ==> batch.contains(rows[i])
}

/// Every edge of `rows` that leaves a node of `seen` ends in `seen`.
pub open spec fn closed_under(rows: Seq<EdgeRow>, seen: Set<i64>) -> bool {
    forall|v: i64, w: i64| #![trigger dag_edge(rows, v, w), seen.contains(v)]
        seen.contains(v) && dag_edge(rows, v, w) ==> seen.contains(w)
}

pub proof fn lemma_reaches_self(rows: Seq<EdgeRow>, a: i64)
    ensures
        reaches(rows, a, a),
{
    let p = seq![a];
    assert(is_walk(rows, p));
}

pub proof fn lemma_reaches_extend(rows: Seq<EdgeRow>, a: i64, b: i64, c: i64)
    requires
        reaches(rows, a, b),
        dag_edge(rows, b, c),
    ensures
        reaches(rows, a, c),
{
    let p = choose|p: Seq<i64>| #[trigger] is_walk(rows, p) && p[0] == a && p.last() == b;
    let q = p.push(c);
    assert forall|i: int| 0 <= i < q.len() - 1 implies #[trigger] dag_edge(rows, q[i], q[i + 1]) by {
        if i < p.len() - 1 {
            assert(dag_edge(rows, p[i], p[i + 1]));
        }
    }
    assert(is_walk(rows, q));
}

/// A walk that starts in a set closed under the edges stays in it.
pub proof fn lemma_closed_walk(rows: Seq<EdgeRow>, seen: Set<i64>, p: Seq<i64>)
    requires
        closed_under(rows, seen),
        is_walk(rows, p),
        seen.contains(p[0]),
    ensures
        seen.contains(p.last()),
    decreases p.len(),
{
    if p.len() > 1 {
        let q = p.drop_last();
        assert forall|i: int| 0 <= i < q.len() - 1 implies #[trigger] dag_edge(rows, q[i], q[i + 1]) by {
            assert(dag_edge(rows, p[i], p[i + 1]));
        }
        lemma_closed_walk(rows, seen, q);
        let k = p.len() - 2;
        assert(dag_edge(rows, p[k], p[k + 1]));
        assert(seen.contains(p[k]));
    }
}

/// A row handed back for `node` that leads to `w` is an edge from `node` to `w`.
proof fn lemma_batch_edge(rows: Seq<EdgeRow>, node: i64, batch: Seq<EdgeRow>, j: int, w: i64)
    requires
        answers(rows, node, batch),
        0 <= j < batch.len(),
        row_next(batch[j]) == Some(w),
    ensures
        dag_edge(rows, node, w),
{
    assert(rows.contains(batch[j]) && row_leaves(batch[j], node));
    let i = choose|i: int| 0 <= i < rows.len() && rows[i] == batch[j];
    assert(row_leaves(rows[i], node));
}

/// What the search has learnt once the rows of `cur` are absorbed: the
/// nodes appended to the queue, and where every edge out of `cur` ends.
pub open spec fn absorbed(target: i64, s0: Set<i64>, batch: Seq<EdgeRow>, pushed: Seq<i64>) -> bool {
    &&& forall|k: int| 0 <= k < pushed.len() ==> #[trigger] pushed[k] != target
        && exists|j: int| 0 <= j < batch.len() && row_next(#[trigger] batch[j]) == Some(pushed[k])
    &&& forall|j: int| 0 <= j < batch.len() && (#[trigger] row_next(batch[j])) is Some ==> {
        let w = row_next(batch[j])->0;
        w != target && (s0.contains(w) || pushed.contains(w))
    }
}

/// After the rows of `cur` are absorbed, every queued node differs from the
/// target and can be reached; every edge out of a seen node ends in a seen or
/// queued node.
proof fn lemma_absorbed(
    rows: Seq<EdgeRow>,
    origin: i64,
    target: i64,
    s0: Set<i64>,
    q0: Seq<i64>,
    cur: i64,
    batch: Seq<EdgeRow>,
    pushed: Seq<i64>,
)
    requires
        search_inv(rows, origin, target, s0, q0, cur),
        answers(rows, cur, batch),
        absorbed(target, s0, batch, pushed),
    ensures
        forall|i: int| 0 <= i < (q0 + pushed).len() ==> #[trigger] (q0 + pushed)[i] != target
            && reaches(rows, origin, (q0 + pushed)[i]),
        forall|v: i64, w: i64| #![trigger dag_edge(rows, v, w), s0.contains(v)]
            s0.contains(v) && dag_edge(rows, v, w) ==> s0.contains(w) || (q0 + pushed).contains(w),
{
    let qa = q0 + pushed;
    assert forall|i: int| 0 <= i < qa.len() implies #[trigger] qa[i] != target && reaches(rows, origin, qa[i]) by {
        if i < q0.len() {
            assert(q0[i] == qa[i]);
        } else {
            let k = i - q0.len();
            assert(pushed[k] == qa[i]);
            let j = choose|j: int| 0 <= j < batch.len() && row_next(#[trigger] batch[j]) == Some(pushed[k]);
            lemma_batch_edge(rows, cur, batch, j, pushed[k]);
            lemma_reaches_extend(rows, origin, cur, pushed[k]);
        }
    }
    assert forall|v: i64, w: i64| #![trigger dag_edge(rows, v, w), s0.contains(v)]
        s0.contains(v) && dag_edge(rows, v, w) implies s0.contains(w) || qa.contains(w) by {
        if v != cur {
            if q0.contains(w) {
                let k = choose|k: int| 0 <= k < q0.len() && q0[k] == w;
                assert(qa[k] == w);
            }
        } else {
            let i = choose|i: int| 0 <= i < rows.len() && #[trigger] row_leaves(rows[i], v) && row_next(rows[i]) == Some(w);
            assert(batch.contains(rows[i]));
            let j = choose|j: int| 0 <= j < batch.len() && batch[j] == rows[i];
            assert(row_next(batch[j]) is Some);
            if pushed.contains(w) {
                let k = choose|k: int| 0 <= k < pushed.len() && pushed[k] == w;
                assert(qa[q0.len() + k] == w);
            }
        }
    }
}

/// A node popped from the queue and not yet seen becomes the next one queried.
proof fn lemma_step_query(
    rows: Seq<EdgeRow>,
    origin: i64,
    target: i64,
    s0: Set<i64>,
    q0: Seq<i64>,
    cur: i64,
    batch: Seq<EdgeRow>,
    pushed: Seq<i64>,
    popped: int,
)
    requires
        search_inv(rows, origin, target, s0, q0, cur),
        answers(rows, cur, batch),
        absorbed(target, s0, batch, pushed),
        0 <= popped < (q0 + pushed).len(),
        forall|k: int| 0 <= k < popped ==> s0.contains(#[trigger] (q0 + pushed)[k]),
        !s0.contains((q0 + pushed)[popped]),
    ensures
        search_inv(
            rows,
            origin,
            target,
            s0.insert((q0 + pushed)[popped]),
            (q0 + pushed).subrange(popped + 1, (q0 + pushed).len() as int),
            (q0 + pushed)[popped],
        ),
{
    let qa = q0 + pushed;
    let c = qa[popped];
    let s1 = s0.insert(c);
    let q1 = qa.subrange(popped + 1, qa.len() as int);
    lemma_absorbed(rows, origin, target, s0, q0, cur, batch, pushed);
    assert(qa[popped] != target && reaches(rows, origin, qa[popped]));
    assert forall|i: int| 0 <= i < q1.len() implies #[trigger] q1[i] != target && reaches(rows, origin, q1[i]) by {
        assert(q1[i] == qa[popped + 1 + i]);
    }
    assert forall|v: i64| #[trigger] s1.contains(v) implies reaches(rows, origin, v) by {
        if v != c {
            assert(s0.contains(v));
        }
    }
    assert forall|v: i64, w: i64| #![trigger dag_edge(rows, v, w), s1.contains(v)]
        s1.contains(v) && v != c && dag_edge(rows, v, w) implies s1.contains(w) || q1.contains(w) by {
        assert(s0.contains(v));
        if !s0.contains(w) {
            assert(qa.contains(w));
            let k = choose|k: int| 0 <= k < qa.len() && qa[k] == w;
            if k < popped {
                assert(s0.contains(qa[k]));
            } else if k > popped {
                assert(q1[k - popped - 1] == w);
            }
        }
    }
}

/// Once the queue is exhausted, the target cannot be reached.
proof fn lemma_step_exhausted(
    rows: Seq<EdgeRow>,
    origin: i64,
    target: i64,
    s0: Set<i64>,
    q0: Seq<i64>,
    cur: i64,
    batch: Seq<EdgeRow>,
    pushed: Seq<i64>,
)
    requires
        search_inv(rows, origin, target, s0, q0, cur),
        answers(rows, cur, batch),
        absorbed(target, s0, batch, pushed),
        forall|k: int| 0 <= k < (q0 + pushed).len() ==> s0.contains(#[trigger] (q0 + pushed)[k]),
    ensures
        !reaches(rows, origin, target),
{
    let qa = q0 + pushed;
    lemma_absorbed(rows, origin, target, s0, q0, cur, batch, pushed);
    assert forall|v: i64, w: i64| #![trigger dag_edge(rows, v, w), s0.contains(v)]
        s0.contains(v) && dag_edge(rows, v, w) implies s0.contains(w) by {
        if !s0.contains(w) {
            let k = choose|k: int| 0 <= k < qa.len() && qa[k] == w;
            assert(s0.contains(qa[k]));
        }
    }
    if reaches(rows, origin, target) {
        let p = choose|p: Seq<i64>| #[trigger] is_walk(rows, p) && p[0] == origin && p.last() == target;
        lemma_closed_walk(rows, s0, p);
    }
}

/// The state of a search for a path from an origin to a target.
pub struct ReachSearch {
    target: i64,
    visited: HashSet<i64>,
    queue: VecDeque<i64>,
    origin: Ghost<i64>,
    current: Ghost<i64>,
}

/// What the search asks for next.
#[derive(Debug)]
pub enum SearchStep {
    /// Hand back the rows that leave this node.
    Query(i64),
    /// The search is over: whether the target can be reached.
    Answer(bool),
}

/// The invariant of a search over the store `rows` from `origin`, while the
/// rows leaving `current` are awaited.
pub open spec fn search_inv(
    rows: Seq<EdgeRow>,
    origin: i64,
    target: i64,
    seen: Set<i64>,
    queue: Seq<i64>,
    current: i64,
) -> bool {
    &&& origin != target
    &&& seen.contains(origin)
    &&& seen.contains(current)
    &&& !seen.contains(target)
    &&& forall|i: int| 0 <= i < queue.len() ==> #[trigger] queue[i] != target && reaches(rows, origin, queue[i])
    &&& forall|v: i64| #[trigger] seen.contains(v) ==> reaches(rows, origin, v)
    &&& forall|v: i64, w: i64| #![trigger dag_edge(rows, v, w), seen.contains(v)]
        seen.contains(v) && v != current && dag_edge(rows, v, w) ==> seen.contains(w) || queue.contains(w)
}

/// The nodes that rows of the store lead to.
pub open spec fn row_targets(rows: Seq<EdgeRow>) -> Set<i64>
    decreases rows.len(),
{
    if rows.len() == 0 {
        Set::empty()
    } else {
        match row_next(rows.last()) {
            Some(v) => row_targets(rows.drop_last()).insert(v),
            None => row_targets(rows.drop_last()),
        }
    }
}

/// The nodes a search from `origin` can visit in a store that holds `rows`:
/// the origin, and the nodes that rows lead to. A finite set.
pub open spec fn search_nodes(rows: Seq<EdgeRow>, origin: i64) -> Set<i64> {
    row_targets(rows).insert(origin)
}

/// The nodes that rows lead to form a finite set, and a node is in it
/// exactly when some row leads to it.
pub proof fn lemma_row_targets(rows: Seq<EdgeRow>)
    ensures
        row_targets(rows).finite(),
        forall|v: i64| #[trigger] row_targets(rows).contains(v) <==> exists|i: int| 0 <= i < rows.len() && row_next(
            rows[i],
        ) == Some(v),
    decreases rows.len(),
{
    if rows.len() > 0 {
        let init = rows.drop_last();
        lemma_row_targets(init);
        assert forall|v: i64| #[trigger] row_targets(rows).contains(v) <==> exists|i: int|
            0 <= i < rows.len() && row_next(rows[i]) == Some(v) by {
            if row_targets(rows).contains(v) {
                if row_targets(init).contains(v) {
                    let i = choose|i: int| 0 <= i < init.len() && row_next(init[i]) == Some(v);
                    assert(rows[i] == init[i]);
                } else {
                    assert(row_next(rows[rows.len() - 1]) == Some(v));
                }
            }
            if exists|i: int| 0 <= i < rows.len() && row_next(rows[i]) == Some(v) {
                let i = choose|i: int| 0 <= i < rows.len() && row_next(rows[i]) == Some(v);
                if i < rows.len() - 1 {
                    assert(init[i] == rows[i]);
                }
            }
        }
    }
}

/// A node reached from another one in one or more steps is a node that a row leads to.
proof fn lemma_reached_is_target(rows: Seq<EdgeRow>, a: i64, b: i64)
    requires
        reaches(rows, a, b),
        a != b,
    ensures
        row_targets(rows).contains(b),
{
    let p = choose|p: Seq<i64>| #[trigger] is_walk(rows, p) && p[0] == a && p.last() == b;
    let n = p.len() as int;
    assert(n >= 2);
    assert(dag_edge(rows, p[n - 2], p[n - 2 + 1]));
    let i = choose|i: int| 0 <= i < rows.len() && #[trigger] row_leaves(rows[i], p[n - 2]) && row_next(rows[i]) == Some(p[n - 1]);
    lemma_row_targets(rows);
}

/// The nodes a consistent search has visited are nodes of the store.
proof fn lemma_seen_nodes(rows: Seq<EdgeRow>, origin: i64, target: i64, seen: Set<i64>, queue: Seq<i64>, current: i64)
    requires
        search_inv(rows, origin, target, seen, queue, current),
    ensures
        seen.subset_of(search_nodes(rows, origin)),
        search_nodes(rows, origin).finite(),
{
    lemma_row_targets(rows);
    assert forall|v: i64| #[trigger] seen.contains(v) implies search_nodes(rows, origin).contains(v) by {
        if v != origin {
            lemma_reached_is_target(rows, origin, v);
        }
    }
}

/// Visiting a node of a finite set not visited before leaves fewer of its nodes to visit.
pub(crate) proof fn lemma_fewer_left(nodes: Set<i64>, s0: Set<i64>, n: i64)
    requires
        nodes.finite(),
        nodes.contains(n),
        !s0.contains(n),
    ensures
        nodes.difference(s0.insert(n)).len() < nodes.difference(s0).len(),
{
    let d0 = nodes.difference(s0);
    vstd::set_lib::lemma_len_subset(d0, nodes);
    assert(nodes.difference(s0.insert(n)) =~= d0.remove(n));
}

impl ReachSearch {
    /// The node the search started from.
    pub closed spec fn origin(&self) -> i64 {
        self.origin@
    }

    /// The node the search looks for.
    pub closed spec fn target(&self) -> i64 {
        self.target
    }

    /// The node whose rows the search awaits.
    pub closed spec fn current(&self) -> i64 {
        self.current@
    }

    /// The search is consistent with a store that holds `rows`.
    pub closed spec fn inv(&self, rows: Seq<EdgeRow>) -> bool {
        search_inv(rows, self.origin@, self.target, self.visited@, self.queue@, self.current@)
    }

    /// The nodes the search has visited.
    pub closed spec fn seen(&self) -> Set<i64> {
        self.visited@
    }

    /// How many nodes of the store the search has yet to visit: each query
    /// lowers it, so a search over a store answered truthfully ends.
    pub open spec fn unvisited(&self, rows: Seq<EdgeRow>) -> nat {
        search_nodes(rows, self.origin()).difference(self.seen()).len()
    }

    /// A consistent search has visited only nodes of the store.
    pub proof fn lemma_seen_in_store(&self, rows: Seq<EdgeRow>)
        requires
            self.inv(rows),
        ensures
            self.seen().subset_of(search_nodes(rows, self.origin())),
            search_nodes(rows, self.origin()).finite(),
    {
        lemma_seen_nodes(rows, self.origin@, self.target, self.visited@, self.queue@, self.current@);
    }

    /// Starts a search for `target` from `start`. A node reaches itself, so
    /// when the two are equal the answer is at once `true`.
    pub fn begin(start: i64, target: i64) -> (r: (ReachSearch, SearchStep))
        ensures
            r.0.origin() == start,
            r.0.target() == target,
            start == target ==> r.1 == SearchStep::Answer(true),
            start != target ==> r.1 == SearchStep::Query(start) && r.0.current() == start,
            start != target ==> forall|rows: Seq<EdgeRow>| #[trigger] r.0.inv(rows),
            start != target ==> r.0.seen() == Set::<i64>::empty().insert(start),
    {
        let mut visited: HashSet<i64> = HashSet::new();
        let queue: VecDeque<i64> = VecDeque::new();
        if start == target {
            return (
                ReachSearch { target, visited, queue, origin: Ghost(start), current: Ghost(start) },
                SearchStep::Answer(true),
            );
        }
        visited.insert(start);
        let s = ReachSearch { target, visited, queue, origin: Ghost(start), current: Ghost(start) };
        assert forall|rows: Seq<EdgeRow>| #[trigger] s.inv(rows) by {
            lemma_reaches_self(rows, start);
            assert(s.visited@ =~= Set::empty().insert(start));
        }
        (s, SearchStep::Query(start))
    }

    /// Absorbs the rows that leave the node last asked for, then asks for the
    /// next node to visit, or answers. The search is breadth-first: the rows
    /// are taken in order, each node they lead to that was not yet visited is
    /// queued, and reaching the target ends the search at once.
    pub fn step(&mut self, batch: &Vec<EdgeRow>) -> (r: SearchStep)
        ensures
            final(self).origin() == old(self).origin(),
            final(self).target() == old(self).target(),
            r matches SearchStep::Query(n) ==> final(self).current() == n,
            r matches SearchStep::Query(n) ==> !old(self).seen().contains(n) && final(self).seen() == old(
                self,
            ).seen().insert(n),
            forall|rows: Seq<EdgeRow>| #[trigger] old(self).inv(rows) && answers(rows, old(self).current(), batch@)
                ==> match r {
                SearchStep::Answer(found) => found == reaches(rows, old(self).origin(), old(self).target()),
                SearchStep::Query(n) => final(self).inv(rows) && final(self).unvisited(rows) < old(self).unvisited(
                    rows,
                ),
            },
    {
        let ghost s0 = self.visited@;
        let ghost q0 = self.queue@;
        let ghost cur = self.current@;
        let ghost origin = self.origin@;
        let ghost mut pushed: Seq<i64> = Seq::empty();
        let mut i: usize = 0;
        while i < batch.len()
            invariant
                i <= batch.len(),
                self.visited@ == s0,
                self.queue@ == q0 + pushed,
                self.target == old(self).target,
                self.origin@ == origin,
                self.current@ == cur,
                s0 == old(self).visited@,
                q0 == old(self).queue@,
                cur == old(self).current@,
                origin == old(self).origin@,
                absorbed(self.target, s0, batch@.take(i as int), pushed),
            decreases batch.len() - i,
        {
            let ghost prev = pushed;
            let row = &batch[i];
            let next: i64;
            if str_eq(row.kind.as_str(), RelationKind::Blocks.label()) {
                next = row.to_id;
            } else if str_eq(row.kind.as_str(), RelationKind::DependsOn.label()) {
                next = row.from_id;
            } else {
                proof {
                    let b0 = batch@.take(i as int);
                    let b1 = batch@.take(i + 1);
                    assert(b1 =~= b0.push(batch@[i as int]));
                    assert(row_next(b1[i as int]) is None);
                    assert forall|k: int| 0 <= k < pushed.len() implies #[trigger] pushed[k] != self.target
                        && exists|j: int| 0 <= j < b1.len() && row_next(#[trigger] b1[j]) == Some(pushed[k]) by {
                        let j = choose|j: int| 0 <= j < b0.len() && row_next(#[trigger] b0[j]) == Some(pushed[k]);
                        assert(b1[j] == b0[j]);
                    }
                    assert forall|j: int| 0 <= j < b1.len() && (#[trigger] row_next(b1[j])) is Some implies {
                        let w = row_next(b1[j])->0;
                        w != self.target && (s0.contains(w) || pushed.contains(w))
                    } by {
                        assert(b1[j] == b0[j]);
                    }
                }
                i += 1;
                continue;
            }
            assert(row_next(batch@[i as int]) == Some(next));
            if next == self.target {
                assert forall|rows: Seq<EdgeRow>| #[trigger] old(self).inv(rows) && answers(rows, cur, batch@)
                    implies reaches(rows, origin, self.target) by {
                    lemma_batch_edge(rows, cur, batch@, i as int, next);
                    lemma_reaches_extend(rows, origin, cur, next);
                }
                return SearchStep::Answer(true);
            }
            if !self.visited.contains(&next) {
                self.queue.push_back(next);
                proof {
                    pushed = pushed.push(next);
                }
            }
            proof {
                let b1 = batch@.take(i + 1);
                assert(b1 =~= batch@.take(i as int).push(batch@[i as int]));
                assert forall|k: int| 0 <= k < pushed.len() implies #[trigger] pushed[k] != self.target
                    && exists|j: int| 0 <= j < b1.len() && row_next(#[trigger] b1[j]) == Some(pushed[k]) by {
                    if k < prev.len() {
                        assert(prev[k] == pushed[k]);
                        let j = choose|j: int| 0 <= j < i && row_next(#[trigger] batch@.take(i as int)[j]) == Some(prev[k]);
                        assert(b1[j] == batch@.take(i as int)[j]);
                    } else {
                        assert(b1[i as int] == batch@[i as int]);
                    }
                }
                assert forall|j: int| 0 <= j < b1.len() && (#[trigger] row_next(b1[j])) is Some implies {
                    let w = row_next(b1[j])->0;
                    w != self.target && (s0.contains(w) || pushed.contains(w))
                } by {
                    if j < i {
                        assert(b1[j] == batch@.take(i as int)[j]);
                        let w = row_next(b1[j])->0;
                        if prev.contains(w) {
                            let k = choose|k: int| 0 <= k < prev.len() && prev[k] == w;
                            assert(pushed[k] == w);
                        }
                    } else {
                        if !s0.contains(next) {
                            assert(pushed[pushed.len() - 1] == next);
                        }
                    }
                }
            }
            i += 1;
        }
        assert(batch@.take(batch.len() as int) =~= batch@);
        let ghost qa = q0 + pushed;
        let ghost mut popped: int = 0;
        loop
            invariant
                self.visited@ == s0,
                self.target == old(self).target,
                self.origin@ == origin,
                self.current@ == cur,
                s0 == old(self).visited@,
                q0 == old(self).queue@,
                cur == old(self).current@,
                origin == old(self).origin@,
                qa == q0 + pushed,
                absorbed(self.target, s0, batch@, pushed),
                0 <= popped <= qa.len(),
                self.queue@ == qa.subrange(popped, qa.len() as int),
                forall|k: int| 0 <= k < popped ==> s0.contains(#[trigger] qa[k]),
            decreases self.queue@.len(),
        {
            match self.queue.pop_front() {
                None => {
                    assert forall|rows: Seq<EdgeRow>| #[trigger] old(self).inv(rows) && answers(rows, cur, batch@)
                        implies !reaches(rows, origin, self.target) by {
                        lemma_step_exhausted(rows, origin, self.target, s0, q0, cur, batch@, pushed);
                    }
                    return SearchStep::Answer(false);
                },
                Some(c) => {
                    assert(c == qa[popped]);
                    if self.visited.insert(c) {
                        self.current = Ghost(c);
                        assert forall|rows: Seq<EdgeRow>| #[trigger] old(self).inv(rows) && answers(rows, cur, batch@)
                            implies self.inv(rows) && self.unvisited(rows) < old(self).unvisited(rows) by {
                            lemma_step_query(rows, origin, self.target, s0, q0, cur, batch@, pushed, popped);
                            assert(self.queue@ =~= qa.subrange(popped + 1, qa.len() as int));
                            lemma_seen_nodes(rows, origin, self.target, self.visited@, self.queue@, c);
                            lemma_fewer_left(search_nodes(rows, origin), s0, c);
                            assert(self.visited@ =~= s0.insert(c));
                        }
                        return SearchStep::Query(c);
                    }
                    proof {
                        assert(s0.insert(c) =~= s0);
                        popped = popped + 1;
                    }
                    assert(self.queue@ =~= qa.subrange(popped, qa.len() as int));
                },
            }
        }
    }
}


pub proof fn lemma_reaches_trans(rows: Seq<EdgeRow>, a: i64, b: i64, c: i64)
    requires
        reaches(rows, a, b),
        reaches(rows, b, c),
    ensures
        reaches(rows, a, c),
{
    let p = choose|p: Seq<i64>| #[trigger] is_walk(rows, p) && p[0] == a && p.last() == b;
    let q = choose|q: Seq<i64>| #[trigger] is_walk(rows, q) && q[0] == b && q.last() == c;
    let r = p + q.drop_first();
    assert forall|i: int| 0 <= i < r.len() - 1 implies #[trigger] dag_edge(rows, r[i], r[i + 1]) by {
        if i < p.len() - 1 {
            assert(r[i] == p[i] && r[i + 1] == p[i + 1]);
            assert(dag_edge(rows, p[i], p[i + 1]));
        } else {
            let k = i - (p.len() - 1);
            assert(r[i] == q[k] && r[i + 1] == q[k + 1]);
            assert(dag_edge(rows, q[k], q[k + 1]));
        }
    }
    assert(is_walk(rows, r));
    if q.len() == 1 {
        assert(r.last() == p.last());
    } else {
        assert(r.last() == q.last());
    }
}

/// Which stored kind texts make edges: only those of `blocks` and `depends-on`.
pub proof fn lemma_edge_labels(kind: RelationKind)
    ensures
        (kind.spec_label() == RelationKind::Blocks.spec_label()) <==> kind == RelationKind::Blocks,
        (kind.spec_label() == RelationKind::DependsOn.spec_label()) <==> kind == RelationKind::DependsOn,
{
    reveal_strlit("blocks");
    reveal_strlit("blocked-by");
    reveal_strlit("depends-on");
    reveal_strlit("dependency-of");
    reveal_strlit("relates-to");
    reveal_strlit("duplicates");
    reveal_strlit("duplicate-of");
    assert("blocks"@.len() == 6);
    assert("depends-on"@[0] != "blocked-by"@[0]);
    assert("depends-on"@[0] != "relates-to"@[0]);
    assert("depends-on"@[1] != "duplicates"@[1]);
    assert("depends-on"@[1] != "duplicate-of"@[1]);
    assert("blocks"@[0] != "relates-to"@[0]);
    assert("blocks"@[0] != "duplicates"@[0]);
    assert("depends-on"@[6] != "dependency-of"@[6]);
}

/// The edge of the dependency graph that a relation of `kind` from `from_id`
/// to `to_id` adds: `blocks` leads from `from_id` to `to_id`, `depends-on` the
/// other way; other kinds add none.
pub open spec fn link_edge(from_id: i64, kind: RelationKind, to_id: i64) -> Option<(i64, i64)> {
    match kind {
        RelationKind::Blocks => Some((from_id, to_id)),
        RelationKind::DependsOn => Some((to_id, from_id)),
        _ => None,
    }
}

/// The edges of `rows` with `row` stored beside them are those of `rows` and
/// the edge the new relation adds.
pub proof fn lemma_push_edges(rows: Seq<EdgeRow>, row: EdgeRow, kind: RelationKind)
    requires
        row.kind@ == kind.spec_label(),
    ensures
        forall|a: i64, b: i64| #[trigger] dag_edge(rows.push(row), a, b) <==> dag_edge(rows, a, b)
            || link_edge(row.from_id, kind, row.to_id) == Some((a, b)),
{
    lemma_edge_labels(kind);
    let rows2 = rows.push(row);
    assert forall|a: i64, b: i64| #[trigger] dag_edge(rows2, a, b) <==> dag_edge(rows, a, b)
        || link_edge(row.from_id, kind, row.to_id) == Some((a, b)) by {
        if dag_edge(rows2, a, b) {
            let i = choose|i: int| 0 <= i < rows2.len() && #[trigger] row_leaves(rows2[i], a) && row_next(rows2[i]) == Some(b);
            if i < rows.len() {
                assert(rows2[i] == rows[i]);
            }
        }
        if dag_edge(rows, a, b) {
            let i = choose|i: int| 0 <= i < rows.len() && #[trigger] row_leaves(rows[i], a) && row_next(rows[i]) == Some(b);
            assert(rows2[i] == rows[i]);
        }
        if link_edge(row.from_id, kind, row.to_id) == Some((a, b)) {
            let n = rows.len() as int;
            assert(rows2[n] == row);
            assert(row_leaves(rows2[n], a));
        }
    }
}

/// A walk over `rows` with one more edge either keeps to `rows`, or leads
/// through the new edge: then its start reaches the new edge's source and the
/// new edge's target reaches its end, both within `rows`.
proof fn lemma_walk_split(rows: Seq<EdgeRow>, rows2: Seq<EdgeRow>, src: i64, dst: i64, p: Seq<i64>)
    requires
        forall|a: i64, b: i64| #[trigger] dag_edge(rows2, a, b) ==> dag_edge(rows, a, b) || (a == src && b == dst),
        is_walk(rows2, p),
    ensures
        is_walk(rows, p) || (reaches(rows, p[0], src) && reaches(rows, dst, p.last())),
    decreases p.len(),
{
    if p.len() == 1 {
        assert(is_walk(rows, p));
    } else {
        let q = p.drop_last();
        assert forall|i: int| 0 <= i < q.len() - 1 implies #[trigger] dag_edge(rows2, q[i], q[i + 1]) by {
            assert(dag_edge(rows2, p[i], p[i + 1]));
        }
        lemma_walk_split(rows, rows2, src, dst, q);
        let k = p.len() - 2;
        assert(dag_edge(rows2, p[k], p[k + 1]));
        assert(q.last() == p[k]);
        if is_walk(rows, q) {
            if dag_edge(rows, p[k], p[k + 1]) {
                assert forall|i: int| 0 <= i < p.len() - 1 implies #[trigger] dag_edge(rows, p[i], p[i + 1]) by {
                    if i < k {
                        assert(dag_edge(rows, q[i], q[i + 1]));
                    }
                }
            } else {
                assert(reaches(rows, q[0], q.last()));
                lemma_reaches_self(rows, dst);
            }
        } else {
            if dag_edge(rows, p[k], p[k + 1]) {
                lemma_reaches_extend(rows, dst, q.last(), p.last());
            } else {
                lemma_reaches_self(rows, dst);
            }
        }
    }
}

/// Storing a relation keeps the dependency graph free of cycles when the
/// graph had none and the relation's new edge, if any, does not lead from a
/// node back to one it can already be reached from.
pub proof fn lemma_link_keeps_acyclic(rows: Seq<EdgeRow>, row: EdgeRow, kind: RelationKind)
    requires
        row.kind@ == kind.spec_label(),
        acyclic(rows),
        link_edge(row.from_id, kind, row.to_id) matches Some((src, dst)) ==> !reaches(rows, dst, src),
    ensures
        acyclic(rows.push(row)),
{
    let rows2 = rows.push(row);
    lemma_push_edges(rows, row, kind);
    match link_edge(row.from_id, kind, row.to_id) {
        Some((src, dst)) => {
            assert forall|p: Seq<i64>| #[trigger] is_walk(rows2, p) && p.len() >= 2 implies p[0] != p.last() by {
                lemma_walk_split(rows, rows2, src, dst, p);
                if p[0] == p.last() && !is_walk(rows, p) {
                    lemma_reaches_trans(rows, dst, p[0], src);
                }
            }
        },
        None => {
            assert forall|p: Seq<i64>| #[trigger] is_walk(rows2, p) && p.len() >= 2 implies p[0] != p.last() by {
                assert forall|i: int| 0 <= i < p.len() - 1 implies #[trigger] dag_edge(rows, p[i], p[i + 1]) by {
                    assert(dag_edge(rows2, p[i], p[i + 1]));
                }
                assert(is_walk(rows, p));
            }
        },
    }
}

/// Storing a relation whose new edge leads from a node back to one it can be
/// reached from closes a cycle.
pub proof fn lemma_link_closes_cycle(rows: Seq<EdgeRow>, row: EdgeRow, kind: RelationKind)
    requires
        row.kind@ == kind.spec_label(),
        link_edge(row.from_id, kind, row.to_id) matches Some((src, dst)) && reaches(rows, dst, src),
    ensures
        !acyclic(rows.push(row)),
{
    let rows2 = rows.push(row);
    lemma_push_edges(rows, row, kind);
    let (src, dst) = link_edge(row.from_id, kind, row.to_id)->0;
    let p = choose|p: Seq<i64>| #[trigger] is_walk(rows, p) && p[0] == dst && p.last() == src;
    let c = seq![src] + p;
    assert forall|i: int| 0 <= i < c.len() - 1 implies #[trigger] dag_edge(rows2, c[i], c[i + 1]) by {
        if i == 0 {
            assert(c[1] == dst);
        } else {
            let j = i - 1;
            assert(c[i] == p[j] && c[i + 1] == p[j + 1]);
            assert(dag_edge(rows, p[j], p[j + 1]));
        }
    }
    assert(is_walk(rows2, c));
    assert(c.last() == src);
}

/// The text of the refusal of a relation that would close a cycle.
pub open spec fn link_cycle_message() -> Seq<char> {
    "adding this link would create a cycle in the dependency graph"@
}

pub open spec fn is_link_cycle_error(e: BmoError) -> bool {
    e matches BmoError::Validation(m) && m@ == link_cycle_message()
}

fn link_cycle_error() -> (e: BmoError)
    ensures
        is_link_cycle_error(e),
{
    BmoError::Validation(String::from_str("adding this link would create a cycle in the dependency graph"))
}

/// What the check of a new relation asks for next.
#[derive(Debug)]
pub enum LinkStep {
    /// Hand back the stored rows that leave this node.
    Query(i64),
    /// The relation may be stored.
    Accept,
    /// The relation is refused.
    Reject(BmoError),
}

/// The check made before a relation is stored: a relation that adds an edge
/// to the dependency graph is refused when the edge's target already reaches
/// its source.
pub struct LinkCheck {
    search: ReachSearch,
}

impl LinkCheck {
    /// The new edge's target, where the search starts.
    pub closed spec fn edge_target(&self) -> i64 {
        self.search.origin()
    }

    /// The new edge's source, which the search looks for.
    pub closed spec fn edge_source(&self) -> i64 {
        self.search.target()
    }

    /// The node whose rows the check awaits.
    pub closed spec fn awaiting(&self) -> i64 {
        self.search.current()
    }

    /// The check is consistent with a store that holds `rows`.
    pub closed spec fn inv(&self, rows: Seq<EdgeRow>) -> bool {
        self.search.inv(rows)
    }

    /// How many nodes of the store the check has yet to visit: each query
    /// lowers it, so a check over a store answered truthfully ends.
    pub closed spec fn unvisited(&self, rows: Seq<EdgeRow>) -> nat {
        self.search.unvisited(rows)
    }

    /// Starts the check of a relation of `kind` from `from_id` to `to_id`.
    pub fn begin(from_id: i64, kind: RelationKind, to_id: i64) -> (r: (LinkCheck, LinkStep))
        ensures
            link_edge(from_id, kind, to_id) is None ==> r.1 is Accept,
            link_edge(from_id, kind, to_id) matches Some((src, dst)) ==> {
                &&& r.0.edge_source() == src
                &&& r.0.edge_target() == dst
                &&& match r.1 {
                    LinkStep::Accept => false,
                    LinkStep::Reject(e) => is_link_cycle_error(e) && src == dst,
                    LinkStep::Query(n) => n == dst && r.0.awaiting() == n && src != dst
                        && forall|rows: Seq<EdgeRow>| #[trigger] r.0.inv(rows),
                }
            },
    {
        if !kind.is_dag_edge() {
            let (search, _) = ReachSearch::begin(from_id, to_id);
            return (LinkCheck { search }, LinkStep::Accept);
        }
        // Blocks(A, B) adds the edge A → B; DependsOn(A, B) adds B → A.
        let (src, dst) = match kind {
            RelationKind::Blocks => (from_id, to_id),
            _ => (to_id, from_id),
        };
        // The edge closes a cycle exactly when its target already reaches its source.
        let (search, first) = ReachSearch::begin(dst, src);
        let check = LinkCheck { search };
        match first {
            SearchStep::Query(n) => (check, LinkStep::Query(n)),
            SearchStep::Answer(_) => (check, LinkStep::Reject(link_cycle_error())),
        }
    }

    /// Takes the stored rows that leave the node last asked for.
    pub fn step(&mut self, batch: &Vec<EdgeRow>) -> (r: LinkStep)
        ensures
            final(self).edge_source() == old(self).edge_source(),
            final(self).edge_target() == old(self).edge_target(),
            r matches LinkStep::Query(n) ==> final(self).awaiting() == n,
            forall|rows: Seq<EdgeRow>| #[trigger] old(self).inv(rows) && answers(rows, old(self).awaiting(), batch@)
                ==> match r {
                LinkStep::Accept => !reaches(rows, old(self).edge_target(), old(self).edge_source()),
                LinkStep::Reject(e) => is_link_cycle_error(e)
                    && reaches(rows, old(self).edge_target(), old(self).edge_source()),
                LinkStep::Query(_) => final(self).inv(rows) && final(self).unvisited(rows) < old(self).unvisited(rows),
            },
    {
        match self.search.step(batch) {
            SearchStep::Query(n) => LinkStep::Query(n),
            SearchStep::Answer(true) => LinkStep::Reject(link_cycle_error()),
            SearchStep::Answer(false) => LinkStep::Accept,
        }
    }
}

/// The stored rows of `rows` that leave `node`, in their order: what the
/// neighbour query returns for `node` from a store that holds `rows`.
pub fn leaving(rows: &Vec<EdgeRow>, node: i64) -> (r: Vec<EdgeRow>)
    ensures
        answers(rows@, node, r@),
{
    let mut out: Vec<EdgeRow> = Vec::new();
    let mut i: usize = 0;
    while i < rows.len()
        invariant
            i <= rows.len(),
            forall|j: int| 0 <= j < out@.len() ==> rows@.contains(#[trigger] out@[j]) && row_leaves(out@[j], node),
            forall|k: int| 0 <= k < i && #[trigger] row_leaves(rows@[k], node) ==> out@.contains(rows@[k]),
        decreases rows.len() - i,
    {
        let row = &rows[i];
        let blocks = str_eq(row.kind.as_str(), RelationKind::Blocks.label());
        let depends = str_eq(row.kind.as_str(), RelationKind::DependsOn.label());
        if (blocks && row.from_id == node) || (depends && row.to_id == node) {
            let copy = EdgeRow { from_id: row.from_id, to_id: row.to_id, kind: row.kind.clone() };
            let ghost before = out@;
            assert(copy == rows@[i as int]);
            out.push(copy);
            proof {
                assert(out@[before.len() as int] == rows@[i as int]);
                assert forall|k: int| 0 <= k <= i && #[trigger] row_leaves(rows@[k], node) implies out@.contains(
                    rows@[k],
                ) by {
                    if k < i {
                        let j = choose|j: int| 0 <= j < before.len() && before[j] == rows@[k];
                        assert(out@[j] == rows@[k]);
                    }
                }
                assert forall|j: int| 0 <= j < out@.len() implies rows@.contains(#[trigger] out@[j]) && row_leaves(
                    out@[j],
                    node,
                ) by {
                    if j < before.len() {
                        assert(out@[j] == before[j]);
                    }
                }
            }
        }
        i += 1;
    }
    out
}

/// Whether `target` can be reached from `start` in a store that holds `rows`:
/// the whole search, each query answered from `rows`. It ends on every
/// store, cycles included, and its answer is reachability along the
/// dependency edges, a node reaching itself.
pub fn can_reach_in(rows: &Vec<EdgeRow>, start: i64, target: i64) -> (r: bool)
    ensures
        r == reaches(rows@, start, target),
{
    let (mut search, first) = ReachSearch::begin(start, target);
    let mut node = match first {
        SearchStep::Answer(found) => {
            proof {
                lemma_reaches_self(rows@, start);
            }
            return found;
        },
        SearchStep::Query(n) => n,
    };
    assert(search.inv(rows@));
    loop
        invariant
            search.inv(rows@),
            search.origin() == start,
            search.target() == target,
            search.current() == node,
        decreases search.unvisited(rows@),
    {
        let batch = leaving(rows, node);
        let ghost before = search;
        let step = search.step(&batch);
        assert(before.inv(rows@) && answers(rows@, before.current(), batch@));
        match step {
            SearchStep::Answer(found) => {
                return found;
            },
            SearchStep::Query(n) => {
                node = n;
            },
        }
    }
}

/// The check of a new relation of `kind` from `from_id` to `to_id` against a
/// store that holds `rows`, run to its end. A relation that adds no edge is
/// accepted; one that adds an edge is refused, with the cycle error, exactly
/// when the edge's target already reaches its source.
pub fn check_link_in(rows: &Vec<EdgeRow>, from_id: i64, kind: RelationKind, to_id: i64) -> (r: Result<(), BmoError>)
    ensures
        match link_edge(from_id, kind, to_id) {
            Some((src, dst)) => match r {
                Ok(()) => !reaches(rows@, dst, src),
                Err(e) => is_link_cycle_error(e) && reaches(rows@, dst, src),
            },
            None => r is Ok,
        },
{
    let ghost edge = link_edge(from_id, kind, to_id);
    let (mut check, first) = LinkCheck::begin(from_id, kind, to_id);
    let mut node = match first {
        LinkStep::Accept => {
            return Ok(());
        },
        LinkStep::Reject(e) => {
            proof {
                let (src, dst) = edge->0;
                lemma_reaches_self(rows@, src);
            }
            return Err(e);
        },
        LinkStep::Query(n) => n,
    };
    assert(check.inv(rows@));
    loop
        invariant
            check.inv(rows@),
            edge == link_edge(from_id, kind, to_id),
            edge == Some((check.edge_source(), check.edge_target())),
            check.awaiting() == node,
        decreases check.unvisited(rows@),
    {
        let batch = leaving(rows, node);
        let ghost before = check;
        let step = check.step(&batch);
        assert(before.inv(rows@) && answers(rows@, before.awaiting(), batch@));
        match step {
            LinkStep::Accept => {
                return Ok(());
            },
            LinkStep::Reject(e) => {
                return Err(e);
            },
            LinkStep::Query(n) => {
                node = n;
            },
        }
    }
}

} // verus!
