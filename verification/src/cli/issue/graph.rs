//! `bmo issue graph`: the blocking relations around one issue.

use vstd::prelude::*;

use crate::model::relation::{Relation, RelationKind};

verus! {

/// The arguments of `bmo issue graph`: the issue.
#[derive(Debug)]
pub struct GraphArgs {
    pub id: String,
}

/// The relation says that something blocks the issue.
pub open spec fn blocks_issue(r: Relation, issue_id: i64) -> bool {
    (r.kind == RelationKind::BlockedBy && r.from_id == issue_id) || (r.kind == RelationKind::Blocks && r.to_id
        == issue_id)
}

/// The relation says that the issue blocks something.
pub open spec fn blocked_by_issue(r: Relation, issue_id: i64) -> bool {
    (r.kind == RelationKind::Blocks && r.from_id == issue_id) || (r.kind == RelationKind::BlockedBy && r.to_id
        == issue_id)
}

/// The relations of `v` that meet `p`, in order.
pub open spec fn relations_where(v: Seq<Relation>, p: spec_fn(Relation) -> bool) -> Seq<Relation>
    decreases v.len(),
{
    if v.len() == 0 {
        seq![]
    } else if p(v.last()) {
        relations_where(v.drop_last(), p).push(v.last())
    } else {
        relations_where(v.drop_last(), p)
    }
}

/// The relations of `v` that meet `p` are those of `v` that meet it, each
/// in its place: every one meets `p`, every relation of `v` that meets `p`
/// is among them, and there are no more of them than of `v`.
proof fn lemma_relations_where(v: Seq<Relation>, p: spec_fn(Relation) -> bool)
    ensures
        forall|k: int| 0 <= k < relations_where(v, p).len() ==> p(#[trigger] relations_where(v, p)[k]),
        forall|j: int| 0 <= j < v.len() && p(#[trigger] v[j]) ==> relations_where(v, p).contains(v[j]),
        relations_where(v, p).len() <= v.len(),
    decreases v.len(),
{
    if v.len() > 0 {
        let w = v.drop_last();
        lemma_relations_where(w, p);
        let r = relations_where(v, p);
        let rw = relations_where(w, p);
        assert forall|k: int| 0 <= k < r.len() implies p(#[trigger] r[k]) by {
            if k < rw.len() {
                assert(r[k] == rw[k]);
            }
        }
        assert forall|j: int| 0 <= j < v.len() && p(#[trigger] v[j]) implies r.contains(v[j]) by {
            if j < w.len() {
                assert(w[j] == v[j]);
                let k = choose|k: int| 0 <= k < rw.len() && rw[k] == w[j];
                assert(r[k] == rw[k]);
            } else {
                assert(r[r.len() - 1] == v.last());
            }
        }
    }
}

/// The relations of `v` by which something blocks the issue.
pub open spec fn blockers_of(v: Seq<Relation>, issue_id: i64) -> Seq<Relation> {
    relations_where(v, |x: Relation| blocks_issue(x, issue_id))
}

/// The relations of `v` by which the issue blocks something.
pub open spec fn blocked_of(v: Seq<Relation>, issue_id: i64) -> Seq<Relation> {
    relations_where(v, |x: Relation| blocked_by_issue(x, issue_id))
}

/// A relation blocks an issue exactly when it is a `blocks` relation to the
/// issue or a `blocked-by` relation from it: the blockers of an issue are
/// all such relations and no other (no `relates-to`, duplicate or
/// `depends-on` relation); the issue blocks what its `blocks` relations from
/// it and its `blocked-by` relations to it name.
pub proof fn lemma_blocking_relations(v: Seq<Relation>, issue_id: i64)
    ensures
        forall|k: int|
            0 <= k < blockers_of(v, issue_id).len() ==> ((#[trigger] blockers_of(v, issue_id)[k]).kind
                == RelationKind::Blocks && blockers_of(v, issue_id)[k].to_id == issue_id) || (blockers_of(
                v,
                issue_id,
            )[k].kind == RelationKind::BlockedBy && blockers_of(v, issue_id)[k].from_id == issue_id),
        forall|j: int|
            0 <= j < v.len() && ((#[trigger] v[j]).kind == RelationKind::Blocks && v[j].to_id == issue_id
                || v[j].kind == RelationKind::BlockedBy && v[j].from_id == issue_id) ==> blockers_of(v, issue_id).contains(
                v[j],
            ),
        forall|k: int|
            0 <= k < blocked_of(v, issue_id).len() ==> ((#[trigger] blocked_of(v, issue_id)[k]).kind
                == RelationKind::Blocks && blocked_of(v, issue_id)[k].from_id == issue_id) || (blocked_of(
                v,
                issue_id,
            )[k].kind == RelationKind::BlockedBy && blocked_of(v, issue_id)[k].to_id == issue_id),
        forall|j: int|
            0 <= j < v.len() && ((#[trigger] v[j]).kind == RelationKind::Blocks && v[j].from_id == issue_id
                || v[j].kind == RelationKind::BlockedBy && v[j].to_id == issue_id) ==> blocked_of(v, issue_id).contains(
                v[j],
            ),
{
    lemma_relations_where(v, |x: Relation| blocks_issue(x, issue_id));
    lemma_relations_where(v, |x: Relation| blocked_by_issue(x, issue_id));
}

/// The relations by which something blocks the issue, in order.
pub fn blockers(relations: &Vec<Relation>, issue_id: i64) -> (r: Vec<Relation>)
    ensures
        r@ == relations_where(relations@, |x: Relation| blocks_issue(x, issue_id)),
        forall|k: int|
            0 <= k < r@.len() ==> ((#[trigger] r@[k]).kind == RelationKind::Blocks && r@[k].to_id == issue_id)
                || (r@[k].kind == RelationKind::BlockedBy && r@[k].from_id == issue_id),
        forall|j: int|
            0 <= j < relations@.len() && ((#[trigger] relations@[j]).kind == RelationKind::Blocks
                && relations@[j].to_id == issue_id || relations@[j].kind == RelationKind::BlockedBy
                && relations@[j].from_id == issue_id) ==> r@.contains(relations@[j]),
{
    proof {
        lemma_blocking_relations(relations@, issue_id);
    }
    let ghost p = |x: Relation| blocks_issue(x, issue_id);
    let mut out: Vec<Relation> = Vec::new();
    let mut i: usize = 0;
    while i < relations.len()
        invariant
            0 <= i <= relations.len(),
            p == (|x: Relation| blocks_issue(x, issue_id)),
            out@ == relations_where(relations@.take(i as int), p),
        decreases relations.len() - i,
    {
        let r = relations[i];
        proof {
            assert(relations@.take(i + 1).drop_last() =~= relations@.take(i as int));
            assert(relations@.take(i + 1).last() == r);
        }
        if (r.kind == RelationKind::BlockedBy && r.from_id == issue_id) || (r.kind == RelationKind::Blocks
            && r.to_id == issue_id) {
            out.push(r);
        }
        i += 1;
    }
    assert(relations@.take(relations.len() as int) =~= relations@);
    out
}

/// The relations by which the issue blocks something, in order.
pub fn blocking(relations: &Vec<Relation>, issue_id: i64) -> (r: Vec<Relation>)
    ensures
        r@ == relations_where(relations@, |x: Relation| blocked_by_issue(x, issue_id)),
        forall|k: int|
            0 <= k < r@.len() ==> ((#[trigger] r@[k]).kind == RelationKind::Blocks && r@[k].from_id == issue_id)
                || (r@[k].kind == RelationKind::BlockedBy && r@[k].to_id == issue_id),
        forall|j: int|
            0 <= j < relations@.len() && ((#[trigger] relations@[j]).kind == RelationKind::Blocks
                && relations@[j].from_id == issue_id || relations@[j].kind == RelationKind::BlockedBy
                && relations@[j].to_id == issue_id) ==> r@.contains(relations@[j]),
{
    proof {
        lemma_blocking_relations(relations@, issue_id);
    }
    let ghost p = |x: Relation| blocked_by_issue(x, issue_id);
    let mut out: Vec<Relation> = Vec::new();
    let mut i: usize = 0;
    while i < relations.len()
        invariant
            0 <= i <= relations.len(),
            p == (|x: Relation| blocked_by_issue(x, issue_id)),
            out@ == relations_where(relations@.take(i as int), p),
        decreases relations.len() - i,
    {
        let r = relations[i];
        proof {
            assert(relations@.take(i + 1).drop_last() =~= relations@.take(i as int));
            assert(relations@.take(i + 1).last() == r);
        }
        if (r.kind == RelationKind::Blocks && r.from_id == issue_id) || (r.kind == RelationKind::BlockedBy
            && r.to_id == issue_id) {
            out.push(r);
        }
        i += 1;
    }
    assert(relations@.take(relations.len() as int) =~= relations@);
    out
}

/// The issue at the other end of a relation from `issue_id`.
pub fn other_end(r: &Relation, issue_id: i64) -> (n: i64)
    ensures
        n == (if r.from_id == issue_id { r.to_id } else { r.from_id }),
{
    if r.from_id == issue_id {
        r.to_id
    } else {
        r.from_id
    }
}

} // verus!
