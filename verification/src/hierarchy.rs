//! The parent hierarchy of issues.
//!
//! An issue may have a parent. Re-parenting an issue is refused when the new
//! parent is the issue itself, or when the issue already lies on the new
//! parent's chain of ancestors, since the hierarchy would then hold a cycle.
//! The chain is walked one parent at a time: [`ParentCheck`] holds the walk
//! and decides, the caller looks up each parent and hands it back.

use std::collections::HashSet;

use vstd::prelude::*;

use crate::errors::BmoError;
use crate::graph::lemma_fewer_left;

verus! {

broadcast use vstd::std_specs::hash::group_hash_axioms;

/// The issue reached from `c` by following `parents` `k` times, if the chain
/// is that long. `parents` gives the parent of each issue (`None` for an
/// issue with no parent, or with no record).
pub open spec fn ancestor(parents: spec_fn(i64) -> Option<i64>, c: i64, k: nat) -> Option<i64>
    decreases k,
{
    if k == 0 {
        Some(c)
    } else {
        match ancestor(parents, c, (k - 1) as nat) {
            Some(x) => parents(x),
            None => None,
        }
    }
}

/// `x` is `c` or one of its ancestors.
pub open spec fn in_chain(parents: spec_fn(i64) -> Option<i64>, c: i64, x: i64) -> bool {
    exists|k: nat| #[trigger] ancestor(parents, c, k) == Some(x)
}

/// The issues of `c`'s chain: `c` and its ancestors.
pub open spec fn chain_nodes(parents: spec_fn(i64) -> Option<i64>, c: i64) -> Set<i64> {
    Set::new(|x: i64| in_chain(parents, c, x))
}

/// In a store whose parents all lie in a finite set of issues, every chain is finite.
pub proof fn lemma_chain_finite(parents: spec_fn(i64) -> Option<i64>, c: i64, ids: Set<i64>)
    requires
        ids.finite(),
        forall|x: i64| #[trigger] parents(x) matches Some(y) ==> ids.contains(y),
    ensures
        chain_nodes(parents, c).finite(),
{
    assert forall|x: i64| #[trigger] chain_nodes(parents, c).contains(x) implies ids.insert(c).contains(x) by {
        let k = choose|k: nat| #[trigger] ancestor(parents, c, k) == Some(x);
        if k > 0 {
            let z = ancestor(parents, c, (k - 1) as nat)->0;
            assert(parents(z) == Some(x));
        }
    }
    vstd::set_lib::lemma_len_subset(chain_nodes(parents, c), ids.insert(c));
}

proof fn lemma_chain_ends(parents: spec_fn(i64) -> Option<i64>, c: i64, d: nat, k: nat)
    requires
        ancestor(parents, c, d) is None,
        d <= k,
    ensures
        ancestor(parents, c, k) is None,
    decreases k - d,
{
    if k > d {
        lemma_chain_ends(parents, c, d, (k - 1) as nat);
    }
}

/// Once the chain returns to a node it has passed, every later node is one
/// it has passed.
proof fn lemma_chain_repeats(parents: spec_fn(i64) -> Option<i64>, c: i64, d: nat, j: nat, k: nat)
    requires
        j <= d,
        ancestor(parents, c, d + 1) == ancestor(parents, c, j),
    ensures
        ancestor(parents, c, k) is Some ==> exists|m: nat| m <= d && #[trigger] ancestor(parents, c, m) == ancestor(
            parents,
            c,
            k,
        ),
    decreases k,
{
    if k <= d {
        assert(ancestor(parents, c, k) == ancestor(parents, c, k));
    } else if k == d + 1 {
        assert(ancestor(parents, c, j) == ancestor(parents, c, k));
    } else if ancestor(parents, c, k) is Some {
        let k1 = (k - 1) as nat;
        lemma_chain_repeats(parents, c, d, j, k1);
        assert(ancestor(parents, c, k1) is Some);
        let m1 = choose|m: nat| m <= d && #[trigger] ancestor(parents, c, m) == ancestor(parents, c, k1);
        assert(ancestor(parents, c, m1 + 1) == ancestor(parents, c, k));
        if m1 + 1 <= d {
            assert(ancestor(parents, c, (m1 + 1) as nat) == ancestor(parents, c, k));
        } else {
            assert(ancestor(parents, c, j) == ancestor(parents, c, k));
        }
    }
}

/// The text of the refusal to make an issue its own parent.
pub open spec fn own_parent_message() -> Seq<char> {
    "cannot set an issue as its own parent"@
}

/// The text of the refusal of a parent that would close a cycle.
pub open spec fn parent_cycle_message() -> Seq<char> {
    "setting this parent would create a cycle in the issue hierarchy"@
}

pub open spec fn is_own_parent_error(e: BmoError) -> bool {
    e matches BmoError::Validation(m) && m@ == own_parent_message()
}

pub open spec fn is_parent_cycle_error(e: BmoError) -> bool {
    e matches BmoError::Validation(m) && m@ == parent_cycle_message()
}

pub fn own_parent_error() -> (e: BmoError)
    ensures
        is_own_parent_error(e),
{
    BmoError::Validation(String::from_str("cannot set an issue as its own parent"))
}

fn parent_cycle_error() -> (e: BmoError)
    ensures
        is_parent_cycle_error(e),
{
    BmoError::Validation(String::from_str("setting this parent would create a cycle in the issue hierarchy"))
}

/// What the check of a new parent asks for next.
#[derive(Debug)]
pub enum ParentStep {
    /// Hand back the parent of this issue.
    Lookup(i64),
    /// The new parent may be set.
    Accept,
    /// The new parent is refused.
    Reject(BmoError),
}

/// The check made before an issue gets a new parent: the walk up the new
/// parent's chain of ancestors.
pub struct ParentCheck {
    issue_id: i64,
    current: i64,
    visited: HashSet<i64>,
    origin: Ghost<i64>,
    depth: Ghost<nat>,
}

impl ParentCheck {
    /// The issue being re-parented.
    pub closed spec fn issue(&self) -> i64 {
        self.issue_id
    }

    /// The proposed parent, where the walk starts.
    pub closed spec fn candidate(&self) -> i64 {
        self.origin@
    }

    /// The issue whose parent the check awaits.
    pub closed spec fn awaiting(&self) -> i64 {
        self.current
    }

    /// The walk is consistent with a store whose parent links are `parents`.
    pub closed spec fn inv(&self, parents: spec_fn(i64) -> Option<i64>) -> bool {
        let o = self.origin@;
        let d = self.depth@;
        &&& o != self.issue_id
        &&& ancestor(parents, o, d) == Some(self.current)
        &&& forall|x: i64| #[trigger] self.visited@.contains(x) <==> exists|k: nat| k <= d && #[trigger] ancestor(
            parents,
            o,
            k,
        ) == Some(x)
        &&& forall|k: nat| k <= d ==> #[trigger] ancestor(parents, o, k) is Some && ancestor(parents, o, k) != Some(
            self.issue_id,
        )
    }

    /// The issues whose parent the walk has asked for.
    pub closed spec fn seen(&self) -> Set<i64> {
        self.visited@
    }

    /// How many issues of the new parent's chain the walk has yet to ask
    /// for: each lookup lowers it, so over a store with finitely many issues
    /// the walk ends.
    pub open spec fn unvisited(&self, parents: spec_fn(i64) -> Option<i64>) -> nat {
        chain_nodes(parents, self.candidate()).difference(self.seen()).len()
    }

    /// Starts the check of `candidate` as the new parent of `issue_id`.
    pub fn begin(issue_id: i64, candidate: i64) -> (r: (ParentCheck, ParentStep))
        ensures
            r.0.issue() == issue_id,
            r.0.candidate() == candidate,
            candidate == issue_id ==> (r.1 matches ParentStep::Reject(e) && is_own_parent_error(e)),
            candidate != issue_id ==> r.1 == ParentStep::Lookup(candidate) && r.0.awaiting() == candidate,
            candidate != issue_id ==> forall|parents: spec_fn(i64) -> Option<i64>| #[trigger] r.0.inv(parents),
            candidate != issue_id ==> r.0.seen() == Set::<i64>::empty().insert(candidate),
    {
        let mut visited: HashSet<i64> = HashSet::new();
        if candidate == issue_id {
            let c = ParentCheck {
                issue_id,
                current: candidate,
                visited,
                origin: Ghost(candidate),
                depth: Ghost(0),
            };
            return (c, ParentStep::Reject(own_parent_error()));
        }
        visited.insert(candidate);
        let c = ParentCheck { issue_id, current: candidate, visited, origin: Ghost(candidate), depth: Ghost(0) };
        assert forall|parents: spec_fn(i64) -> Option<i64>| #[trigger] c.inv(parents) by {
            assert(ancestor(parents, candidate, 0) == Some(candidate));
            assert forall|x: i64| #[trigger] c.visited@.contains(x) <==> exists|k: nat| k <= 0 && #[trigger] ancestor(
                parents,
                candidate,
                k,
            ) == Some(x) by {
                if c.visited@.contains(x) {
                    assert(ancestor(parents, candidate, 0) == Some(x));
                }
            }
        }
        (c, ParentStep::Lookup(candidate))
    }

    /// Takes the parent of the issue last asked for.
    pub fn step(&mut self, parent: Option<i64>) -> (r: ParentStep)
        ensures
            final(self).issue() == old(self).issue(),
            final(self).candidate() == old(self).candidate(),
            r matches ParentStep::Lookup(n) ==> final(self).awaiting() == n,
            r matches ParentStep::Lookup(n) ==> !old(self).seen().contains(n) && final(self).seen() == old(
                self,
            ).seen().insert(n),
            forall|parents: spec_fn(i64) -> Option<i64>| #[trigger] old(self).inv(parents) && parent == parents(
                old(self).awaiting(),
            ) ==> match r {
                ParentStep::Accept => !in_chain(parents, old(self).candidate(), old(self).issue()),
                ParentStep::Reject(e) => is_parent_cycle_error(e) && in_chain(
                    parents,
                    old(self).candidate(),
                    old(self).issue(),
                ),
                ParentStep::Lookup(_) => final(self).inv(parents) && (chain_nodes(parents, old(self).candidate()).finite()
                    ==> final(self).unvisited(parents) < old(self).unvisited(parents)),
            },
    {
        let ghost o = self.origin@;
        let ghost d = self.depth@;
        let ghost s0 = self.visited@;
        let ghost cur = self.current;
        match parent {
            None => {
                assert forall|parents: spec_fn(i64) -> Option<i64>| #[trigger] old(self).inv(parents) && parent
                    == parents(cur) implies !in_chain(parents, o, self.issue_id) by {
                    assert(ancestor(parents, o, d + 1) is None);
                    if in_chain(parents, o, self.issue_id) {
                        let k = choose|k: nat| #[trigger] ancestor(parents, o, k) == Some(self.issue_id);
                        if k > d {
                            lemma_chain_ends(parents, o, d + 1, k);
                        }
                    }
                }
                ParentStep::Accept
            },
            Some(next) => {
                if next == self.issue_id {
                    assert forall|parents: spec_fn(i64) -> Option<i64>| #[trigger] old(self).inv(parents)
                        && parent == parents(cur) implies in_chain(parents, o, self.issue_id) by {
                        assert(ancestor(parents, o, d + 1) == Some(self.issue_id));
                    }
                    return ParentStep::Reject(parent_cycle_error());
                }
                if !self.visited.insert(next) {
                    // The chain has come back to an issue it passed: the
                    // stored hierarchy holds a cycle that does not reach the
                    // issue, so the walk stops here.
                    assert forall|parents: spec_fn(i64) -> Option<i64>| #[trigger] old(self).inv(parents)
                        && parent == parents(cur) implies !in_chain(parents, o, self.issue_id) by {
                        assert(s0.contains(next));
                        let j = choose|k: nat| k <= d && #[trigger] ancestor(parents, o, k) == Some(next);
                        assert(ancestor(parents, o, d + 1) == Some(next));
                        if in_chain(parents, o, self.issue_id) {
                            let k = choose|k: nat| #[trigger] ancestor(parents, o, k) == Some(self.issue_id);
                            lemma_chain_repeats(parents, o, d, j, k);
                            let m = choose|m: nat| m <= d && #[trigger] ancestor(parents, o, m) == ancestor(
                                parents,
                                o,
                                k,
                            );
                            assert(ancestor(parents, o, m) is Some);
                        }
                    }
                    return ParentStep::Accept;
                }
                self.current = next;
                self.depth = Ghost(d + 1);
                assert forall|parents: spec_fn(i64) -> Option<i64>| #[trigger] old(self).inv(parents)
                    && parent == parents(cur) implies self.inv(parents) by {
                    let d1 = d + 1;
                    assert(ancestor(parents, o, d1) == Some(next));
                    assert forall|x: i64| #[trigger] self.visited@.contains(x) <==> exists|k: nat| k <= d1
                        && #[trigger] ancestor(parents, o, k) == Some(x) by {
                        if self.visited@.contains(x) && x != next {
                            assert(s0.contains(x));
                            let k = choose|k: nat| k <= d && #[trigger] ancestor(parents, o, k) == Some(x);
                            assert(k <= d1);
                        }
                        if x == next {
                            assert(ancestor(parents, o, d1) == Some(x));
                        }
                        if exists|k: nat| k <= d1 && #[trigger] ancestor(parents, o, k) == Some(x) {
                            let k = choose|k: nat| k <= d1 && #[trigger] ancestor(parents, o, k) == Some(x);
                            if k <= d {
                                assert(s0.contains(x));
                            }
                        }
                    }
                    assert forall|k: nat| k <= d1 implies #[trigger] ancestor(parents, o, k) is Some && ancestor(
                        parents,
                        o,
                        k,
                    ) != Some(self.issue_id) by {
                        if k <= d {
                            assert(ancestor(parents, o, k) is Some);
                        }
                    }
                }
                assert forall|parents: spec_fn(i64) -> Option<i64>| #[trigger] old(self).inv(parents)
                    && parent == parents(cur) && chain_nodes(parents, o).finite() implies self.unvisited(parents)
                    < old(self).unvisited(parents) by {
                    assert(ancestor(parents, o, d + 1) == Some(next));
                    assert(chain_nodes(parents, o).contains(next));
                    assert(self.visited@ =~= s0.insert(next));
                    lemma_fewer_left(chain_nodes(parents, o), s0, next);
                }
                ParentStep::Lookup(next)
            },
        }
    }
}

// ── A store held in memory ───────────────────────────────────────────────────

/// The parent that a table of `(issue, parent)` rows records for `x`: that
/// of the first row for `x`, and none when no row names `x`.
pub open spec fn parent_in(rows: Seq<(i64, Option<i64>)>, x: i64) -> Option<i64>
    decreases rows.len(),
{
    if rows.len() == 0 {
        None
    } else if rows[0].0 == x {
        rows[0].1
    } else {
        parent_in(rows.drop_first(), x)
    }
}

/// The parent links that a table of `(issue, parent)` rows records.
pub open spec fn parent_links(rows: Seq<(i64, Option<i64>)>) -> spec_fn(i64) -> Option<i64> {
    |x: i64| parent_in(rows, x)
}

/// The parents that rows name.
pub open spec fn named_parents(rows: Seq<(i64, Option<i64>)>) -> Set<i64>
    decreases rows.len(),
{
    if rows.len() == 0 {
        Set::empty()
    } else {
        match rows[0].1 {
            Some(p) => named_parents(rows.drop_first()).insert(p),
            None => named_parents(rows.drop_first()),
        }
    }
}

/// A table names finitely many parents, and every parent it records is one of them.
proof fn lemma_named_parents(rows: Seq<(i64, Option<i64>)>)
    ensures
        named_parents(rows).finite(),
        forall|x: i64| #[trigger] parent_in(rows, x) matches Some(p) ==> named_parents(rows).contains(p),
    decreases rows.len(),
{
    if rows.len() > 0 {
        let rest = rows.drop_first();
        lemma_named_parents(rest);
        assert forall|x: i64| (#[trigger] parent_in(rows, x) matches Some(p) ==> named_parents(rows).contains(p)) by {
            if rows[0].0 != x {
                assert(parent_in(rows, x) == parent_in(rest, x));
            }
        }
    }
}

/// The parent that the table `rows` records for `x`.
pub fn parent_of(rows: &Vec<(i64, Option<i64>)>, x: i64) -> (r: Option<i64>)
    ensures
        r == parent_in(rows@, x),
{
    let mut i: usize = 0;
    assert(rows@.subrange(0, rows@.len() as int) =~= rows@);
    while i < rows.len()
        invariant
            i <= rows.len(),
            parent_in(rows@, x) == parent_in(rows@.subrange(i as int, rows@.len() as int), x),
        decreases rows.len() - i,
    {
        let (id, p) = rows[i];
        proof {
            let rest = rows@.subrange(i as int, rows@.len() as int);
            assert(rest[0] == rows@[i as int]);
            assert(rest.drop_first() =~= rows@.subrange(i + 1, rows@.len() as int));
        }
        if id == x {
            return p;
        }
        i += 1;
    }
    assert(rows@.subrange(i as int, rows@.len() as int) =~= Seq::<(i64, Option<i64>)>::empty());
    None
}

/// The check of `candidate` as the new parent of `issue_id` against a table
/// of `(issue, parent)` rows, walked to its end. It ends on every table,
/// cycles included, and refuses the parent exactly when `issue_id` is the
/// candidate (the own-parent error) or lies on the candidate's chain of
/// ancestors (the cycle error).
pub fn check_parent_in(rows: &Vec<(i64, Option<i64>)>, issue_id: i64, candidate: i64) -> (r: Result<(), BmoError>)
    ensures
        r is Ok <==> !in_chain(parent_links(rows@), candidate, issue_id),
        candidate == issue_id ==> (r matches Err(e) && is_own_parent_error(e)),
        candidate != issue_id ==> (r matches Err(e) ==> is_parent_cycle_error(e)),
{
    let ghost parents = parent_links(rows@);
    proof {
        lemma_named_parents(rows@);
        assert forall|x: i64| (#[trigger] parents(x) matches Some(y) ==> named_parents(rows@).contains(y)) by {
            assert(parents(x) == parent_in(rows@, x));
        }
        lemma_chain_finite(parents, candidate, named_parents(rows@));
    }
    let (mut check, first) = ParentCheck::begin(issue_id, candidate);
    let mut node = match first {
        ParentStep::Lookup(n) => n,
        ParentStep::Reject(e) => {
            assert(ancestor(parents, candidate, 0) == Some(candidate));
            return Err(e);
        },
        ParentStep::Accept => {
            return Ok(());
        },
    };
    assert(check.inv(parents));
    loop
        invariant
            parents == parent_links(rows@),
            check.inv(parents),
            check.issue() == issue_id,
            check.candidate() == candidate,
            check.awaiting() == node,
            candidate != issue_id,
            chain_nodes(parents, candidate).finite(),
        decreases check.unvisited(parents),
    {
        let p = parent_of(rows, node);
        assert(p == parents(node));
        let ghost before = check;
        let step = check.step(p);
        assert(before.inv(parents) && p == parents(before.awaiting()));
        match step {
            ParentStep::Accept => {
                return Ok(());
            },
            ParentStep::Reject(e) => {
                return Err(e);
            },
            ParentStep::Lookup(n) => {
                node = n;
            },
        }
    }
}

// ── The laws of re-parenting ─────────────────────────────────────────────────

/// The parent links after `issue` is given the parent `parent`.
pub open spec fn with_parent(parents: spec_fn(i64) -> Option<i64>, issue: i64, parent: i64) -> spec_fn(i64) -> Option<i64> {
    |x: i64| if x == issue { Some(parent) } else { parents(x) }
}

/// Following the links from `x` one or more times comes back to `x`.
pub open spec fn on_cycle(parents: spec_fn(i64) -> Option<i64>, x: i64) -> bool {
    exists|k: nat| k >= 1 && #[trigger] ancestor(parents, x, k) == Some(x)
}

/// The first step of a chain, then the rest of it.
proof fn lemma_ancestor_shift(parents: spec_fn(i64) -> Option<i64>, c: i64, k: nat)
    ensures
        ancestor(parents, c, k + 1) == match parents(c) {
            Some(x) => ancestor(parents, x, k),
            None => None,
        },
    decreases k,
{
    if k > 0 {
        lemma_ancestor_shift(parents, c, (k - 1) as nat);
        assert(ancestor(parents, c, k + 1) == match ancestor(parents, c, k) {
            Some(x) => parents(x),
            None => None,
        });
    }
}

/// Until a chain reaches `issue`, changing the parent of `issue` does not change it.
proof fn lemma_chain_unchanged(parents: spec_fn(i64) -> Option<i64>, issue: i64, parent: i64, c: i64, k: nat)
    requires
        forall|j: nat| j < k ==> #[trigger] ancestor(parents, c, j) != Some(issue),
    ensures
        ancestor(with_parent(parents, issue, parent), c, k) == ancestor(parents, c, k),
    decreases k,
{
    if k > 0 {
        let k1 = (k - 1) as nat;
        assert forall|j: nat| j < k1 implies #[trigger] ancestor(parents, c, j) != Some(issue) by {
            assert(j < k);
        }
        lemma_chain_unchanged(parents, issue, parent, c, k1);
        assert(ancestor(parents, c, k1) != Some(issue));
    }
}

/// A chain that reaches `x` reaches it a first time.
proof fn lemma_first_reach(parents: spec_fn(i64) -> Option<i64>, c: i64, x: i64, k: nat) -> (m: nat)
    requires
        ancestor(parents, c, k) == Some(x),
    ensures
        m <= k,
        ancestor(parents, c, m) == Some(x),
        forall|j: nat| j < m ==> #[trigger] ancestor(parents, c, j) != Some(x),
    decreases k,
{
    if exists|j: nat| j < k && #[trigger] ancestor(parents, c, j) == Some(x) {
        let j = choose|j: nat| j < k && #[trigger] ancestor(parents, c, j) == Some(x);
        lemma_first_reach(parents, c, x, j)
    } else {
        k
    }
}

/// Giving `issue` the parent `parent` puts `issue` on a cycle exactly when
/// `issue` is `parent` or lies on `parent`'s chain of ancestors: the parents
/// that the check refuses are the ones that would close a cycle, and a parent
/// it accepts leaves the issue off every cycle.
pub proof fn lemma_parent_cycle(parents: spec_fn(i64) -> Option<i64>, issue: i64, parent: i64)
    ensures
        on_cycle(with_parent(parents, issue, parent), issue) <==> in_chain(parents, parent, issue),
{
    let q = with_parent(parents, issue, parent);
    if in_chain(parents, parent, issue) {
        let k = choose|k: nat| #[trigger] ancestor(parents, parent, k) == Some(issue);
        let m = lemma_first_reach(parents, parent, issue, k);
        lemma_chain_unchanged(parents, issue, parent, parent, m);
        lemma_ancestor_shift(q, issue, m);
        assert(q(issue) == Some(parent));
        assert(ancestor(q, issue, m + 1) == Some(issue));
    }
    if on_cycle(q, issue) {
        let k = choose|k: nat| k >= 1 && #[trigger] ancestor(q, issue, k) == Some(issue);
        let k1 = (k - 1) as nat;
        lemma_ancestor_shift(q, issue, k1);
        assert(q(issue) == Some(parent));
        assert(ancestor(q, parent, k1) == Some(issue));
        let m = lemma_first_reach(q, parent, issue, k1);
        // Before it first reaches `issue`, the new chain from `parent` is the old one.
        assert forall|j: nat| j < m implies #[trigger] ancestor(parents, parent, j) != Some(issue) by {
            if ancestor(parents, parent, j) == Some(issue) {
                let m0 = lemma_first_reach(parents, parent, issue, j);
                lemma_chain_unchanged(parents, issue, parent, parent, m0);
                assert(ancestor(q, parent, m0) == Some(issue));
            }
        }
        lemma_chain_unchanged(parents, issue, parent, parent, m);
        assert(ancestor(parents, parent, m) == Some(issue));
    }
}

/// No issue lies on a cycle of parent links.
pub open spec fn hierarchy_acyclic(parents: spec_fn(i64) -> Option<i64>) -> bool {
    forall|x: i64| !#[trigger] on_cycle(parents, x)
}

/// The parent links after `issue`'s parent is cleared.
pub open spec fn without_parent(parents: spec_fn(i64) -> Option<i64>, issue: i64) -> spec_fn(i64) -> Option<i64> {
    |x: i64| if x == issue { None } else { parents(x) }
}

/// Following a chain `a` steps and then `b` steps is following it `a + b` steps.
proof fn lemma_ancestor_compose(parents: spec_fn(i64) -> Option<i64>, c: i64, a: nat, b: nat)
    ensures
        ancestor(parents, c, a + b) == match ancestor(parents, c, a) {
            Some(y) => ancestor(parents, y, b),
            None => None,
        },
    decreases b,
{
    if b == 0 {
        assert(a + b == a);
    } else {
        lemma_ancestor_compose(parents, c, a, (b - 1) as nat);
        assert(ancestor(parents, c, a + b) == match ancestor(parents, c, (a + b - 1) as nat) {
            Some(x) => parents(x),
            None => None,
        });
        assert((a + b - 1) as nat == a + (b - 1) as nat);
    }
}

/// Every issue met along a cycle lies on a cycle.
proof fn lemma_cycle_through(parents: spec_fn(i64) -> Option<i64>, x: i64, k: nat, j: nat, y: i64)
    requires
        k >= 1,
        ancestor(parents, x, k) == Some(x),
        ancestor(parents, x, j) == Some(y),
    ensures
        on_cycle(parents, y),
{
    lemma_ancestor_compose(parents, x, j, k);
    lemma_ancestor_compose(parents, x, k, j);
    assert(j + k == k + j);
    assert(ancestor(parents, y, k) == Some(y));
}

/// The parent links hold no cycle after an update that the parent check
/// accepts, when they held none before: giving an issue a parent on whose
/// chain it does not lie, or clearing an issue's parent, closes no cycle
/// anywhere in the hierarchy.
pub proof fn lemma_update_keeps_hierarchy_acyclic(parents: spec_fn(i64) -> Option<i64>, issue: i64, parent: i64)
    requires
        hierarchy_acyclic(parents),
    ensures
        !in_chain(parents, parent, issue) ==> hierarchy_acyclic(with_parent(parents, issue, parent)),
        hierarchy_acyclic(without_parent(parents, issue)),
{
    let q = with_parent(parents, issue, parent);
    if !in_chain(parents, parent, issue) {
        assert forall|x: i64| !#[trigger] on_cycle(q, x) by {
            if on_cycle(q, x) {
                let k = choose|k: nat| k >= 1 && #[trigger] ancestor(q, x, k) == Some(x);
                if exists|j: nat| j < k && #[trigger] ancestor(parents, x, j) == Some(issue) {
                    // The cycle passes through `issue`, which the new parent keeps off every cycle.
                    let j = choose|j: nat| j < k && #[trigger] ancestor(parents, x, j) == Some(issue);
                    let m = lemma_first_reach(parents, x, issue, j);
                    lemma_chain_unchanged(parents, issue, parent, x, m);
                    lemma_cycle_through(q, x, k, m, issue);
                    lemma_parent_cycle(parents, issue, parent);
                } else {
                    lemma_chain_unchanged(parents, issue, parent, x, k);
                    assert(on_cycle(parents, x));
                }
            }
        }
    }
    let c = without_parent(parents, issue);
    assert forall|x: i64| !#[trigger] on_cycle(c, x) by {
        if on_cycle(c, x) {
            let k = choose|k: nat| k >= 1 && #[trigger] ancestor(c, x, k) == Some(x);
            if exists|j: nat| j < k && #[trigger] ancestor(parents, x, j) == Some(issue) {
                let j = choose|j: nat| j < k && #[trigger] ancestor(parents, x, j) == Some(issue);
                let m = lemma_first_reach(parents, x, issue, j);
                lemma_chain_cleared(parents, issue, x, m);
                assert(ancestor(c, x, m) == Some(issue));
                lemma_ancestor_compose(c, x, m, 1);
                assert(ancestor(c, issue, 1) == None::<i64>);
                assert(ancestor(c, x, m + 1) is None);
                lemma_chain_ends(c, x, m + 1, k);
            } else {
                lemma_chain_cleared(parents, issue, x, k);
                assert(on_cycle(parents, x));
            }
        }
    }
}

/// Until a chain reaches `issue`, clearing the parent of `issue` does not change it.
proof fn lemma_chain_cleared(parents: spec_fn(i64) -> Option<i64>, issue: i64, c: i64, k: nat)
    requires
        forall|j: nat| j < k ==> #[trigger] ancestor(parents, c, j) != Some(issue),
    ensures
        ancestor(without_parent(parents, issue), c, k) == ancestor(parents, c, k),
    decreases k,
{
    if k > 0 {
        let k1 = (k - 1) as nat;
        assert forall|j: nat| j < k1 implies #[trigger] ancestor(parents, c, j) != Some(issue) by {
            assert(j < k);
        }
        lemma_chain_cleared(parents, issue, c, k1);
        assert(ancestor(parents, c, k1) != Some(issue));
    }
}

} // verus!
