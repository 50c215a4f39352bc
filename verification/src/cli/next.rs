//! `bmo next`: the issues ready to be worked on.

use vstd::prelude::*;

use crate::model::issue::{Issue, IssueView};
use crate::output::issue_views;
use crate::text::str_eq;

verus! {

/// The arguments of `bmo next`: whose issues, and at most how many (10
/// unless given).
#[derive(Debug)]
pub struct NextArgs {
    pub assignee: Option<String>,
    pub limit: usize,
}

/// The issues of `v` assigned to `a`, in order; all of them when `a` is `None`.
pub open spec fn assigned_to(v: Seq<IssueView>, a: Option<Seq<char>>) -> Seq<IssueView>
    decreases v.len(),
{
    if v.len() == 0 {
        seq![]
    } else if a is None || v.last().assignee == a {
        assigned_to(v.drop_last(), a).push(v.last())
    } else {
        assigned_to(v.drop_last(), a)
    }
}

/// At most the first `n` items of `v`.
pub open spec fn first_n<A>(v: Seq<A>, n: int) -> Seq<A> {
    if v.len() <= n {
        v
    } else {
        v.take(n)
    }
}

/// The issues of `v` assigned to `a` (all of them when `a` is `None`), in order.
pub fn issues_assigned_to(v: &Vec<Issue>, a: &Option<String>) -> (r: Vec<Issue>)
    ensures
        issue_views(r@) == assigned_to(issue_views(v@), crate::model::issue::opt_text(*a)),
{
    let ghost who = crate::model::issue::opt_text(*a);
    let mut out: Vec<Issue> = Vec::new();
    let mut i: usize = 0;
    while i < v.len()
        invariant
            0 <= i <= v.len(),
            who == crate::model::issue::opt_text(*a),
            issue_views(out@) == assigned_to(issue_views(v@.take(i as int)), who),
        decreases v.len() - i,
    {
        proof {
            assert(issue_views(v@.take(i + 1)).drop_last() =~= issue_views(v@.take(i as int)));
            assert(issue_views(v@.take(i + 1)).last() == v@[i as int]@);
        }
        let keep = match a {
            None => true,
            Some(name) => match &v[i].assignee {
                Some(x) => str_eq(x.as_str(), name.as_str()),
                None => false,
            },
        };
        if keep {
            let ghost before = out@;
            let c = v[i].clone();
            out.push(c);
            assert(issue_views(out@) =~= issue_views(before).push(c@));
        }
        i += 1;
    }
    assert(v@.take(v.len() as int) =~= v@);
    out
}

impl NextArgs {
    /// Of the ready issues, in their order, the first `limit` assigned to the
    /// assignee given (of any assignee when none is).
    pub fn select(&self, ready: &Vec<Issue>) -> (r: Vec<Issue>)
        ensures
            issue_views(r@) == first_n(
                assigned_to(issue_views(ready@), crate::model::issue::opt_text(self.assignee)),
                self.limit as int,
            ),
    {
        let mut v = issues_assigned_to(ready, &self.assignee);
        let ghost w0 = v@;
        if v.len() > self.limit {
            v.truncate(self.limit);
            assert(issue_views(v@) =~= issue_views(w0).take(self.limit as int));
        }
        v
    }
}

} // verus!
