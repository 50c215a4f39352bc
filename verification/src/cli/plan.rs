//! `bmo plan`: the execution plan, or one phase of it.

use vstd::prelude::*;

use crate::cli::next::{assigned_to, issues_assigned_to};
use crate::model::issue::{opt_text, Issue, IssueView};
use crate::output::{issue_views, Phase};
use crate::text::{concat, concat3, count_decimal, decimal_text, owned, unsigned_decimal};

verus! {

/// The arguments of `bmo plan`: a phase to show alone, and whose issues in it.
#[derive(Debug)]
pub struct PlanArgs {
    pub assignee: Option<String>,
    pub phase: Option<u32>,
}

impl PlanArgs {
    /// An assignee is only taken together with a phase.
    pub fn check(&self) -> (r: Result<(), String>)
        ensures
            (self.assignee is Some && self.phase is None) <==> r is Err,
            r matches Err(m) ==> m@ == "--assignee requires --phase"@,
    {
        if self.assignee.is_some() && self.phase.is_none() {
            Err(owned("--assignee requires --phase"))
        } else {
            Ok(())
        }
    }
}

/// Why a phase number is refused, given the plan's number of phases.
pub open spec fn missing_phase_text(n: u32, total: u32) -> Seq<char> {
    "phase "@ + decimal_text(n as int) + " does not exist (plan has "@ + decimal_text(total as int) + " phase"@
        + (if total == 1 { ""@ } else { "s"@ }) + ")"@
}

/// Phases are numbered from 1 to the plan's number of phases (taken as a `u32`).
pub fn check_phase(n: u32, total_phases: usize) -> (r: Result<(), String>)
    ensures
        r is Err <==> (n == 0 || n > total_phases as u32),
        r matches Err(m) ==> m@ == missing_phase_text(n, total_phases as u32),
{
    #[verifier::truncate]
    let total = total_phases as u32;
    if n == 0 || n > total {
        let a = unsigned_decimal(n as u64);
        let b = unsigned_decimal(total as u64);
        let head = concat3("phase ", a.as_str(), " does not exist (plan has ");
        let mid = concat3(head.as_str(), b.as_str(), " phase");
        let tail = if total == 1 {
            ""
        } else {
            "s"
        };
        proof {
            reveal_strlit("");
            reveal_strlit("s");
        }
        let m = concat3(mid.as_str(), tail, ")");
        Err(m)
    } else {
        Ok(())
    }
}

/// The issues of the first phase numbered `n`, if there is one.
pub open spec fn phase_issues_of(phases: Seq<Phase>, n: usize) -> Option<Seq<IssueView>>
    decreases phases.len(),
{
    if phases.len() == 0 {
        None
    } else if phases[0].number == n {
        Some(issue_views(phases[0].issues@))
    } else {
        phase_issues_of(phases.drop_first(), n)
    }
}

/// The issues of phase `n`, kept only when assigned to the assignee given;
/// none when the plan has no such phase.
pub fn phase_issues(phases: &Vec<Phase>, n: u32, assignee: &Option<String>) -> (r: Vec<Issue>)
    ensures
        issue_views(r@) == match phase_issues_of(phases@, n as usize) {
            Some(v) => assigned_to(v, opt_text(*assignee)),
            None => seq![],
        },
{
    let want = n as usize;
    let mut i: usize = 0;
    assert(phases@.skip(0) =~= phases@);
    while i < phases.len()
        invariant
            0 <= i <= phases.len(),
            want == n as usize,
            phase_issues_of(phases@, want) == phase_issues_of(phases@.skip(i as int), want),
        decreases phases.len() - i,
    {
        if phases[i].number == want {
            return issues_assigned_to(&phases[i].issues, assignee);
        }
        assert(phases@.skip(i as int).drop_first() =~= phases@.skip(i + 1));
        i += 1;
    }
    assert(phases@.skip(i as int) =~= seq![]);
    let out: Vec<Issue> = Vec::new();
    assert(issue_views(out@) =~= seq![]);
    out
}

/// What a phase shown alone reports in JSON: `Phase 2: 3 issue(s).`
pub fn phase_message(n: u32, count: usize) -> (r: String)
    ensures
        r@ == "Phase "@ + decimal_text(n as int) + ": "@ + decimal_text(count as int) + " issue(s)."@,
{
    let a = unsigned_decimal(n as u64);
    let b = count_decimal(count);
    let head = concat3("Phase ", a.as_str(), ": ");
    concat3(head.as_str(), b.as_str(), " issue(s).")
}

/// The heading of a phase shown alone: `Phase 2 (3 issues):`, `Phase 2 (1 issue):`.
pub fn phase_heading(n: u32, count: usize) -> (r: String)
    ensures
        r@ == "Phase "@ + decimal_text(n as int) + " ("@ + decimal_text(count as int) + " issue"@ + (if count
            == 1 {
            ""@
        } else {
            "s"@
        }) + "):"@,
{
    let a = unsigned_decimal(n as u64);
    let b = count_decimal(count);
    let head = concat3("Phase ", a.as_str(), " (");
    let mid = concat3(head.as_str(), b.as_str(), " issue");
    let tail = if count == 1 {
        ""
    } else {
        "s"
    };
    proof {
        reveal_strlit("");
        reveal_strlit("s");
    }
    concat3(mid.as_str(), tail, "):")
}

} // verus!
