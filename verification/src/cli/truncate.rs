//! `bmo truncate`: deleting issues by status.

use vstd::prelude::*;

use crate::model::issue::Status;
use crate::text::{concat, concat3, decimal, decimal_text, lowercase_of, unsigned_decimal};

verus! {

/// The arguments of `bmo truncate`.
#[derive(Debug)]
pub struct TruncateArgs {
    /// Delete issues with these statuses (default: done).
    pub status: Vec<String>,
    /// Delete every issue, whatever its status.
    pub all: bool,
    /// Skip the confirmation.
    pub yes: bool,
}

/// The statuses that the texts name, in order; texts that name none are left out.
pub open spec fn named_statuses(v: Seq<String>) -> Seq<Status>
    decreases v.len(),
{
    if v.len() == 0 {
        seq![]
    } else {
        match Status::from_lower(lowercase_of(v.last()@)) {
            Some(s) => named_statuses(v.drop_last()).push(s),
            None => named_statuses(v.drop_last()),
        }
    }
}

/// The statuses a truncation deletes.
pub open spec fn statuses_to_delete(all: bool, status: Seq<String>) -> Seq<Status> {
    if all {
        Status::spec_all()
    } else if status.len() > 0 {
        named_statuses(status)
    } else {
        seq![Status::Done]
    }
}

/// The labels of `v`, separated by `, `.
pub open spec fn joined_labels(v: Seq<Status>) -> Seq<char>
    decreases v.len(),
{
    if v.len() == 0 {
        seq![]
    } else if v.len() == 1 {
        v[0].spec_label()
    } else {
        joined_labels(v.drop_last()) + ", "@ + v.last().spec_label()
    }
}

/// The labels of the statuses, separated by `, `.
pub fn join_labels(v: &Vec<Status>) -> (r: String)
    ensures
        r@ == joined_labels(v@),
{
    let mut out = String::new();
    let mut i: usize = 0;
    while i < v.len()
        invariant
            0 <= i <= v.len(),
            out@ == joined_labels(v@.take(i as int)),
        decreases v.len() - i,
    {
        proof {
            assert(v@.take(i + 1).drop_last() =~= v@.take(i as int));
        }
        if i == 0 {
            out = crate::text::owned(v[i].label());
            assert(v@.take(1) =~= seq![v@[0]]);
        } else {
            out = concat3(out.as_str(), ", ", v[i].label());
        }
        i += 1;
    }
    assert(v@.take(v.len() as int) =~= v@);
    out
}

impl TruncateArgs {
    /// The statuses to delete: all of them with `--all`, else those named
    /// (texts that name none are left out), else `done`.
    pub fn get_statuses(&self) -> (r: Vec<Status>)
        ensures
            r@ == statuses_to_delete(self.all, self.status@),
    {
        if self.all {
            let a = Status::all();
            let mut out: Vec<Status> = Vec::new();
            let mut i: usize = 0;
            while i < a.len()
                invariant
                    0 <= i <= a.len(),
                    a@ == Status::spec_all(),
                    out@ == a@.take(i as int),
                decreases a.len() - i,
            {
                out.push(a[i]);
                assert(out@ =~= a@.take(i + 1));
                i += 1;
            }
            assert(a@.take(a.len() as int) =~= a@);
            out
        } else if self.status.len() > 0 {
            let mut out: Vec<Status> = Vec::new();
            let mut i: usize = 0;
            while i < self.status.len()
                invariant
                    0 <= i <= self.status.len(),
                    out@ == named_statuses(self.status@.take(i as int)),
                decreases self.status.len() - i,
            {
                proof {
                    assert(self.status@.take(i + 1).drop_last() =~= self.status@.take(i as int));
                }
                match Status::parse(self.status[i].as_str()) {
                    Ok(s) => out.push(s),
                    Err(_) => {},
                }
                i += 1;
            }
            assert(self.status@.take(self.status.len() as int) =~= self.status@);
            out
        } else {
            let mut out: Vec<Status> = Vec::new();
            out.push(Status::Done);
            assert(out@ =~= seq![Status::Done]);
            out
        }
    }

    /// The question asked before deleting `count` issues of the given statuses.
    pub fn prompt(&self, statuses: &Vec<Status>, count: i64) -> (r: String)
        ensures
            r@ == if self.all {
                "Delete ALL "@ + decimal_text(count as int) + " issue(s) permanently? This cannot be undone. [y/N] "@
            } else if statuses@ == seq![Status::Done] {
                "Delete "@ + decimal_text(count as int) + " done issue(s) permanently? [y/N] "@
            } else {
                "Delete "@ + decimal_text(count as int) + " issue(s) with status ["@ + joined_labels(statuses@)
                    + "]? [y/N] "@
            },
    {
        let n = decimal(count);
        if self.all {
            concat3("Delete ALL ", n.as_str(), " issue(s) permanently? This cannot be undone. [y/N] ")
        } else if statuses.len() == 1 && statuses[0] == Status::Done {
            assert(statuses@ =~= seq![Status::Done]);
            concat3("Delete ", n.as_str(), " done issue(s) permanently? [y/N] ")
        } else {
            proof {
                if statuses@ == seq![Status::Done] {
                    assert(statuses@.len() == 1 && statuses@[0] == Status::Done);
                }
            }
            let labels = join_labels(statuses);
            let head = concat3("Delete ", n.as_str(), " issue(s) with status [");
            concat3(head.as_str(), labels.as_str(), "]? [y/N] ")
        }
    }
}

/// What a truncation reports: `Deleted 4 issue(s).`
pub fn deleted_message(n: u64) -> (r: String)
    ensures
        r@ == "Deleted "@ + decimal_text(n as int) + " issue(s)."@,
{
    let d = unsigned_decimal(n);
    concat3("Deleted ", d.as_str(), " issue(s).")
}

} // verus!
