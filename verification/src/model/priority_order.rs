//! The order of priorities, lowest first.

use std::cmp::Ordering;

use vstd::prelude::*;
use vstd::std_specs::cmp::PartialOrdSpec;

use crate::model::issue::Priority;

verus! {

impl PartialOrd for Priority {
    fn partial_cmp(&self, other: &Priority) -> (r: Option<Ordering>) {
        let a = self.order();
        let b = other.order();
        if a < b {
            Some(Ordering::Less)
        } else if a == b {
            Some(Ordering::Equal)
        } else {
            Some(Ordering::Greater)
        }
    }
}

impl vstd::std_specs::cmp::PartialOrdSpecImpl for Priority {
    open spec fn obeys_partial_cmp_spec() -> bool {
        true
    }

    open spec fn partial_cmp_spec(&self, other: &Priority) -> Option<Ordering> {
        if self.rank() < other.rank() {
            Some(Ordering::Less)
        } else if self.rank() == other.rank() {
            Some(Ordering::Equal)
        } else {
            Some(Ordering::Greater)
        }
    }
}

/// Priorities compare by their place in the order, lowest first: unset,
/// low, medium, high, critical. Any two compare, and only a priority with
/// itself compares equal.
pub proof fn lemma_priority_order(a: Priority, b: Priority)
    ensures
        (a.partial_cmp_spec(&b) == Some(Ordering::Less)) <==> a.rank() < b.rank(),
        (a.partial_cmp_spec(&b) == Some(Ordering::Equal)) <==> a == b,
        (a.partial_cmp_spec(&b) == Some(Ordering::Less)) <==> (b.partial_cmp_spec(&a) == Some(Ordering::Greater)),
        a.partial_cmp_spec(&b) is Some,
        Priority::Unset.rank() < Priority::Low.rank() && Priority::Low.rank() < Priority::Medium.rank(),
        Priority::Medium.rank() < Priority::High.rank() && Priority::High.rank() < Priority::Critical.rank(),
{
}

} // verus!
