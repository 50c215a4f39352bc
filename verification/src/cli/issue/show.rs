//! `bmo issue show`.

use vstd::prelude::*;

verus! {

/// The arguments of `bmo issue show`: the issue.
#[derive(Debug)]
pub struct ShowArgs {
    pub id: String,
}

} // verus!
