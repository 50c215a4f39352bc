//! `bmo issue log`.

use vstd::prelude::*;

verus! {

/// The arguments of `bmo issue log`: the issue, and how many entries to show
/// (10 unless given).
#[derive(Debug)]
pub struct LogArgs {
    pub id: String,
    pub limit: usize,
}

} // verus!
