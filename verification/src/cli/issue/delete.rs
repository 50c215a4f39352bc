//! `bmo issue delete`.

use vstd::prelude::*;

verus! {

/// The arguments of `bmo issue delete`: the issue, and whether to skip the
/// confirmation.
#[derive(Debug)]
pub struct DeleteArgs {
    pub id: String,
    pub yes: bool,
}

} // verus!
