//! `bmo config`.

use vstd::prelude::*;

verus! {

/// The arguments of `bmo config`: a key to show, and `key=value` to set.
/// With neither, every setting is shown.
#[derive(Debug)]
pub struct ConfigArgs {
    pub get: Option<String>,
    pub set: Option<String>,
}

} // verus!
