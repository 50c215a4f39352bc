//! Labels that can be attached to issues.

use vstd::prelude::*;

verus! {

/// A named label, with an optional display colour.
#[derive(Debug)]
pub struct Label {
    pub id: i64,
    pub name: String,
    pub color: Option<String>,
}

} // verus!
