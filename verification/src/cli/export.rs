//! `bmo export`.

use vstd::prelude::*;

verus! {

/// The arguments of `bmo export`: the file to write, standard output if none.
#[derive(Debug)]
pub struct ExportArgs {
    pub output: Option<String>,
}

} // verus!
