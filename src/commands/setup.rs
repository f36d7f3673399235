//! The `setup` subcommand's arguments.

use vstd::prelude::*;

verus! {

/// Arguments of `setup`: the branch, tag or commit of the kit to check out.
pub struct Args {
    pub version: String,
}

} // verus!
