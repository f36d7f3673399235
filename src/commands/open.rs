//! The `open` subcommand's arguments.

use vstd::prelude::*;

verus! {

/// Arguments of `open`: it takes none.
pub struct Args {}

} // verus!
