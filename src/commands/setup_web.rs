//! The `setup-web` subcommand's arguments.

use vstd::prelude::*;

verus! {

/// Arguments of `setup-web`: it takes none.
pub struct Args {}

} // verus!
