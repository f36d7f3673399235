//! The `make` subcommand's arguments.

use vstd::prelude::*;

verus! {

/// Arguments of `make`: options handed on to `make` as they are.
pub struct Args {
    pub extra: Vec<String>,
}

impl Args {
    /// Arguments that hand `extra` on to `make`.
    pub fn new(extra: Vec<String>) -> (r: Self)
        ensures
            r.extra == extra,
    {
        Self { extra }
    }
}

} // verus!
