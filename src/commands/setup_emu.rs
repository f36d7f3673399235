//! The `setup-emu` subcommand's arguments.

use vstd::prelude::*;

verus! {

/// Arguments of `setup-emu`: the emulator to install (`gens` or `blastem`).
pub struct Args {
    pub emulator: String,
}

impl Args {
    /// Arguments that install `emulator`.
    pub fn new(emulator: String) -> (r: Self)
        ensures
            r.emulator == emulator,
    {
        Self { emulator }
    }
}

} // verus!
