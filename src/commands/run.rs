//! The `run` subcommand's arguments.

use vstd::prelude::*;

verus! {

/// Arguments of `run`: the emulator to use, if one is named, and the ROM.
pub struct Args {
    pub emulator: Option<String>,
    pub rom: String,
}

} // verus!
