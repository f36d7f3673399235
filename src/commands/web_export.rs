//! The `web-export` subcommand's arguments.

use vstd::prelude::*;

verus! {

/// Arguments of `web-export`: the ROM to export, and the directory in which
/// `web-export` is created.
pub struct Args {
    pub rom: String,
    pub dir: String,
}

} // verus!
