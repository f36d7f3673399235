//! Command-line helpers around a Mega Drive development kit, with a static
//! file server for exported browser builds whose request handling is verified.

pub mod commands;
pub mod strings;
