//! One module per subcommand of the tool.

pub mod make;
pub mod new;
pub mod open;
pub mod run;
pub mod setup;
pub mod setup_emu;
pub mod setup_web;
pub mod web_export;
pub mod web_server;
