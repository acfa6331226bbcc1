//! The `tuilab` command line: exit codes, project configuration, argument
//! parsing, run summaries, the JSON-lines engine's responses, and the
//! recorder's synthesis rules.

pub mod constants;
pub mod utils;
pub mod config;
pub mod args;
pub mod commands;
pub mod proto;
pub mod recorder;
