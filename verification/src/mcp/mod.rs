//! The MCP server's logic: the command allowlist and working-directory
//! jail, the tools' parameter and result shapes, and how tool results are
//! assembled.

pub mod constants;
pub mod utils;
pub mod security;
pub mod tools;
pub mod handler;
