//! The session-based test protocol: JSON actions, YAML test files, strict
//! validation. The single definition every frontend speaks.

pub mod constants;
pub mod error;
pub mod utils;
pub mod actions;
pub mod steps;
