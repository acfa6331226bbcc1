//! Assertion condition names.

use vstd::prelude::*;

verus! {

/// Text conditions.
pub const COND_TEXT_VISIBLE: &'static str = "text_visible";
pub const COND_TEXT_NOT_VISIBLE: &'static str = "text_not_visible";
pub const COND_TEXT_REGEX: &'static str = "text_regex";
/// Screen conditions.
pub const COND_CURSOR_POSITION: &'static str = "cursor_position";
pub const COND_SCREEN_CHANGED: &'static str = "screen_changed";
/// Process conditions.
pub const COND_EXIT_CODE: &'static str = "exit_code";
pub const COND_NOT_CRASHED: &'static str = "not_crashed";

} // verus!
