//! Protocol versions and action names.

use vstd::prelude::*;

verus! {

/// Canonical schema id used in every YAML test file.
pub const SCHEMA_ID: &'static str = "tui-lab/v1";
/// Protocol version negotiated on session creation.
pub const PROTOCOL_VERSION: &'static str = "1.0";
/// Action names (a closed set).
pub const ACTION_LAUNCH: &'static str = "launch";
pub const ACTION_PRESS: &'static str = "press";
pub const ACTION_TYPE: &'static str = "type";
pub const ACTION_WAIT_FOR_TEXT: &'static str = "wait_for_text";
pub const ACTION_SCREEN: &'static str = "screen";
pub const ACTION_ASSERT: &'static str = "assert";
pub const ACTION_SNAPSHOT: &'static str = "snapshot";
pub const ACTION_RESIZE: &'static str = "resize";
pub const ACTION_CLOSE: &'static str = "close";

} // verus!
