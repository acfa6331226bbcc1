//! Session and lifecycle defaults.

use vstd::prelude::*;

verus! {

/// Default per-wait timeout.
pub const DEFAULT_TIMEOUT_MS: u64 = 5000;
/// Screen poll interval for `wait_for_text`.
pub const DEFAULT_POLL_MS: u64 = 50;
/// Maximum concurrent PTY sessions (every frontend shares the budget).
pub const MAX_SESSIONS: usize = 8;
/// Idle sessions are reaped after this long.
pub const IDLE_TIMEOUT_SECS: u64 = 60;

} // verus!
