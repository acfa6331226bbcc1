//! Per-run session state: every error leaving the runner carries step and
//! session context from here, feeding the failure bundle.

use vstd::prelude::*;

use crate::engine::clock::{elapsed_nanos, instant_now};

verus! {

/// Live state for one suite execution.
pub struct TestContext {
    /// Session id (`sess_001`, ...).
    pub session_id: String,
    /// Suite name from YAML.
    pub suite: String,
    /// Run start time.
    pub started_at: std::time::Instant,
    /// Index of the step currently executing.
    pub step_index: usize,
    /// Human-readable input history (`press ENTER`, `type[len=5]`, ...).
    pub input_history: Vec<String>,
}

/// Whole milliseconds in `nanos` nanoseconds, kept to the low 64 bits as
/// `as u64` does.
pub open spec fn millis_value(nanos: u128) -> u64 {
    (nanos / 1000000) as u64
}

/// Whole milliseconds in `nanos` nanoseconds, as `u64` (truncating, as
/// `Duration::as_millis() as u64` does).
pub fn millis_of(nanos: u128) -> (r: u64)
    ensures
        r == millis_value(nanos),
{
    (nanos / 1000000) as u64
}

impl TestContext {
    /// Start a context for `suite` with the given session id.
    pub fn new(session_id: &str, suite: &str) -> (c: Self)
        ensures
            c.session_id@ == session_id@,
            c.suite@ == suite@,
            c.step_index == 0,
            c.input_history@.len() == 0,
    {
        TestContext {
            session_id: session_id.to_owned(),
            suite: suite.to_owned(),
            started_at: instant_now(),
            step_index: 0,
            input_history: Vec::new(),
        }
    }

    /// Whole milliseconds since the run started, as `u64`: the clock's
    /// reading of the time since `started_at`, in nanoseconds, converted by
    /// [`millis_of`]. The reading depends on the clock, so which value comes
    /// back is not claimed.
    pub fn elapsed_ms(&self) -> (r: u64)
        ensures
            exists|nanos: u128| r == millis_value(nanos),
    {
        let nanos = elapsed_nanos(&self.started_at);
        millis_of(nanos)
    }
}

} // verus!
