//! The run record the reporter formats: pure data.

use vstd::prelude::*;

verus! {

/// Whole-suite outcome.
#[derive(Debug, Clone, PartialEq)]
pub struct SuiteResult {
    /// Schema id (`tui-lab/v1`).
    pub schema: String,
    /// Suite name.
    pub suite: String,
    /// All steps passed and exit assertions held.
    pub passed: bool,
    /// Process exit success, if the process ended.
    pub exit_success: Option<bool>,
    /// Termination signal name, if reported (e.g. `SIGKILL`).
    pub exit_signal: Option<String>,
    /// Total run time in milliseconds.
    pub duration_ms: u64,
    /// Per-step outcomes, in execution order.
    pub steps: Vec<StepResult>,
    /// First failure details (the failure bundle's core).
    pub failure: Option<FailureInfo>,
    /// Terminal the suite ran under.
    pub terminal: TerminalInfo,
}

/// One executed step.
#[derive(Debug, Clone, PartialEq)]
pub struct StepResult {
    /// Zero-based index across setup, steps and cleanup.
    pub index: usize,
    /// Human step description (`press DOWN`, `wait_for_text "x"`, ...).
    pub kind: String,
    /// Whether the step passed.
    pub passed: bool,
    /// Detail line (verdict text, diff head, timings).
    pub detail: String,
    /// Step duration in milliseconds.
    pub duration_ms: u64,
}

/// First-failure evidence.
#[derive(Debug, Clone, PartialEq)]
pub struct FailureInfo {
    /// Step index that failed.
    pub step_index: usize,
    /// Human step description.
    pub step: String,
    /// What was expected.
    pub expected: String,
    /// What was observed.
    pub actual: String,
    /// Last full screen.
    pub last_screen: String,
    /// Input history up to the failure.
    pub input_history: Vec<String>,
}

/// Terminal geometry and type for the run record.
#[derive(Debug, Clone, PartialEq)]
pub struct TerminalInfo {
    /// Columns.
    pub width: u16,
    /// Rows.
    pub height: u16,
    /// `$TERM` value advertised.
    pub term: String,
}

} // verus!
