//! MCP tool parameter and output shapes. Every tool answers with one of
//! the output shapes, or fails with a message; never silently.

use vstd::prelude::*;
use crate::json::JsonValue;

verus! {
/// `tui_launch` input.
#[derive(Debug)]
pub struct LaunchParams {
    /// Executable (must match `security.allow_commands`).
    pub command: String,
    /// CLI arguments.
    pub args: Vec<String>,
    /// Working directory, jailed under the project root.
    pub cwd: Option<String>,
    /// Terminal width (120 when not given).
    pub width: u16,
    /// Terminal height (40 when not given).
    pub height: u16,
    /// Extra environment.
    pub env: Vec<(String, String)>,
}

/// `tui_launch` output.
#[derive(Debug)]
pub struct LaunchOut {
    /// New session id.
    pub session_id: String,
    /// Always `"running"` on success.
    pub status: String,
    /// First screen text.
    pub screen: String,
}

/// `tui_press` input.
#[derive(Debug)]
pub struct PressParams {
    /// Session id.
    pub session_id: String,
    /// Named key (`ENTER`, `DOWN`, `CTRL+C`, ...).
    pub key: String,
}

/// `tui_press` output.
#[derive(Debug)]
pub struct PressOut {
    /// The key was sent.
    pub ok: bool,
    /// Whether the screen differs after the settle pump.
    pub screen_changed: bool,
}

/// `tui_type` input.
#[derive(Debug)]
pub struct TypeParams {
    /// Session id.
    pub session_id: String,
    /// Text typed verbatim.
    pub text: String,
    /// Secret input: only its length is logged.
    pub sensitive: bool,
}

/// `tui_type` output.
#[derive(Debug)]
pub struct TypeOut {
    /// The text was sent.
    pub ok: bool,
}

/// `tui_screen` input.
#[derive(Debug)]
pub struct ScreenParams {
    /// Session id.
    pub session_id: String,
    /// Request per-cell styling.
    pub styled: bool,
}

/// Zero-based cursor position.
#[derive(Debug)]
pub struct CursorPos {
    /// Row.
    pub row: usize,
    /// Column.
    pub col: usize,
}

/// `tui_screen` output.
#[derive(Debug)]
pub struct ScreenOut {
    /// Columns.
    pub width: usize,
    /// Rows.
    pub height: usize,
    /// Cursor position.
    pub cursor: CursorPos,
    /// Plain-text grid dump.
    pub text: String,
    /// Per-cell detail, when styled output is available.
    pub cells: Option<Vec<ScreenCell>>,
}

/// One styled screen cell.
#[derive(Debug)]
pub struct ScreenCell {
    /// Column.
    pub x: usize,
    /// Row.
    pub y: usize,
    /// Cell contents.
    pub char: String,
    /// Foreground colour.
    pub fg: String,
    /// Background colour.
    pub bg: String,
    /// Bold.
    pub bold: bool,
    /// Underlined.
    pub underline: bool,
    /// Reverse video.
    pub reverse: bool,
}

/// `tui_wait_for_text` input.
#[derive(Debug)]
pub struct WaitParams {
    /// Session id.
    pub session_id: String,
    /// Substring (or regex with `regex`) to wait for.
    pub text: String,
    /// Regex mode.
    pub regex: bool,
    /// Timeout in milliseconds (3000 when not given).
    pub timeout_ms: u64,
}

/// `tui_wait_for_text` output.
#[derive(Debug)]
pub struct WaitOut {
    /// Whether the text appeared in time.
    pub found: bool,
    /// Time spent waiting.
    pub elapsed_ms: u64,
    /// Last screen seen.
    pub screen: String,
}

/// `tui_assert` input.
#[derive(Debug)]
pub struct AssertParams {
    /// Session id.
    pub session_id: String,
    /// The condition, as a JSON object.
    pub assertion: JsonValue,
}

/// `tui_assert` output.
#[derive(Debug)]
pub struct AssertOut {
    /// Verdict.
    pub passed: bool,
    /// Why.
    pub detail: String,
}

/// `tui_snapshot` input.
#[derive(Debug)]
pub struct SnapshotParams {
    /// Session id.
    pub session_id: String,
    /// Snapshot name.
    pub name: String,
}

/// `tui_snapshot` output.
#[derive(Debug)]
pub struct SnapshotOut {
    /// A new golden was written.
    pub saved: bool,
    /// The diff against the golden, on mismatch.
    pub diff: Option<String>,
}

/// `tui_run_test` input.
#[derive(Debug)]
pub struct RunTestParams {
    /// Suite path, relative to the project root unless absolute.
    pub test_file: String,
    /// Terminal geometry overriding the suite's.
    pub terminal: Option<TerminalOverride>,
}

/// Terminal geometry override.
#[derive(Debug)]
pub struct TerminalOverride {
    /// Columns.
    pub width: u16,
    /// Rows.
    pub height: u16,
}

/// One failure of a suite run.
#[derive(Debug)]
pub struct RunFailure {
    /// Suite name.
    pub test: String,
    /// Failing step index.
    pub step: usize,
    /// What the step expected.
    pub expected: String,
    /// What it found.
    pub actual: String,
}

/// `tui_run_test` output.
#[derive(Debug)]
pub struct RunTestOut {
    /// `passed` or `failed`.
    pub status: String,
    /// Steps that passed.
    pub passed: usize,
    /// Steps that failed.
    pub failed: usize,
    /// The failures.
    pub failures: Vec<RunFailure>,
}

/// `tui_close` input.
#[derive(Debug)]
pub struct CloseParams {
    /// Session id.
    pub session_id: String,
    /// Input sent first so the application can exit on its own.
    pub quit: Option<String>,
}

/// `tui_close` output.
#[derive(Debug)]
pub struct CloseOut {
    /// The process exited cleanly.
    pub success: bool,
    /// Exit code (0 unless known otherwise).
    pub exit_code: u32,
    /// Terminating signal, if any.
    pub signal: Option<String>,
    /// Extra detail.
    pub detail: Option<String>,
}

/// Default terminal width of a launch.
pub fn default_width() -> (r: u16)
    ensures
        r == 120,
{
    120
}

/// Default terminal height of a launch.
pub fn default_height() -> (r: u16)
    ensures
        r == 40,
{
    40
}

/// Default wait timeout, in milliseconds.
pub fn default_timeout_ms() -> (r: u64)
    ensures
        r == 3000,
{
    3000
}

} // verus!
