//! How the MCP tools assemble their answers. Running the tools (locking the
//! shared state, driving sessions, awaiting waits and suite runs) is the
//! server's business; each answer it sends is built here.

use vstd::prelude::*;
use crate::assertions::conditions::ScreenView;
use crate::engine::result::{StepResult, SuiteResult};
use crate::mcp::tools::{CloseOut, LaunchOut, RunFailure, RunTestOut, SnapshotOut};
use crate::text::{debug_str, push_str, quote_debug};

verus! {

/// The message of a failed tool call: `context: message`.
pub fn tool_error(context: &str, message: &str) -> (r: String)
    ensures
        r@ == context@ + ": "@ + message@,
{
    let mut r = String::new();
    push_str(&mut r, context);
    push_str(&mut r, ": ");
    push_str(&mut r, message);
    r
}

/// The input-history entry of a `press`.
pub fn press_entry(key: &str) -> (r: String)
    ensures
        r@ == "press "@ + key@,
{
    let mut r = String::new();
    push_str(&mut r, "press ");
    push_str(&mut r, key);
    r
}

/// The input-history entry of a `type`: sensitive text is never echoed.
pub fn type_entry(text: &str, sensitive: bool) -> (r: String)
    ensures
        r@ == (if sensitive {
            "type[len=n, redacted]"@
        } else {
            "type "@ + debug_str(text@)
        }),
{
    let mut r = String::new();
    if sensitive {
        push_str(&mut r, "type[len=n, redacted]");
    } else {
        push_str(&mut r, "type ");
        let q = quote_debug(text);
        push_str(&mut r, q.as_str());
    }
    r
}

/// The answer to a successful launch.
pub fn launch_out(session_id: String, screen: String) -> (r: LaunchOut)
    ensures
        r.session_id@ == session_id@,
        r.status@ == "running"@,
        r.screen@ == screen@,
{
    LaunchOut { session_id, status: "running".to_owned(), screen }
}

/// Exit code and crash flag of a session whose process was polled:
/// `Some(clean)` once it has exited, `None` while it runs. Only a clean exit
/// reads as code 0; any other exit reads as a crash.
pub fn exit_state(polled: Option<bool>) -> (r: (Option<i32>, bool))
    ensures
        r == (match polled {
            Some(true) => (Some(0i32), false),
            Some(false) => (None::<i32>, true),
            None => (None::<i32>, false),
        }),
{
    match polled {
        Some(true) => (Some(0), false),
        Some(false) => (None, true),
        None => (None, false),
    }
}

/// The view assertions are evaluated against: the live screen, with the
/// exit state of the polled process.
pub fn live_view(text: &str, cursor: (usize, usize), polled: Option<bool>) -> (v: ScreenView)
    ensures
        v.text@ == text@,
        v.cursor == cursor,
        v.screen_changed,
        (v.exit_code, v.crashed) == (match polled {
            Some(true) => (Some(0i32), false),
            Some(false) => (None::<i32>, true),
            None => (None::<i32>, false),
        }),
{
    let (exit_code, crashed) = exit_state(polled);
    ScreenView { text: text.to_owned(), cursor, screen_changed: true, exit_code, crashed }
}

/// The answer to a snapshot: a first capture saves the golden; later ones
/// report the diff when the screen differs.
pub fn snapshot_out(saved: bool, equal: bool, diff: String) -> (r: SnapshotOut)
    ensures
        r.saved == saved,
        saved ==> r.diff is None,
        !saved ==> (match r.diff {
            Some(d) => !equal && d@ == diff@,
            None => equal,
        }),
{
    if saved {
        SnapshotOut { saved: true, diff: None }
    } else if equal {
        SnapshotOut { saved: false, diff: None }
    } else {
        SnapshotOut { saved: false, diff: Some(diff) }
    }
}

/// The answer to a close.
pub fn close_out(exited_cleanly: bool, signal: Option<String>) -> (r: CloseOut)
    ensures
        r.success == exited_cleanly,
        r.exit_code == 0,
        r.signal == signal,
        r.detail is None,
{
    CloseOut { success: exited_cleanly, exit_code: 0, signal, detail: None }
}

/// How many of `steps` failed.
pub open spec fn count_failed(steps: Seq<StepResult>) -> nat
    decreases steps.len(),
{
    if steps.len() == 0 {
        0
    } else {
        count_failed(steps.drop_last()) + if steps.last().passed {
            0nat
        } else {
            1nat
        }
    }
}

/// The answer to a suite run: its status, how many steps passed and failed,
/// and the failure, if any.
pub fn run_test_output(result: &SuiteResult) -> (r: RunTestOut)
    ensures
        r.status@ == (if result.passed {
            "passed"@
        } else {
            "failed"@
        }),
        r.failed == count_failed(result.steps@),
        r.passed + r.failed == result.steps@.len(),
        match result.failure {
            Some(f) => r.failures@.len() == 1 && r.failures@[0].test@ == result.suite@
                && r.failures@[0].step == f.step_index && r.failures@[0].expected@ == f.expected@
                && r.failures@[0].actual@ == f.actual@,
            None => r.failures@.len() == 0,
        },
{
    let mut failed: usize = 0;
    let mut i: usize = 0;
    while i < result.steps.len()
        invariant
            i <= result.steps@.len(),
            failed == count_failed(result.steps@.take(i as int)),
            failed <= i,
        decreases result.steps@.len() - i,
    {
        assert(result.steps@.take(i + 1).drop_last() =~= result.steps@.take(i as int));
        if !result.steps[i].passed {
            failed = failed + 1;
        }
        i = i + 1;
    }
    assert(result.steps@.take(result.steps@.len() as int) =~= result.steps@);
    let mut failures: Vec<RunFailure> = Vec::new();
    match &result.failure {
        Some(f) => {
            failures.push(
                RunFailure {
                    test: result.suite.clone(),
                    step: f.step_index,
                    expected: f.expected.clone(),
                    actual: f.actual.clone(),
                },
            );
        },
        None => {},
    }
    let status = if result.passed {
        "passed".to_owned()
    } else {
        "failed".to_owned()
    };
    RunTestOut { status, passed: result.steps.len() - failed, failed, failures }
}

} // verus!
