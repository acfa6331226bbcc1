//! CLI helpers.

use vstd::prelude::*;

use crate::cli::constants::{EXIT_CONFIG_ERROR, EXIT_OK, EXIT_PTY_ERROR, EXIT_TESTS_FAILED, EXIT_TIMEOUT};

verus! {

/// The meaning of a CLI exit code.
pub open spec fn exit_meaning(code: i32) -> Seq<char> {
    if code == EXIT_OK {
        "ok: all tests passed"@
    } else if code == EXIT_TESTS_FAILED {
        "fail: at least one test failed"@
    } else if code == EXIT_CONFIG_ERROR {
        "error: config or schema problem"@
    } else if code == EXIT_PTY_ERROR {
        "error: app launch or PTY failure"@
    } else if code == EXIT_TIMEOUT {
        "error: timeout, hung process killed"@
    } else {
        "error: unknown exit code"@
    }
}

/// Human-readable meaning of a CLI exit code.
pub fn exit_message(code: i32) -> (r: &'static str)
    ensures
        r@ == exit_meaning(code),
{
    if code == EXIT_OK {
        "ok: all tests passed"
    } else if code == EXIT_TESTS_FAILED {
        "fail: at least one test failed"
    } else if code == EXIT_CONFIG_ERROR {
        "error: config or schema problem"
    } else if code == EXIT_PTY_ERROR {
        "error: app launch or PTY failure"
    } else if code == EXIT_TIMEOUT {
        "error: timeout, hung process killed"
    } else {
        "error: unknown exit code"
    }
}

} // verus!
