//! Errors raised by session orchestration; binaries map them to exit codes.

use vstd::prelude::*;

use crate::text::push_str;

verus! {

/// Errors raised by session orchestration.
#[derive(Debug)]
pub enum CoreError {
    /// The child could not be spawned (the CLI exits 3).
    Launch(String),
    /// PTY I/O failed mid-run: read, write, resize, wait (the CLI exits 3).
    Pty(String),
    /// A bounded operation (e.g. graceful close) timed out (the CLI exits 4).
    Timeout(String),
    /// Free-form failure with session/step context attached upstream.
    Message(String),
}

/// The human rendering of an orchestration error.
pub open spec fn core_error_text(e: CoreError) -> Seq<char> {
    match e {
        CoreError::Launch(m) => "launch failed: "@ + m@,
        CoreError::Pty(m) => "pty failed: "@ + m@,
        CoreError::Timeout(m) => "timed out: "@ + m@,
        CoreError::Message(m) => m@,
    }
}

impl CoreError {
    /// Human-readable message.
    pub fn to_string(&self) -> (s: String)
        ensures
            s@ == core_error_text(*self),
    {
        let mut s = String::new();
        match self {
            CoreError::Launch(m) => {
                push_str(&mut s, "launch failed: ");
                push_str(&mut s, m.as_str());
            },
            CoreError::Pty(m) => {
                push_str(&mut s, "pty failed: ");
                push_str(&mut s, m.as_str());
            },
            CoreError::Timeout(m) => {
                push_str(&mut s, "timed out: ");
                push_str(&mut s, m.as_str());
            },
            CoreError::Message(m) => {
                push_str(&mut s, m.as_str());
            },
        }
        s
    }
}

} // verus!
