//! Errors raised while parsing or validating protocol payloads.

use vstd::prelude::*;

use crate::text::push_str;

verus! {

/// Errors raised while parsing or validating protocol payloads.
#[derive(Debug)]
pub enum ProtocolError {
    /// Malformed JSON/YAML or shape mismatch.
    Schema(String),
    /// Unsupported `schema:` id (a breaking change means a new version).
    Version(String),
    /// Free-form failure with payload context attached upstream.
    Message(String),
}

/// The human rendering of a protocol error.
pub open spec fn protocol_error_text(e: ProtocolError) -> Seq<char> {
    match e {
        ProtocolError::Schema(m) => "protocol schema error: "@ + m@,
        ProtocolError::Version(id) => "unsupported schema version: "@ + id@,
        ProtocolError::Message(m) => m@,
    }
}

impl ProtocolError {
    /// Human-readable message.
    pub fn to_string(&self) -> (s: String)
        ensures
            s@ == protocol_error_text(*self),
    {
        let mut s = String::new();
        match self {
            ProtocolError::Schema(m) => {
                push_str(&mut s, "protocol schema error: ");
                push_str(&mut s, m.as_str());
            },
            ProtocolError::Version(id) => {
                push_str(&mut s, "unsupported schema version: ");
                push_str(&mut s, id.as_str());
            },
            ProtocolError::Message(m) => {
                push_str(&mut s, m.as_str());
            },
        }
        s
    }
}

} // verus!
