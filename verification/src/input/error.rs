//! Errors raised by input encoding.

use vstd::prelude::*;

use crate::text::push_str;

verus! {

/// Errors raised by input encoding.
#[derive(Debug)]
pub enum InputError {
    /// Called before the feature implementing it exists.
    NotImplemented(&'static str),
    /// The key name matched nothing (the name is carried for failure bundles).
    UnknownKey(String),
    /// Free-form failure with input context.
    Message(String),
}

/// The human rendering of an input error.
pub open spec fn input_error_text(e: InputError) -> Seq<char> {
    match e {
        InputError::NotImplemented(what) => "not implemented: "@ + what@,
        InputError::UnknownKey(name) => "unknown key: "@ + name@,
        InputError::Message(msg) => msg@,
    }
}

impl InputError {
    /// Human-readable message (`unknown key: …`).
    pub fn to_string(&self) -> (s: String)
        ensures
            s@ == input_error_text(*self),
    {
        let mut s = String::new();
        match self {
            InputError::NotImplemented(what) => {
                push_str(&mut s, "not implemented: ");
                push_str(&mut s, what);
            },
            InputError::UnknownKey(name) => {
                push_str(&mut s, "unknown key: ");
                push_str(&mut s, name.as_str());
            },
            InputError::Message(msg) => {
                push_str(&mut s, msg.as_str());
            },
        }
        s
    }
}

} // verus!
