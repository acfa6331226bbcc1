//! Errors raised while evaluating assertions.

use vstd::prelude::*;

verus! {

/// Errors raised while evaluating assertions.
#[derive(Debug)]
pub enum AssertionError {
    /// Free-form failure with condition context attached upstream.
    Message(String),
}

impl AssertionError {
    /// Human-readable message: the carried text.
    pub fn to_string(&self) -> (s: String)
        ensures
            match self {
                AssertionError::Message(m) => s@ == m@,
            },
    {
        match self {
            AssertionError::Message(m) => m.clone(),
        }
    }
}

} // verus!
