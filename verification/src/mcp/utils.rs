//! MCP helpers.

use vstd::prelude::*;
use crate::engine::utils::session_id_text;

verus! {

/// Format a session id from a counter: `sess_` and the counter, zero-padded
/// to three digits.
pub fn session_id(counter: u64) -> (r: String)
    ensures
        r@ == session_id_text(counter as nat),
{
    crate::engine::utils::session_id(counter)
}

} // verus!
