//! Pure protocol helpers.

use vstd::prelude::*;

use crate::protocol::constants::SCHEMA_ID;
use crate::text::str_eq;

verus! {

/// Whether a test file declares a schema this engine supports.
pub fn is_supported_schema(id: &str) -> (r: bool)
    ensures
        r == (id@ == SCHEMA_ID@),
{
    str_eq(id, SCHEMA_ID)
}

} // verus!
