//! Verified core of a black-box terminal-application test engine: key and
//! mouse encoding, key decoding, assertion evaluation, the portable test
//! protocol, session bookkeeping and the recorder's synthesis rules.

pub mod text;
pub mod utf8;
pub mod input;
pub mod json;
pub mod pattern;
pub mod assertions;
pub mod protocol;
pub mod engine;
pub mod mcp;
pub mod cli;
