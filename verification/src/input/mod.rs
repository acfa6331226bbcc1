//! Keyboard and mouse input: key names and SGR mouse gestures to terminal
//! bytes, and terminal bytes back to key events.

pub mod error;
pub mod mouse;
pub mod utils;
pub mod encoding;
pub mod decode;
