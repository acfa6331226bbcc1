//! Assertions over terminal state: the condition taxonomy, its JSON form,
//! and evaluation against plain screen views.

pub mod constants;
pub mod error;
pub mod utils;
pub mod conditions;
