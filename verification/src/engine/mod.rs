//! Test orchestration: session bookkeeping, per-run context, the run
//! record, and the decisions of the suite runner.

pub mod constants;
pub mod utils;
pub mod error;
pub mod clock;
pub mod context;
pub mod result;
pub mod sessions;
pub mod parallel;
pub mod runner;
