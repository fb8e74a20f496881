//! Turn engine and model plumbing of a FamilyClaw agent.
use vstd::prelude::*;

pub mod channel_bridge;
pub mod completion;
pub mod continuity;
pub mod encode;
pub mod error;
pub mod grounding;
pub mod history;
pub mod identity;
pub mod import_bundle;
pub mod import_cli;
pub mod import_plan;
pub mod json;
pub mod live_executor;
pub mod llm;
pub mod message;
pub mod operator_tasks;
pub mod progress;
pub mod resume;
pub mod stream;
pub mod text;
pub mod think;
pub mod tool_loop;
pub mod turn;
pub mod weight;
pub mod wire;

verus! {

/// Version of this crate.
pub const VERSION: &'static str = "0.1.0";

/// Returns the crate version.
pub fn version() -> (r: &'static str)
    ensures
        r@ == VERSION@,
{
    VERSION
}

} // verus!
