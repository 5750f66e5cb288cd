//! Reasoning control that is common to all providers.

use vstd::prelude::*;

verus! {

/// How a model's reasoning is controlled for a request. Each provider maps
/// it to its own encoding.
#[derive(Debug, PartialEq, Eq)]
pub enum ReasoningConfig {
    /// Turns reasoning on or off.
    Toggle(bool),
    /// A discrete level such as `"low"`, `"medium"`, `"high"` or `"none"`.
    Effort(String),
    /// A thinking-token budget.
    Budget(u32),
}

} // verus!
