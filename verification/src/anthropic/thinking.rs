//! Thinking configuration of Anthropic's models.

use vstd::prelude::*;

verus! {

/// How a model thinks.
#[derive(Clone, Copy, Debug, PartialEq, Eq, Structural)]
pub enum ThinkingConfig {
    /// With a budget of tokens.
    Enabled { budget_tokens: usize },
    /// As far as the model sees fit.
    Adaptive,
}

impl ThinkingConfig {
    /// Thinking with a budget.
    pub fn enabled(budget_tokens: usize) -> (r: ThinkingConfig)
        ensures
            r == (ThinkingConfig::Enabled { budget_tokens }),
    {
        ThinkingConfig::Enabled { budget_tokens }
    }

    /// Thinking as far as the model sees fit.
    pub fn adaptive() -> (r: ThinkingConfig)
        ensures
            r == ThinkingConfig::Adaptive,
    {
        ThinkingConfig::Adaptive
    }
}

} // verus!
