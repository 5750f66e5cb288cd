//! The thinking mode of OpenAI-compatible providers.

use vstd::prelude::*;

verus! {

/// Whether reasoning is generated for a turn, and whether the reasoning of
/// earlier turns is kept.
#[derive(Clone, Copy, Debug, PartialEq, Eq, Structural)]
pub struct ThinkingMode {
    /// Generate reasoning for this turn.
    pub enabled: bool,
    /// Keep the reasoning of earlier turns.
    pub preserve_history: bool,
}

impl ThinkingMode {
    /// Generate reasoning, keep none of earlier turns.
    pub fn enabled() -> (r: ThinkingMode)
        ensures
            r == (ThinkingMode { enabled: true, preserve_history: false }),
    {
        ThinkingMode { enabled: true, preserve_history: false }
    }

    /// Generate no reasoning.
    pub fn disabled() -> (r: ThinkingMode)
        ensures
            r == (ThinkingMode { enabled: false, preserve_history: false }),
    {
        ThinkingMode { enabled: false, preserve_history: false }
    }

    /// Generate reasoning and keep that of earlier turns.
    pub fn preserved() -> (r: ThinkingMode)
        ensures
            r == (ThinkingMode { enabled: true, preserve_history: true }),
    {
        ThinkingMode { enabled: true, preserve_history: true }
    }
}

} // verus!
