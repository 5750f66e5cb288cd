//! Tool-choice control that is common to all providers.

use vstd::prelude::*;

verus! {

/// How the model should choose among the available tools. It is sent only
/// with requests that carry tools.
#[derive(Debug, PartialEq, Eq)]
pub enum ToolChoice {
    /// The model decides whether and which tool to call.
    Auto,
    /// The model must not call a tool.
    NoTool,
    /// The model must call some tool.
    Required,
    /// The model must call the named tool.
    Tool(String),
}

} // verus!
