//! The arguments of streamed tool calls.

use vstd::prelude::*;
use crate::error::{ProviderError, ProviderErrorView};
use crate::json::{json_failure, json_of_text, no_members, Json, JsonMap, JsonView};

verus! {

/// The arguments of a tool call out of its streamed text. No text stands for
/// no arguments.
pub open spec fn call_input(partial_json: Seq<char>) -> Option<JsonView> {
    if partial_json.len() == 0 {
        Some(JsonView::Object(no_members()))
    } else {
        json_of_text(partial_json)
    }
}

/// The arguments of a tool call out of its streamed text.
pub fn parse_input(partial_json: &str) -> (r: Result<Json, ProviderError>)
    ensures
        match r {
            Ok(j) => call_input(partial_json@) == Some(j@),
            Err(e) => call_input(partial_json@) is None && e@ == ProviderErrorView::Decode(
                json_failure(partial_json@),
            ),
        },
{
    if partial_json.is_empty() {
        return Ok(Json::Object(JsonMap::new()));
    }
    match Json::parse(partial_json) {
        Ok(j) => Ok(j),
        Err(m) => Err(ProviderError::Decode(m)),
    }
}

} // verus!
