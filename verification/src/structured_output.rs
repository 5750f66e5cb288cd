//! Structured output: a JSON schema that the model's answer has to match.

use vstd::prelude::*;
use crate::json::Json;

verus! {

/// A request to constrain the model's output to JSON that matches a schema.
#[derive(Debug)]
pub struct StructuredOutput {
    /// The schema, in the subset of JSON Schema that the provider accepts.
    pub schema: Json,
    /// The name of the schema, for providers that want one.
    pub name: Option<String>,
    /// Whether strict adherence is asked for, where it is supported.
    pub strict: bool,
}

impl StructuredOutput {
    /// The name of the schema, or `response` where none is given.
    pub open spec fn shown_name(&self) -> Seq<char> {
        match self.name {
            Some(n) => n@,
            None => "response"@,
        }
    }

    /// A strict request without a name.
    pub fn new(schema: Json) -> (r: StructuredOutput)
        ensures
            r.schema == schema,
            r.name is None,
            r.strict,
    {
        StructuredOutput { schema, name: None, strict: true }
    }

    /// The name of the schema, or `response` where none is given.
    pub fn name_or_default(&self) -> (r: &str)
        ensures
            r@ == self.shown_name(),
    {
        match &self.name {
            Some(n) => n.as_str(),
            None => "response",
        }
    }
}

} // verus!
