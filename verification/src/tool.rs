//! What all tools share: how dangerous they are, how they fail, and how their
//! arguments are described.

use vstd::prelude::*;
use crate::json::{object2, object3, Json, JsonMap, JsonView};
use crate::message::ToolSpec;
use crate::sampling::{text_array, text_array_json};
use crate::text::texts;

verus! {

/// How much harm a tool can do.
#[derive(Clone, Copy, Debug, PartialEq, Eq, Structural)]
pub enum ToolRisk {
    ReadOnly,
    FileWrite,
    Dangerous,
}

/// A tool with its risk.
#[derive(Debug)]
pub struct RatedTool {
    pub spec: ToolSpec,
    pub risk: ToolRisk,
}

/// Why a tool call failed.
#[derive(Debug, PartialEq, Eq)]
pub enum ToolError {
    /// The arguments were not what the tool takes.
    InvalidArgs(String),
    /// The tool could not do its work.
    Execution(String),
}

/// The model of a failure.
pub ghost enum ToolErrorView {
    InvalidArgs(Seq<char>),
    Execution(Seq<char>),
}

impl View for ToolError {
    type V = ToolErrorView;

    open spec fn view(&self) -> ToolErrorView {
        match self {
            ToolError::InvalidArgs(m) => ToolErrorView::InvalidArgs(m@),
            ToolError::Execution(m) => ToolErrorView::Execution(m@),
        }
    }
}

impl ToolError {
    /// What went wrong.
    pub fn message(&self) -> (r: &str)
        ensures
            self@ == ToolErrorView::InvalidArgs(r@) || self@ == ToolErrorView::Execution(r@),
    {
        match self {
            ToolError::InvalidArgs(m) => m.as_str(),
            ToolError::Execution(m) => m.as_str(),
        }
    }
}

/// The schema of an argument of a simple type.
pub open spec fn simple_schema(kind: Seq<char>, description: Seq<char>) -> JsonView {
    object2("type"@, JsonView::Str(kind), "description"@, JsonView::Str(description))
}

/// The schema of an argument that is a list of texts.
pub open spec fn list_schema(description: Seq<char>) -> JsonView {
    object3(
        "type"@,
        JsonView::Str("array"@),
        "items"@,
        crate::json::object1("type"@, JsonView::Str("string"@)),
        "description"@,
        JsonView::Str(description),
    )
}

/// The schema of the arguments of a tool.
pub open spec fn args_schema(
    properties: Map<Seq<char>, JsonView>,
    required: Seq<Seq<char>>,
) -> JsonView {
    object3(
        "type"@,
        JsonView::Str("object"@),
        "properties"@,
        JsonView::Object(properties),
        "required"@,
        text_array(required),
    )
}

/// The schema of an argument of a simple type.
pub fn simple_schema_json(kind: &str, description: &str) -> (r: Json)
    ensures
        r@ == simple_schema(kind@, description@),
{
    Json::Object(
        JsonMap::new().with("type", Json::text(kind)).with("description", Json::text(description)),
    )
}

/// The schema of an argument that is a list of texts.
pub fn list_schema_json(description: &str) -> (r: Json)
    ensures
        r@ == list_schema(description@),
{
    let items = Json::Object(JsonMap::new().with("type", Json::text("string")));
    Json::Object(
        JsonMap::new().with("type", Json::text("array")).with("items", items).with(
            "description",
            Json::text(description),
        ),
    )
}

/// The schema of the arguments of a tool with one required argument.
pub fn args_schema_json(properties: JsonMap, required: &str) -> (r: Json)
    ensures
        r@ == args_schema(properties@, seq![required@]),
{
    let names: Vec<String> = vec![required.to_owned()];
    assert(texts(names@) =~= seq![required@]);
    Json::Object(
        JsonMap::new().with("type", Json::text("object")).with(
            "properties",
            Json::Object(properties),
        ).with("required", text_array_json(&names)),
    )
}

} // verus!
