//! A small server with two tools, which stands in for a real one where a
//! client is tried out.

use vstd::prelude::*;
use crate::json::{json_as_i64, no_members, object1, Json, JsonMap, JsonView};
use crate::mcp::provider::{served_views, ServedTool, ServedToolView};
use crate::sampling::{text_array, text_array_json};
use crate::text::{join2, signed_decimal, text_eq, texts, to_signed_decimal};

verus! {

/// The schema of a member of a simple type.
pub open spec fn of_type(kind: Seq<char>) -> JsonView {
    object1("type"@, JsonView::Str(kind))
}

/// The schema of the arguments of a tool, all of which are required.
pub open spec fn input_schema(
    properties: Map<Seq<char>, JsonView>,
    required: Seq<Seq<char>>,
) -> Map<Seq<char>, JsonView> {
    no_members().insert("type"@, JsonView::Str("object"@)).insert(
        "properties"@,
        JsonView::Object(properties),
    ).insert("required"@, text_array(required))
}

/// The tool that gives its text back.
pub open spec fn echo_tool() -> ServedToolView {
    ServedToolView {
        name: "echo"@,
        description: Some("Echo back the provided text."@),
        input_schema: input_schema(
            no_members().insert("text"@, of_type("string"@)),
            seq!["text"@],
        ),
    }
}

/// The tool that adds two integers.
pub open spec fn add_tool() -> ServedToolView {
    ServedToolView {
        name: "add"@,
        description: Some("Add two integers."@),
        input_schema: input_schema(
            no_members().insert("a"@, of_type("integer"@)).insert("b"@, of_type("integer"@)),
            seq!["a"@, "b"@],
        ),
    }
}

fn type_schema(kind: &str) -> (r: Json)
    ensures
        r@ == of_type(kind@),
{
    Json::Object(JsonMap::new().with("type", Json::text(kind)))
}

fn schema_of(properties: JsonMap, required: &Vec<String>) -> (r: JsonMap)
    ensures
        r@ == input_schema(properties@, texts(required@)),
{
    JsonMap::new().with("type", Json::text("object")).with(
        "properties",
        Json::Object(properties),
    ).with("required", text_array_json(required))
}

/// The tools of the server.
pub fn mock_tools() -> (r: Vec<ServedTool>)
    ensures
        served_views(r@) == seq![echo_tool(), add_tool()],
{
    let text_only: Vec<String> = vec!["text".to_owned()];
    assert(texts(text_only@) =~= seq!["text"@]);
    let echo = ServedTool {
        name: "echo".to_owned(),
        description: Some("Echo back the provided text.".to_owned()),
        input_schema: schema_of(
            JsonMap::new().with("text", type_schema("string")),
            &text_only,
        ),
    };
    let both: Vec<String> = vec!["a".to_owned(), "b".to_owned()];
    assert(texts(both@) =~= seq!["a"@, "b"@]);
    let sum = ServedTool {
        name: "add".to_owned(),
        description: Some("Add two integers.".to_owned()),
        input_schema: schema_of(
            JsonMap::new().with("a", type_schema("integer")).with("b", type_schema("integer")),
            &both,
        ),
    };
    let tools = vec![echo, sum];
    assert(served_views(tools@) =~= seq![echo_tool(), add_tool()]);
    tools
}

/// What a call for one of the tools of the server asks for.
#[derive(Debug)]
pub enum MockCall {
    /// The answer is this text.
    Echo(String),
    /// The answer is the sum of these integers.
    Sum(i64, i64),
    /// There is no such tool, as the message says.
    Unknown(String),
}

/// The member of a call's arguments that is a text, or else the empty text.
pub open spec fn text_argument(args: Map<Seq<char>, JsonView>, key: Seq<char>) -> Seq<char> {
    match args[key] {
        JsonView::Str(s) => if args.dom().contains(key) {
            s
        } else {
            Seq::empty()
        },
        _ => Seq::empty(),
    }
}

/// The member of a call's arguments that is an integer, or else zero.
pub open spec fn integer_argument(args: Map<Seq<char>, JsonView>, key: Seq<char>) -> i64 {
    if args.dom().contains(key) {
        match json_as_i64(args[key]) {
            Some(n) => n,
            None => 0,
        }
    } else {
        0
    }
}

fn integer_member(args: &JsonMap, key: &str) -> (r: i64)
    ensures
        r == integer_argument(args@, key@),
{
    match args.get(key) {
        Some(v) => match v.as_i64() {
            Some(n) => n,
            None => 0,
        },
        None => 0,
    }
}

/// What a call for a tool of the server asks for: `echo` gives its
/// text back, and `add` adds two integers.
pub fn mock_call(name: &str, args: &JsonMap) -> (r: MockCall)
    ensures
        match r {
            MockCall::Echo(t) => name@ == "echo"@ && t@ == text_argument(args@, "text"@),
            MockCall::Sum(a, b) => name@ == "add"@ && name@ != "echo"@ && a == integer_argument(
                args@,
                "a"@,
            ) && b == integer_argument(args@, "b"@),
            MockCall::Unknown(m) => name@ != "echo"@ && name@ != "add"@ && m@
                == "unknown tool: "@ + name@,
        },
{
    if text_eq(name, "echo") {
        let text = match args.get("text") {
            Some(v) => match v.as_str() {
                Some(s) => s.to_owned(),
                None => String::new(),
            },
            None => String::new(),
        };
        assert(text@ =~= text_argument(args@, "text"@));
        MockCall::Echo(text)
    } else if text_eq(name, "add") {
        MockCall::Sum(integer_member(args, "a"), integer_member(args, "b"))
    } else {
        MockCall::Unknown(join2("unknown tool: ", name))
    }
}

/// The answer to a call that adds two integers.
pub fn sum_answer(a: i64, b: i64) -> (r: String)
    requires
        i64::MIN <= a + b <= i64::MAX,
    ensures
        r@ == signed_decimal(a + b),
{
    to_signed_decimal(a + b)
}

} // verus!
