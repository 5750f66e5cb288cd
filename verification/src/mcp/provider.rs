//! The tools of one server as they are offered to a model: which of them,
//! under which names, and what comes of calling them.

use vstd::prelude::*;
use crate::json::{no_members, Json, JsonMap, JsonView};
use crate::message::{ToolSpec, ToolSpecView};
use crate::mcp::{McpError, ToolFilter};
use crate::text::{join, join2, joined, opt_text, texts};
use crate::tool::{ToolError, ToolErrorView};

verus! {

/// A tool as a server lists it.
#[derive(Debug)]
pub struct ServedTool {
    pub name: String,
    pub description: Option<String>,
    pub input_schema: JsonMap,
}

/// The model of a listed tool.
pub ghost struct ServedToolView {
    pub name: Seq<char>,
    pub description: Option<Seq<char>>,
    pub input_schema: Map<Seq<char>, JsonView>,
}

impl View for ServedTool {
    type V = ServedToolView;

    open spec fn view(&self) -> ServedToolView {
        ServedToolView {
            name: self.name@,
            description: opt_text(self.description),
            input_schema: self.input_schema@,
        }
    }
}

/// The models of listed tools.
pub open spec fn served_views(s: Seq<ServedTool>) -> Seq<ServedToolView> {
    s.map_values(|t: ServedTool| t@)
}

/// A tool as it is offered: its description, and the name by which the server
/// is asked for it.
#[derive(Debug)]
pub struct ExposedTool {
    pub spec: ToolSpec,
    pub tool_name: String,
}

/// The model of an offered tool.
pub ghost struct ExposedToolView {
    pub spec: ToolSpecView,
    pub tool_name: Seq<char>,
}

impl View for ExposedTool {
    type V = ExposedToolView;

    open spec fn view(&self) -> ExposedToolView {
        ExposedToolView { spec: self.spec@, tool_name: self.tool_name@ }
    }
}

/// The models of offered tools.
pub open spec fn exposed_views(s: Seq<ExposedTool>) -> Seq<ExposedToolView> {
    s.map_values(|t: ExposedTool| t@)
}

/// The name under which a tool of a server is offered.
pub open spec fn namespaced(server: Seq<char>, tool: Seq<char>) -> Seq<char> {
    server + "__"@ + tool
}

/// How a listed tool is offered.
pub open spec fn exposed_tool(server: Seq<char>, t: ServedToolView) -> ExposedToolView {
    ExposedToolView {
        spec: ToolSpecView {
            name: namespaced(server, t.name),
            description: match t.description {
                Some(d) => d,
                None => Seq::empty(),
            },
            parameters_schema: JsonView::Object(t.input_schema),
        },
        tool_name: t.name,
    }
}

/// The tools that pass the filter, in the order of the listing.
pub open spec fn exposed_tools(
    server: Seq<char>,
    tools: Seq<ServedToolView>,
    filter: ToolFilter,
) -> Seq<ExposedToolView>
    decreases tools.len(),
{
    if tools.len() == 0 {
        Seq::empty()
    } else {
        let front = exposed_tools(server, tools.drop_last(), filter);
        if filter.passes(tools.last().name) {
            front.push(exposed_tool(server, tools.last()))
        } else {
            front
        }
    }
}

/// The name under which a tool of a server is offered.
pub fn namespaced_name(server: &str, tool: &str) -> (r: String)
    ensures
        r@ == namespaced(server@, tool@),
{
    let mut out = server.to_owned();
    out.append("__");
    out.append(tool);
    out
}

/// The tools of a server that are offered.
pub fn expose_tools(server: &str, tools: Vec<ServedTool>, filter: &ToolFilter) -> (r: Vec<
    ExposedTool,
>)
    ensures
        exposed_views(r@) == exposed_tools(server@, served_views(tools@), *filter),
{
    let ghost ts = served_views(tools@);
    let n: usize = tools.len();
    let mut rest = tools;
    let mut out: Vec<ExposedTool> = Vec::new();
    let mut i: usize = 0;
    assert(exposed_views(out@) =~= exposed_tools(server@, ts.take(0), *filter));
    while i < n
        invariant
            i <= n,
            n == tools@.len(),
            ts == served_views(tools@),
            rest@ == tools@.skip(i as int),
            exposed_views(out@) == exposed_tools(server@, ts.take(i as int), *filter),
        decreases n - i,
    {
        let ghost next = ts.take(i + 1);
        let ghost before = exposed_views(out@);
        assert(next.drop_last() =~= ts.take(i as int));
        let tool = rest.remove(0);
        assert(tool == tools@[i as int]);
        assert(next.last() == tool@);
        let ghost view = tool@;
        if filter.allows(tool.name.as_str()) {
            let name = namespaced_name(server, tool.name.as_str());
            let description = match tool.description {
                Some(d) => d,
                None => String::new(),
            };
            let spec = ToolSpec {
                name,
                description,
                parameters_schema: Json::Object(tool.input_schema),
            };
            let exposed = ExposedTool { spec, tool_name: tool.name };
            assert(exposed@.spec.description =~= exposed_tool(server@, view).spec.description);
            assert(exposed@ == exposed_tool(server@, view));
            out.push(exposed);
            assert(exposed_views(out@) =~= before.push(exposed@));
        }
        i = i + 1;
        assert(rest@ =~= tools@.skip(i as int));
    }
    assert(ts.take(i as int) =~= ts);
    out
}

/// The arguments of a call: those of an object, and none for anything else.
pub open spec fn arguments_of(args: JsonView) -> Map<Seq<char>, JsonView> {
    match args {
        JsonView::Object(m) => m,
        _ => no_members(),
    }
}

/// The arguments of a call.
pub fn call_arguments(args: Json) -> (r: JsonMap)
    ensures
        r@ == arguments_of(args@),
{
    match args {
        Json::Object(m) => m,
        _ => JsonMap::new(),
    }
}

/// One block of a tool's answer.
#[derive(Debug)]
pub enum ToolContent {
    Text(String),
    /// An image, a sound or a resource.
    Other,
}

/// The texts among the blocks of an answer.
pub open spec fn text_blocks(content: Seq<ToolContent>) -> Seq<Seq<char>>
    decreases content.len(),
{
    if content.len() == 0 {
        Seq::empty()
    } else {
        let front = text_blocks(content.drop_last());
        match content.last() {
            ToolContent::Text(t) => front.push(t@),
            ToolContent::Other => front,
        }
    }
}

/// The text of an answer: its text blocks, one to a line. An answer that the
/// server marks as an error is a failed call.
pub fn tool_output(content: Vec<ToolContent>, is_error: Option<bool>) -> (r: Result<
    String,
    McpError,
>)
    ensures
        match r {
            Ok(text) => is_error != Some(true) && text@ == joined(text_blocks(content@), "\n"@),
            Err(e) => is_error == Some(true) && (e matches McpError::ToolCall(m) && m@ == joined(
                text_blocks(content@),
                "\n"@,
            )),
        },
{
    let n: usize = content.len();
    let mut rest = content;
    let mut blocks: Vec<String> = Vec::new();
    let mut i: usize = 0;
    assert(texts(blocks@) =~= text_blocks(content@.take(0)));
    while i < n
        invariant
            i <= n,
            n == content@.len(),
            rest@ == content@.skip(i as int),
            texts(blocks@) == text_blocks(content@.take(i as int)),
        decreases n - i,
    {
        let ghost next = content@.take(i + 1);
        let ghost before = texts(blocks@);
        assert(next.drop_last() =~= content@.take(i as int));
        let block = rest.remove(0);
        assert(next.last() == block);
        match block {
            ToolContent::Text(t) => {
                blocks.push(t);
                assert(texts(blocks@) =~= before.push(t@));
            },
            ToolContent::Other => {},
        }
        i = i + 1;
        assert(rest@ =~= content@.skip(i as int));
    }
    assert(content@.take(i as int) =~= content@);
    let text = join(&blocks, "\n");
    match is_error {
        Some(true) => Err(McpError::ToolCall(text)),
        _ => Ok(text),
    }
}

/// What a failed call is to the caller of the tool.
pub fn call_failure(e: &McpError) -> (r: ToolError)
    ensures
        r@ == ToolErrorView::Execution(e.message()),
{
    ToolError::Execution(e.to_message())
}

/// The failure to start a server's process.
pub fn launch_failure(command: &str, reason: &str) -> (r: McpError)
    ensures
        r matches McpError::Transport(m) && m@ == "failed to launch '"@ + command@ + "': "@
            + reason@,
{
    let mut out = join2("failed to launch '", command);
    out.append("': ");
    out.append(reason);
    McpError::Transport(out)
}

/// The failure to open a session over stdio.
pub fn stdio_failure(reason: &str) -> (r: McpError)
    ensures
        r matches McpError::Transport(m) && m@ == "stdio handshake failed: "@ + reason@,
{
    McpError::Transport(join2("stdio handshake failed: ", reason))
}

/// The failure to open a session over HTTP.
pub fn http_failure(url: &str, reason: &str) -> (r: McpError)
    ensures
        r matches McpError::Transport(m) && m@ == "HTTP handshake failed for "@ + url@ + ": "@
            + reason@,
{
    let mut out = join2("HTTP handshake failed for ", url);
    out.append(": ");
    out.append(reason);
    McpError::Transport(out)
}

/// The failure of a configured header whose name is none.
pub fn invalid_header_name(key: &str, reason: &str) -> (r: McpError)
    ensures
        r matches McpError::Config(m) && m@ == "invalid header name '"@ + key@ + "': "@ + reason@,
{
    let mut out = join2("invalid header name '", key);
    out.append("': ");
    out.append(reason);
    McpError::Config(out)
}

/// The failure of a configured header whose value is none.
pub fn invalid_header_value(key: &str, reason: &str) -> (r: McpError)
    ensures
        r matches McpError::Config(m) && m@ == "invalid header value for '"@ + key@ + "': "@
            + reason@,
{
    let mut out = join2("invalid header value for '", key);
    out.append("': ");
    out.append(reason);
    McpError::Config(out)
}

/// Two tools of one server never get the same name.
pub proof fn law_names_of_one_server_differ(server: Seq<char>, a: Seq<char>, b: Seq<char>)
    requires
        namespaced(server, a) == namespaced(server, b),
    ensures
        a == b,
{
    let head = server + "__"@;
    assert(namespaced(server, a).skip(head.len() as int) =~= a);
    assert(namespaced(server, b).skip(head.len() as int) =~= b);
}

/// Two tools of two servers never get the same name, unless the name of one
/// server with the separator behind it begins like that of the other.
pub proof fn law_names_of_servers_differ(s1: Seq<char>, t1: Seq<char>, s2: Seq<char>, t2: Seq<char>)
    requires
        !(s1 + "__"@).is_prefix_of(s2 + "__"@),
        !(s2 + "__"@).is_prefix_of(s1 + "__"@),
    ensures
        namespaced(s1, t1) != namespaced(s2, t2),
{
    let h1 = s1 + "__"@;
    let h2 = s2 + "__"@;
    if namespaced(s1, t1) == namespaced(s2, t2) {
        let n = namespaced(s1, t1);
        assert(n.take(h1.len() as int) =~= h1);
        assert(n.take(h2.len() as int) =~= h2);
        if h1.len() <= h2.len() {
            assert(h2.take(h1.len() as int) =~= h1);
            assert(h1.is_prefix_of(h2));
        } else {
            assert(h1.take(h2.len() as int) =~= h2);
            assert(h2.is_prefix_of(h1));
        }
    }
}

/// Tools of two servers whose names differ and hold no underscore never get
/// the same name.
pub proof fn law_names_of_plain_servers_differ(
    s1: Seq<char>,
    t1: Seq<char>,
    s2: Seq<char>,
    t2: Seq<char>,
)
    requires
        s1 != s2,
        !s1.contains('_'),
        !s2.contains('_'),
    ensures
        namespaced(s1, t1) != namespaced(s2, t2),
{
    lemma_plain_heads(s1, s2);
    lemma_plain_heads(s2, s1);
    law_names_of_servers_differ(s1, t1, s2, t2);
}

proof fn lemma_plain_heads(s1: Seq<char>, s2: Seq<char>)
    requires
        s1 != s2,
        !s2.contains('_'),
    ensures
        !(s1 + "__"@).is_prefix_of(s2 + "__"@),
{
    reveal_strlit("__");
    let h1 = s1 + "__"@;
    let h2 = s2 + "__"@;
    if h1.is_prefix_of(h2) {
        if s1.len() < s2.len() {
            assert(h1[s1.len() as int] == '_');
            assert(h2[s1.len() as int] == s2[s1.len() as int]);
            assert(s2.contains(s2[s1.len() as int]));
        } else {
            assert(s1 =~= s2) by {
                assert forall|i: int| 0 <= i < s1.len() implies s1[i] == s2[i] by {
                    assert(h1[i] == s1[i]);
                    assert(h2[i] == s2[i]);
                }
            }
        }
    }
}

/// A tool is offered exactly where the server lists it and the filter lets it
/// pass.
pub proof fn law_offered_tools_pass_the_filter(
    server: Seq<char>,
    tools: Seq<ServedToolView>,
    filter: ToolFilter,
    e: ExposedToolView,
)
    ensures
        exposed_tools(server, tools, filter).contains(e) <==> exists|i: int|
            0 <= i < tools.len() && filter.passes(#[trigger] tools[i].name) && e == exposed_tool(
                server,
                tools[i],
            ),
    decreases tools.len(),
{
    if tools.len() > 0 {
        let rest = tools.drop_last();
        let last = tools.last();
        let front = exposed_tools(server, rest, filter);
        law_offered_tools_pass_the_filter(server, rest, filter, e);
        assert(front.push(exposed_tool(server, last)).contains(e) <==> front.contains(e) || e
            == exposed_tool(server, last)) by {
            let pushed = front.push(exposed_tool(server, last));
            if front.contains(e) {
                let k = choose|k: int| 0 <= k < front.len() && front[k] == e;
                assert(pushed[k] == e);
            }
            assert(pushed[front.len() as int] == exposed_tool(server, last));
        }
        if exists|i: int|
            0 <= i < rest.len() && filter.passes(#[trigger] rest[i].name) && e == exposed_tool(
                server,
                rest[i],
            ) {
            let i = choose|i: int|
                0 <= i < rest.len() && filter.passes(#[trigger] rest[i].name) && e == exposed_tool(
                    server,
                    rest[i],
                );
            assert(tools[i].name == rest[i].name);
        }
        if exists|i: int|
            0 <= i < tools.len() && filter.passes(#[trigger] tools[i].name) && e == exposed_tool(
                server,
                tools[i],
            ) {
            let i = choose|i: int|
                0 <= i < tools.len() && filter.passes(#[trigger] tools[i].name) && e
                    == exposed_tool(server, tools[i]);
            if i < rest.len() {
                assert(rest[i].name == tools[i].name);
            }
        }
        assert(tools[tools.len() - 1].name == last.name);
    }
}

} // verus!
