//! Laws of what is offered of a server's tools, of their answers, and of
//! placeholders in a configuration.

use vstd::prelude::*;
use crate::json::JsonView;
use crate::mcp::{listed, placeholder, resolved, resolved_server, McpServerView, ToolFilter};
use crate::mcp::provider::{
    arguments_of, exposed_tools, text_blocks, ServedToolView, ToolContent,
};
use crate::text::{find_char, lemma_find_char, texts};

verus! {

/// Whether a filter wants a tool: it is not on the block list, and it is on
/// the allow list where that is not empty.
pub open spec fn wanted(filter: ToolFilter, name: Seq<char>) -> bool {
    &&& !texts(filter.block@).contains(name)
    &&& filter.allow@.len() > 0 ==> texts(filter.allow@).contains(name)
}

proof fn lemma_listed(list: Seq<String>, name: Seq<char>)
    ensures
        listed(list, name) == texts(list).contains(name),
{
    if listed(list, name) {
        let i = choose|i: int| 0 <= i < list.len() && #[trigger] list[i]@ == name;
        assert(texts(list)[i] == name);
    }
    if texts(list).contains(name) {
        let i = choose|i: int| 0 <= i < texts(list).len() && texts(list)[i] == name;
        assert(list[i]@ == name);
    }
}

/// A tool passes a filter exactly where the filter wants it.
pub proof fn law_filter_passes_what_is_wanted(filter: ToolFilter, name: Seq<char>)
    ensures
        filter.passes(name) <==> wanted(filter, name),
{
    lemma_listed(filter.block@, name);
    lemma_listed(filter.allow@, name);
}

/// Exactly the wanted tools are offered, one for one and in the server's
/// order, each under the server's name and its own, with its description and
/// its schema; a call goes out under the tool's own name.
pub proof fn law_wanted_tools_are_offered(
    server: Seq<char>,
    tools: Seq<ServedToolView>,
    filter: ToolFilter,
)
    ensures
        ({
            let offered = exposed_tools(server, tools, filter);
            let kept = tools.filter(|t: ServedToolView| wanted(filter, t.name));
            &&& offered.len() == kept.len()
            &&& forall|i: int|
                #![trigger offered[i]]
                0 <= i < kept.len() ==> {
                    &&& offered[i].tool_name == kept[i].name
                    &&& offered[i].spec.name == server + "__"@ + kept[i].name
                    &&& offered[i].spec.description == if kept[i].description is Some {
                        kept[i].description->0
                    } else {
                        Seq::empty()
                    }
                    &&& offered[i].spec.parameters_schema == JsonView::Object(kept[i].input_schema)
                }
        }),
    decreases tools.len(),
{
    reveal(Seq::filter);
    if tools.len() > 0 {
        let f = |t: ServedToolView| wanted(filter, t.name);
        let front = tools.drop_last();
        law_wanted_tools_are_offered(server, front, filter);
        law_filter_passes_what_is_wanted(filter, tools.last().name);
        let before = exposed_tools(server, front, filter);
        let offered = exposed_tools(server, tools, filter);
        assert forall|i: int| 0 <= i < before.len() implies offered[i] == #[trigger] before[i]
            && tools.filter(f)[i] == front.filter(f)[i] by {}
    }
}

/// The texts of an answer are those of all its text blocks, in order.
pub proof fn law_answer_is_every_text_block(content: Seq<ToolContent>)
    ensures
        text_blocks(content) == content.filter_map(
            |c: ToolContent|
                match c {
                    ToolContent::Text(t) => Some(t@),
                    ToolContent::Other => None,
                },
        ),
    decreases content.len(),
{
    if content.len() > 0 {
        law_answer_is_every_text_block(content.drop_last());
    }
}

/// The arguments of a call are the members of an object, whole; anything else
/// is no argument.
pub proof fn law_arguments_are_the_members(args: JsonView)
    ensures
        args is Object ==> JsonView::Object(arguments_of(args)) == args,
        !(args is Object) ==> arguments_of(args) == Map::<Seq<char>, JsonView>::empty(),
{
}

/// A placeholder stands for the given value of its name, else for that of the
/// process, else for itself, as one without a name always does.
pub proof fn law_what_a_placeholder_stands_for(
    name: Seq<char>,
    extra: Map<Seq<char>, Seq<char>>,
    process: Map<Seq<char>, Seq<char>>,
)
    ensures
        ({
            let itself = seq!['$', '{'] + name + seq!['}'];
            let value = placeholder(name, extra, process);
            &&& name.len() == 0 ==> value == itself
            &&& name.len() > 0 && extra.dom().contains(name) ==> value == extra[name]
            &&& name.len() > 0 && !extra.dom().contains(name) && process.dom().contains(name)
                ==> value == process[name]
            &&& !extra.dom().contains(name) && !process.dom().contains(name) ==> value == itself
        }),
{
}

/// A placeholder that is never closed stays as it is, with all behind it.
pub proof fn law_unclosed_placeholder_stays(
    before: Seq<char>,
    rest: Seq<char>,
    extra: Map<Seq<char>, Seq<char>>,
    process: Map<Seq<char>, Seq<char>>,
)
    requires
        forall|i: int|
            0 <= i < before.len() - 1 && before[i] == '$' ==> #[trigger] before[i + 1] != '{',
        !rest.contains('}'),
    ensures
        resolved(before + seq!['$', '{'] + rest, extra, process) == before + seq!['$', '{'] + rest,
    decreases before.len(),
{
    let s = before + seq!['$', '{'] + rest;
    if before.len() == 0 {
        assert(s[0] == '$' && s[1] == '{');
        assert(s.skip(2) =~= rest);
        lemma_find_char(rest, '}');
        let k = find_char(rest, '}');
        if 0 <= k < rest.len() {
            assert(rest.contains(rest[k]));
        }
    } else {
        let t = before.skip(1);
        assert forall|i: int| 0 <= i < t.len() - 1 && t[i] == '$' implies #[trigger] t[i + 1]
            != '{' by {
            assert(t[i] == before[i + 1]);
            assert(t[i + 1] == before[i + 1 + 1]);
        }
        law_unclosed_placeholder_stays(t, rest, extra, process);
        assert(s.skip(1) =~= t + seq!['$', '{'] + rest);
        assert(s[0] == before[0]);
        if before.len() > 1 {
            assert(s[1] == before[0int + 1]);
        } else {
            assert(s[1] == '$');
        }
        assert(seq![s[0]] + s.skip(1) =~= s);
    }
}

/// Resolving a server changes the values of its environment and of its
/// headers, each on its own, and nothing else.
pub proof fn law_only_environment_and_headers_are_resolved(
    s: McpServerView,
    extra: Map<Seq<char>, Seq<char>>,
    process: Map<Seq<char>, Seq<char>>,
    key: Seq<char>,
)
    ensures
        ({
            let r = resolved_server(s, extra, process);
            &&& r.command == s.command && r.args == s.args && r.url == s.url
            &&& r.allow_tools == s.allow_tools && r.block_tools == s.block_tools
            &&& r.env is Some <==> s.env is Some
            &&& r.headers is Some <==> s.headers is Some
            &&& s.env is Some ==> (r.env->0.dom().contains(key) <==> s.env->0.dom().contains(key))
            &&& s.env is Some && s.env->0.dom().contains(key) ==> r.env->0[key] == resolved(
                s.env->0[key],
                extra,
                process,
            )
            &&& s.headers is Some ==> (r.headers->0.dom().contains(key)
                <==> s.headers->0.dom().contains(key))
            &&& s.headers is Some && s.headers->0.dom().contains(key) ==> r.headers->0[key]
                == resolved(s.headers->0[key], extra, process)
        }),
{
}

} // verus!
