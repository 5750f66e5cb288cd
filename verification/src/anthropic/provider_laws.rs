//! Laws of a request: what is configured is what is sent, and what is not
//! configured is not.

use vstd::prelude::*;
use crate::anthropic::caching::cached_body;
use crate::anthropic::provider::{
    betas_sent, body_sent, budget_sent, headers_sent, is_default, own_members, some_file, thinks,
    wire_tool, AnthropicProvider, API_VERSION, MIN_THINKING_BUDGET, PDF_BETA, STRUCTURED_OUTPUT_BETA,
};
use crate::anthropic::wire::wire_messages;
use crate::json::{json_uint, member, JsonView};
use crate::message::{holds_file, system_prompt, MessageView, ToolSpecView};
use crate::reasoning::ReasoningConfig;
use crate::sampling::{law_extra_overrides_and_adds, merged, real_given, text_array};
use crate::text::{joined, texts};
use crate::tool_choice::ToolChoice;

verus! {

proof fn lemma_keys()
    ensures
        "model"@.len() == 5 && "model"@[0] == 'm',
        "max_tokens"@.len() == 10,
        "system"@.len() == 6 && "system"@[1] == 'y',
        "messages"@.len() == 8 && "messages"@[0] == 'm',
        "tools"@.len() == 5 && "tools"@[0] == 't' && "tools"@[2] == 'o',
        "stream"@.len() == 6 && "stream"@[1] == 't',
        "thinking"@.len() == 8 && "thinking"@[0] == 't',
        "output_config"@.len() == 13,
        "temperature"@.len() == 11 && "temperature"@[1] == 'e',
        "top_p"@.len() == 5 && "top_p"@[0] == 't' && "top_p"@[2] == 'p' && "top_p"@[4] == 'p',
        "top_k"@.len() == 5 && "top_k"@[0] == 't' && "top_k"@[2] == 'p' && "top_k"@[4] == 'k',
        "stop_sequences"@.len() == 14,
        "tool_choice"@.len() == 11 && "tool_choice"@[1] == 'o',
{
    reveal_strlit("model");
    reveal_strlit("max_tokens");
    reveal_strlit("system");
    reveal_strlit("messages");
    reveal_strlit("tools");
    reveal_strlit("stream");
    reveal_strlit("thinking");
    reveal_strlit("output_config");
    reveal_strlit("temperature");
    reveal_strlit("top_p");
    reveal_strlit("top_k");
    reveal_strlit("stop_sequences");
    reveal_strlit("tool_choice");
}

proof fn lemma_inner_keys()
    ensures
        "type"@.len() == 4 && "type"@[0] == 't',
        "name"@.len() == 4 && "name"@[0] == 'n',
        "description"@.len() == 11,
        "input_schema"@.len() == 12,
        "budget_tokens"@.len() == 13,
        "schema"@.len() == 6 && "schema"@[0] == 's',
        "effort"@.len() == 6 && "effort"@[0] == 'e',
        "format"@.len() == 6 && "format"@[0] == 'f',
{
    reveal_strlit("type");
    reveal_strlit("name");
    reveal_strlit("description");
    reveal_strlit("input_schema");
    reveal_strlit("budget_tokens");
    reveal_strlit("schema");
    reveal_strlit("effort");
    reveal_strlit("format");
}

/// The body is the request's own members under those that a configuration
/// adds, with cache marks exactly where caching is on.
pub proof fn law_body_is_marked_where_caching_is_on(
    p: AnthropicProvider,
    ms: Seq<MessageView>,
    tools: Seq<ToolSpecView>,
    stream: bool,
    key: Seq<char>,
)
    ensures
        ({
            let own = JsonView::Object(own_members(p, ms, tools, stream));
            let plain = merged(own, p.sampling.extra@);
            &&& body_sent(p, ms, tools, stream) == if p.prompt_caching {
                cached_body(plain)
            } else {
                plain
            }
            &&& member(plain, key) == if p.sampling.extra@.dom().contains(key) {
                Some(p.sampling.extra@[key])
            } else {
                member(own, key)
            }
        }),
{
}

/// A request names its model, carries the conversation and, apart from it,
/// the system prompt, and caps the output: at what sampling asks for, else at
/// what the provider is made with.
pub proof fn law_model_and_messages_are_sent(
    p: AnthropicProvider,
    ms: Seq<MessageView>,
    tools: Seq<ToolSpecView>,
    stream: bool,
)
    ensures
        ({
            let own = JsonView::Object(own_members(p, ms, tools, stream));
            &&& member(own, "model"@) == Some(JsonView::Str(p.model@))
            &&& member(own, "messages"@) == Some(JsonView::Array(wire_messages(ms)))
            &&& match system_prompt(ms) {
                Some(text) => member(own, "system"@) == Some(JsonView::Str(text)),
                None => member(own, "system"@) is None,
            }
            &&& match p.sampling.max_tokens {
                Some(n) => member(own, "max_tokens"@) == Some(json_uint(n as u64)),
                None => member(own, "max_tokens"@) == Some(json_uint(p.max_tokens as u64)),
            }
            &&& stream ==> member(own, "stream"@) == Some(JsonView::Bool(true))
            &&& !stream ==> member(own, "stream"@) is None
        }),
{
    lemma_keys();
}

/// Whether a value describes a tool.
pub open spec fn tool_shows(j: JsonView, t: ToolSpecView) -> bool {
    &&& member(j, "name"@) == Some(JsonView::Str(t.name))
    &&& member(j, "description"@) == Some(JsonView::Str(t.description))
    &&& member(j, "input_schema"@) == Some(t.parameters_schema)
}

/// Every tool is described, in order; without tools there is no such member,
/// and then no choice of a tool either. A choice is sent as it is made.
pub proof fn law_tools_are_sent(
    p: AnthropicProvider,
    ms: Seq<MessageView>,
    tools: Seq<ToolSpecView>,
    stream: bool,
)
    ensures
        ({
            let own = JsonView::Object(own_members(p, ms, tools, stream));
            let sent = member(own, "tools"@)->0->Array_0;
            let choice = member(own, "tool_choice"@);
            &&& tools.len() == 0 ==> member(own, "tools"@) is None
            &&& tools.len() > 0 ==> {
                &&& member(own, "tools"@) == Some(JsonView::Array(sent))
                &&& sent.len() == tools.len()
                &&& forall|i: int| 0 <= i < sent.len() ==> tool_shows(#[trigger] sent[i], tools[i])
            }
            &&& choice is Some <==> p.tool_choice is Some && tools.len() > 0
            &&& choice is Some ==> {
                let kind = member(choice->0, "type"@);
                match p.tool_choice->0 {
                    ToolChoice::Auto => kind == Some(JsonView::Str("auto"@)),
                    ToolChoice::NoTool => kind == Some(JsonView::Str("none"@)),
                    ToolChoice::Required => kind == Some(JsonView::Str("any"@)),
                    ToolChoice::Tool(name) => kind == Some(JsonView::Str("tool"@)) && member(
                        choice->0,
                        "name"@,
                    ) == Some(JsonView::Str(name@)),
                }
            }
        }),
{
    lemma_keys();
    lemma_inner_keys();
    if tools.len() > 0 {
        let sent = tools.map_values(|t: ToolSpecView| wire_tool(t));
        assert(member(JsonView::Object(own_members(p, ms, tools, stream)), "tools"@) == Some(
            JsonView::Array(sent),
        ));
    }
}

/// How much a request may write.
pub open spec fn cap_of(p: AnthropicProvider) -> int {
    if p.sampling.max_tokens is Some {
        p.sampling.max_tokens->0 as int
    } else {
        p.max_tokens as int
    }
}

/// How thinking is asked for: on is adaptive, off is disabled, and a budget
/// is sent as near to what was asked as the limits allow, where the cap
/// leaves room for any. An effort asks for no thinking of its own.
pub proof fn law_thinking_is_asked_for(
    p: AnthropicProvider,
    ms: Seq<MessageView>,
    tools: Seq<ToolSpecView>,
    stream: bool,
)
    ensures
        ({
            let own = JsonView::Object(own_members(p, ms, tools, stream));
            let sent = member(own, "thinking"@);
            let kind = member(sent->0, "type"@);
            match p.reasoning {
                Some(ReasoningConfig::Toggle(on)) => sent is Some && kind == Some(
                    JsonView::Str(
                        if on {
                            "adaptive"@
                        } else {
                            "disabled"@
                        },
                    ),
                ),
                Some(ReasoningConfig::Budget(n)) => {
                    &&& sent is Some <==> cap_of(p) > MIN_THINKING_BUDGET
                    &&& sent is Some ==> kind == Some(JsonView::Str("enabled"@)) && exists|b: usize|
                        {
                            &&& member(sent->0, "budget_tokens"@) == Some(
                                #[trigger] json_uint(b as u64),
                            )
                            &&& MIN_THINKING_BUDGET <= b < cap_of(p)
                            &&& b < n ==> b == cap_of(p) - 1
                            &&& b > n ==> b == MIN_THINKING_BUDGET
                        }
                },
                _ => sent is None,
            }
        }),
{
    lemma_keys();
    lemma_inner_keys();
    match p.reasoning {
        Some(ReasoningConfig::Budget(n)) => {
            let b = budget_sent(p);
            if cap_of(p) > MIN_THINKING_BUDGET {
                assert(member(
                    member(
                        JsonView::Object(own_members(p, ms, tools, stream)),
                        "thinking"@,
                    )->0,
                    "budget_tokens"@,
                ) == Some(json_uint(b as u64)));
            }
        },
        _ => {},
    }
}

/// An effort and a schema go into the output configuration, each where it is
/// set, and there is none where neither is.
pub proof fn law_output_is_configured(
    p: AnthropicProvider,
    ms: Seq<MessageView>,
    tools: Seq<ToolSpecView>,
    stream: bool,
)
    ensures
        ({
            let own = JsonView::Object(own_members(p, ms, tools, stream));
            let sent = member(own, "output_config"@);
            let effort = p.reasoning is Some && p.reasoning->0 is Effort;
            &&& sent is Some <==> effort || p.structured_output is Some
            &&& effort ==> member(sent->0, "effort"@) == Some(
                JsonView::Str(p.reasoning->0->Effort_0@),
            )
            &&& sent is Some && !effort ==> member(sent->0, "effort"@) is None
            &&& p.structured_output is Some ==> {
                let format = member(sent->0, "format"@);
                &&& format is Some
                &&& member(format->0, "type"@) == Some(JsonView::Str("json_schema"@))
                &&& member(format->0, "schema"@) == Some(p.structured_output->0.schema@)
            }
            &&& sent is Some && p.structured_output is None ==> member(sent->0, "format"@) is None
        }),
{
    lemma_keys();
    lemma_inner_keys();
}

/// Whether a request thinks.
pub open spec fn asks_to_think(p: AnthropicProvider) -> bool {
    match p.reasoning {
        Some(ReasoningConfig::Toggle(on)) => on,
        Some(ReasoningConfig::Budget(_)) => cap_of(p) > MIN_THINKING_BUDGET,
        _ => false,
    }
}

/// The knobs are sent as they were set, but for those that the endpoint
/// refuses: none of the three beside thinking, and no `top_p` beside a
/// temperature. Stop sequences always go out.
pub proof fn law_sampling_is_sent(
    p: AnthropicProvider,
    ms: Seq<MessageView>,
    tools: Seq<ToolSpecView>,
    stream: bool,
)
    ensures
        thinks(p) <==> asks_to_think(p),
        ({
            let own = JsonView::Object(own_members(p, ms, tools, stream));
            let s = p.sampling;
            &&& asks_to_think(p) ==> member(own, "temperature"@) is None && member(
                own,
                "top_p"@,
            ) is None && member(own, "top_k"@) is None
            &&& !asks_to_think(p) ==> real_given(s.temperature, member(own, "temperature"@))
            &&& !asks_to_think(p) && s.temperature is None ==> real_given(
                s.top_p,
                member(own, "top_p"@),
            )
            &&& !asks_to_think(p) && s.temperature is Some ==> member(own, "top_p"@) is None
            &&& !asks_to_think(p) ==> member(own, "top_k"@) == if s.top_k is Some {
                Some(json_uint(s.top_k->0 as u64))
            } else {
                None
            }
            &&& member(own, "stop_sequences"@) == if s.stop@.len() > 0 {
                Some(text_array(texts(s.stop@)))
            } else {
                None
            }
        }),
{
    lemma_keys();
}

/// The betas of a request are those configured, then that of structured
/// output where a schema is set, then that of documents where a message holds
/// one.
pub proof fn law_betas_are_announced(p: AnthropicProvider, ms: Seq<MessageView>)
    ensures
        ({
            let betas = betas_sent(p, ms);
            let own = texts(p.extra_betas@);
            let schema = p.structured_output is Some;
            let document = exists|i: int, k: int|
                0 <= i < ms.len() && 0 <= k < ms[i].content.len()
                    && #[trigger] ms[i].content[k] is File;
            &&& own.is_prefix_of(betas)
            &&& schema && document ==> betas.skip(own.len() as int) == seq![
                STRUCTURED_OUTPUT_BETA@,
                PDF_BETA@,
            ]
            &&& schema && !document ==> betas.skip(own.len() as int) == seq![
                STRUCTURED_OUTPUT_BETA@,
            ]
            &&& !schema && document ==> betas.skip(own.len() as int) == seq![PDF_BETA@]
            &&& !schema && !document ==> betas == own
        }),
{
    let document = exists|i: int, k: int|
        0 <= i < ms.len() && 0 <= k < ms[i].content.len() && #[trigger] ms[i].content[k] is File;
    let held = some_file(ms);
    assert(document == held) by {
        if document {
            let (i, k) = choose|i: int, k: int|
                0 <= i < ms.len() && 0 <= k < ms[i].content.len()
                    && #[trigger] ms[i].content[k] is File;
            assert(holds_file(ms[i].content));
        }
        if held {
            let i = choose|i: int|
                0 <= i < ms.len() && holds_file((#[trigger] ms[i]).content);
            let k = choose|k: int|
                0 <= k < ms[i].content.len() && #[trigger] ms[i].content[k] is File;
            assert(ms[i].content[k] is File);
        }
    }
}

/// The headers of a request: version, type and agent always, the betas in one
/// list where there are any, and then either the token, which wins, or the
/// key where it is not empty.
pub proof fn law_headers_are_sent(p: AnthropicProvider, ms: Seq<MessageView>)
    ensures
        ({
            let hs = headers_sent(p, ms);
            let betas = betas_sent(p, ms);
            let n = 3 + if betas.len() > 0 {
                1int
            } else {
                0int
            };
            &&& hs[0] == ("anthropic-version"@, API_VERSION@)
            &&& hs[1] == ("content-type"@, "application/json"@)
            &&& hs[2] == ("User-Agent"@, p.user_agent@)
            &&& betas.len() > 0 ==> hs[3] == ("anthropic-beta"@, joined(betas, ","@))
            &&& p.auth_token is Some ==> hs.len() == n + 1 && hs[n] == (
                "authorization"@,
                "Bearer "@ + p.auth_token->0@,
            )
            &&& p.auth_token is None && p.api_key@.len() > 0 ==> hs.len() == n + 1 && hs[n] == (
                "x-api-key"@,
                p.api_key@,
            )
            &&& p.auth_token is None && p.api_key@.len() == 0 ==> hs.len() == n
        }),
{
}

/// A provider as it is made asks for nothing but an answer: without tools and
/// without streaming its request holds the model, the cap, the conversation
/// and its system prompt and no other member, marked for caching, and goes
/// out under the key it was made with.
pub proof fn law_default_request_is_plain(
    p: AnthropicProvider,
    api_key: Seq<char>,
    model: Seq<char>,
    ms: Seq<MessageView>,
)
    requires
        is_default(p, api_key, model),
    ensures
        ({
            let own = JsonView::Object(own_members(p, ms, Seq::empty(), false));
            &&& body_sent(p, ms, Seq::empty(), false) == cached_body(own)
            &&& member(own, "model"@) == Some(JsonView::Str(model))
            &&& member(own, "max_tokens"@) is Some
            &&& member(own, "messages"@) is Some
            &&& forall|key: Seq<char>|
                key != "model"@ && key != "max_tokens"@ && key != "messages"@ && key != "system"@
                    ==> #[trigger] member(own, key) is None
        }),
        p.api_key@ == api_key,
        p.auth_token is None,
{
    lemma_keys();
    law_extra_overrides_and_adds(
        own_members(p, ms, Seq::empty(), false),
        p.sampling.extra@,
        Seq::empty(),
    );
}

} // verus!
