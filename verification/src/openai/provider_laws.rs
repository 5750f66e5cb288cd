//! Laws of a request: what is configured is what is sent, and what is not
//! configured is not.

use vstd::prelude::*;
use crate::json::{json_uint, member, JsonView};
use crate::message::{MessageView, ToolSpecView};
use crate::openai::provider::{
    body_sent, headers_sent, is_default, own_members, reasons, thinking_json, wire_tool,
    OpenAIProvider,
};
use crate::openai::wire::wire_messages;
use crate::reasoning::ReasoningConfig;
use crate::sampling::{real_given, text_array};
use crate::text::texts;
use crate::tool_choice::ToolChoice;

verus! {

proof fn lemma_keys()
    ensures
        "model"@.len() == 5 && "model"@[0] == 'm',
        "messages"@.len() == 8 && "messages"@[0] == 'm',
        "tools"@.len() == 5 && "tools"@[0] == 't' && "tools"@[2] == 'o',
        "stream"@.len() == 6,
        "stream_options"@.len() == 14,
        "reasoning_effort"@.len() == 16 && "reasoning_effort"@[0] == 'r',
        "thinking"@.len() == 8 && "thinking"@[0] == 't',
        "temperature"@.len() == 11 && "temperature"@[1] == 'e',
        "top_p"@.len() == 5 && "top_p"@[0] == 't' && "top_p"@[2] == 'p',
        "frequency_penalty"@.len() == 17,
        "presence_penalty"@.len() == 16 && "presence_penalty"@[0] == 'p',
        "seed"@.len() == 4 && "seed"@[1] == 'e',
        "max_tokens"@.len() == 10,
        "stop"@.len() == 4 && "stop"@[1] == 't',
        "tool_choice"@.len() == 11 && "tool_choice"@[1] == 'o',
        "response_format"@.len() == 15,
{
    reveal_strlit("model");
    reveal_strlit("messages");
    reveal_strlit("tools");
    reveal_strlit("stream");
    reveal_strlit("stream_options");
    reveal_strlit("reasoning_effort");
    reveal_strlit("thinking");
    reveal_strlit("temperature");
    reveal_strlit("top_p");
    reveal_strlit("frequency_penalty");
    reveal_strlit("presence_penalty");
    reveal_strlit("seed");
    reveal_strlit("max_tokens");
    reveal_strlit("stop");
    reveal_strlit("tool_choice");
    reveal_strlit("response_format");
}

proof fn lemma_inner_keys()
    ensures
        "type"@.len() == 4 && "type"@[0] == 't',
        "function"@.len() == 8,
        "name"@.len() == 4 && "name"@[0] == 'n',
        "description"@.len() == 11,
        "parameters"@.len() == 10,
        "keep"@.len() == 4 && "keep"@[0] == 'k',
        "budget_tokens"@.len() == 13,
        "json_schema"@.len() == 11,
        "schema"@.len() == 6 && "schema"@[1] == 'c',
        "strict"@.len() == 6 && "strict"@[1] == 't',
{
    reveal_strlit("type");
    reveal_strlit("function");
    reveal_strlit("name");
    reveal_strlit("description");
    reveal_strlit("parameters");
    reveal_strlit("keep");
    reveal_strlit("budget_tokens");
    reveal_strlit("json_schema");
    reveal_strlit("schema");
    reveal_strlit("strict");
}

/// The further members that a configuration gives override the request's own
/// and add to them; every other member is the request's own.
pub proof fn law_extra_members_are_sent(
    p: OpenAIProvider,
    ms: Seq<MessageView>,
    tools: Seq<ToolSpecView>,
    stream: bool,
    key: Seq<char>,
)
    ensures
        member(body_sent(p, ms, tools, stream), key) == if p.sampling.extra@.dom().contains(key) {
            Some(p.sampling.extra@[key])
        } else {
            member(JsonView::Object(own_members(p, ms, tools, stream)), key)
        },
{
}

/// A request names its model and carries the conversation. Reasoning is
/// expected on assistant messages exactly where thinking or an effort is
/// configured.
pub proof fn law_model_and_messages_are_sent(
    p: OpenAIProvider,
    ms: Seq<MessageView>,
    tools: Seq<ToolSpecView>,
    stream: bool,
)
    ensures
        ({
            let own = JsonView::Object(own_members(p, ms, tools, stream));
            &&& member(own, "model"@) == Some(JsonView::Str(p.model@))
            &&& member(own, "messages"@) == Some(
                JsonView::Array(
                    wire_messages(
                        ms,
                        p.thinking is Some || p.reasoning_effort is Some,
                        p.reasoning_history_key,
                    ),
                ),
            )
        }),
{
    lemma_keys();
}

/// Whether a value describes a tool.
pub open spec fn tool_shows(j: JsonView, t: ToolSpecView) -> bool {
    let function = member(j, "function"@);
    &&& member(j, "type"@) == Some(JsonView::Str("function"@))
    &&& function is Some
    &&& member(function->0, "name"@) == Some(JsonView::Str(t.name))
    &&& member(function->0, "description"@) == Some(JsonView::Str(t.description))
    &&& member(function->0, "parameters"@) == Some(t.parameters_schema)
}

/// Every tool is described, in order; without tools there is no such member,
/// and then no choice of a tool either. A choice is sent as it is made.
pub proof fn law_tools_are_sent(
    p: OpenAIProvider,
    ms: Seq<MessageView>,
    tools: Seq<ToolSpecView>,
    stream: bool,
)
    ensures
        ({
            let own = JsonView::Object(own_members(p, ms, tools, stream));
            let sent = member(own, "tools"@)->0->Array_0;
            let choice = member(own, "tool_choice"@);
            &&& tools.len() == 0 ==> member(own, "tools"@) is None
            &&& tools.len() > 0 ==> {
                &&& member(own, "tools"@) == Some(JsonView::Array(sent))
                &&& sent.len() == tools.len()
                &&& forall|i: int| 0 <= i < sent.len() ==> tool_shows(#[trigger] sent[i], tools[i])
            }
            &&& choice is Some <==> p.tool_choice is Some && tools.len() > 0
            &&& choice is Some ==> match p.tool_choice->0 {
                ToolChoice::Auto => choice == Some(JsonView::Str("auto"@)),
                ToolChoice::NoTool => choice == Some(JsonView::Str("none"@)),
                ToolChoice::Required => choice == Some(JsonView::Str("required"@)),
                ToolChoice::Tool(name) => {
                    let function = member(choice->0, "function"@);
                    &&& member(choice->0, "type"@) == Some(JsonView::Str("function"@))
                    &&& function is Some
                    &&& member(function->0, "name"@) == Some(JsonView::Str(name@))
                },
            }
        }),
{
    lemma_keys();
    lemma_inner_keys();
    if tools.len() > 0 {
        let sent = tools.map_values(|t: ToolSpecView| wire_tool(t));
        assert(member(JsonView::Object(own_members(p, ms, tools, stream)), "tools"@) == Some(
            JsonView::Array(sent),
        ));
    }
}

/// Streaming is asked for, with a count at the end, exactly where it is
/// wanted.
pub proof fn law_streaming_is_asked_for(
    p: OpenAIProvider,
    ms: Seq<MessageView>,
    tools: Seq<ToolSpecView>,
    stream: bool,
)
    ensures
        ({
            let own = JsonView::Object(own_members(p, ms, tools, stream));
            let options = member(own, "stream_options"@);
            &&& stream ==> member(own, "stream"@) == Some(JsonView::Bool(true)) && options is Some
                && member(options->0, "include_usage"@) == Some(JsonView::Bool(true))
            &&& !stream ==> member(own, "stream"@) is None && options is None
        }),
{
    lemma_keys();
}

/// Each knob is sent with the value that was set, and none that was not.
pub proof fn law_sampling_is_sent(
    p: OpenAIProvider,
    ms: Seq<MessageView>,
    tools: Seq<ToolSpecView>,
    stream: bool,
)
    ensures
        ({
            let own = JsonView::Object(own_members(p, ms, tools, stream));
            let s = p.sampling;
            &&& real_given(s.temperature, member(own, "temperature"@))
            &&& real_given(s.top_p, member(own, "top_p"@))
            &&& real_given(s.frequency_penalty, member(own, "frequency_penalty"@))
            &&& real_given(s.presence_penalty, member(own, "presence_penalty"@))
            &&& member(own, "seed"@) == if s.seed is Some {
                Some(json_uint(s.seed->0))
            } else {
                None
            }
            &&& member(own, "max_tokens"@) == if s.max_tokens is Some {
                Some(json_uint(s.max_tokens->0 as u64))
            } else {
                None
            }
            &&& member(own, "stop"@) == if s.stop@.len() > 0 {
                Some(text_array(texts(s.stop@)))
            } else {
                None
            }
        }),
{
    lemma_keys();
}

/// An effort is sent as it was set; thinking is sent as on or off, with its
/// budget, and with `keep` where the reasoning of earlier turns is kept.
/// Neither is sent where it is not set.
pub proof fn law_reasoning_is_asked_for(
    p: OpenAIProvider,
    ms: Seq<MessageView>,
    tools: Seq<ToolSpecView>,
    stream: bool,
)
    ensures
        ({
            let own = JsonView::Object(own_members(p, ms, tools, stream));
            let thinking = member(own, "thinking"@);
            &&& match p.reasoning_effort {
                Some(e) => member(own, "reasoning_effort"@) == Some(JsonView::Str(e@)),
                None => member(own, "reasoning_effort"@) is None,
            }
            &&& thinking is Some <==> p.thinking is Some
            &&& thinking is Some ==> {
                let t = p.thinking->0;
                &&& member(thinking->0, "type"@) == Some(
                    JsonView::Str(
                        if t.enabled {
                            "enabled"@
                        } else {
                            "disabled"@
                        },
                    ),
                )
                &&& member(thinking->0, "keep"@) == if t.preserve_history {
                    Some(JsonView::Str("all"@))
                } else {
                    None
                }
                &&& member(thinking->0, "budget_tokens"@) == if t.budget_tokens is Some {
                    Some(json_uint(t.budget_tokens->0 as u64))
                } else {
                    None
                }
            }
        }),
{
    lemma_keys();
    lemma_inner_keys();
    if p.thinking is Some {
        assert(member(JsonView::Object(own_members(p, ms, tools, stream)), "thinking"@) == Some(
            thinking_json(p.thinking->0),
        ));
    }
}

/// What is configured of reasoning is what holds of the provider after, and
/// nothing else of it changes.
pub proof fn law_reasoning_is_configured(p: OpenAIProvider, config: ReasoningConfig)
    ensures
        ({
            let q = reasons(p, config);
            &&& q.model == p.model && q.api_key == p.api_key && q.base_url == p.base_url
            &&& q.user_agent == p.user_agent && q.sampling == p.sampling
            &&& q.tool_choice == p.tool_choice && q.structured_output == p.structured_output
            &&& q.reasoning_history_key == p.reasoning_history_key
            &&& q.context_window == p.context_window
            &&& match config {
                ReasoningConfig::Toggle(on) => q.thinking is Some && q.thinking->0.enabled == on
                    && !q.thinking->0.preserve_history && q.thinking->0.budget_tokens is None && q.reasoning_effort is None,
                ReasoningConfig::Budget(n) => q.thinking is Some && q.thinking->0.enabled
                    && !q.thinking->0.preserve_history && q.thinking->0.budget_tokens == Some(n) && q.reasoning_effort is None,
                ReasoningConfig::Effort(e) => q.thinking is None && q.reasoning_effort == Some(e),
            }
        }),
{
}

/// A schema for the answer is sent under its name, or under `response` where
/// it has none, and none is sent where none is set.
pub proof fn law_schema_is_sent(
    p: OpenAIProvider,
    ms: Seq<MessageView>,
    tools: Seq<ToolSpecView>,
    stream: bool,
)
    ensures
        ({
            let own = JsonView::Object(own_members(p, ms, tools, stream));
            let format = member(own, "response_format"@);
            &&& format is Some <==> p.structured_output is Some
            &&& format is Some ==> {
                let so = p.structured_output->0;
                let schema = member(format->0, "json_schema"@);
                &&& member(format->0, "type"@) == Some(JsonView::Str("json_schema"@))
                &&& schema is Some
                &&& member(schema->0, "name"@) == Some(
                    JsonView::Str(
                        if so.name is Some {
                            so.name->0@
                        } else {
                            "response"@
                        },
                    ),
                )
                &&& member(schema->0, "schema"@) == Some(so.schema@)
                &&& member(schema->0, "strict"@) == Some(JsonView::Bool(so.strict))
            }
        }),
{
    lemma_keys();
    lemma_inner_keys();
}

/// A request carries the user agent, and the key exactly where there is one.
pub proof fn law_key_is_sent(agent: Seq<char>, key: Seq<char>)
    ensures
        headers_sent(agent, key).contains(("User-Agent"@, agent)),
        key.len() > 0 ==> headers_sent(agent, key).contains(("authorization"@, "Bearer "@ + key)),
        headers_sent(agent, key).len() == if key.len() > 0 {
            2nat
        } else {
            1nat
        },
{
    assert(headers_sent(agent, key)[0] == ("User-Agent"@, agent));
    if key.len() > 0 {
        assert(headers_sent(agent, key)[1] == ("authorization"@, "Bearer "@ + key));
    }
}

/// A provider as it is made asks for nothing but an answer: without tools and
/// without streaming its request holds the model and the messages and no
/// other member, and goes out under the key it was made with.
pub proof fn law_default_request_is_plain(p: OpenAIProvider, api_key: Seq<char>, ms: Seq<MessageView>)
    requires
        is_default(p, api_key),
    ensures
        member(body_sent(p, ms, Seq::empty(), false), "model"@) is Some,
        member(body_sent(p, ms, Seq::empty(), false), "messages"@) is Some,
        forall|key: Seq<char>|
            key != "model"@ && key != "messages"@ ==> #[trigger] member(
                body_sent(p, ms, Seq::empty(), false),
                key,
            ) is None,
        p.api_key@ == api_key,
{
    lemma_keys();
}

} // verus!
