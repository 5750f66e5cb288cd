//! Laws of a request: what is configured is what is sent, and what is not
//! configured is not.

use vstd::prelude::*;
use crate::gemini::provider::{
    body_sent, declaration, headers_sent, is_default, method_path, own_members, thinking_level,
    GeminiProvider,
};
use crate::gemini::wire::{system_instruction, wire_contents, CallMetaView};
use crate::json::{json_uint, member, signed_number, JsonView};
use crate::message::{MessageView, ToolSpecView};
use crate::reasoning::ReasoningConfig;
use crate::sampling::{real_given, text_array};
use crate::text::texts;
use crate::tool_choice::ToolChoice;

verus! {

proof fn lemma_keys()
    ensures
        "systemInstruction"@.len() == 17,
        "contents"@.len() == 8,
        "tools"@.len() == 5,
        "generationConfig"@.len() == 16,
        "toolConfig"@.len() == 10,
{
    reveal_strlit("systemInstruction");
    reveal_strlit("contents");
    reveal_strlit("tools");
    reveal_strlit("generationConfig");
    reveal_strlit("toolConfig");
}

proof fn lemma_generation_keys()
    ensures
        "maxOutputTokens"@.len() == 15 && "maxOutputTokens"@[0] == 'm',
        "thinkingConfig"@.len() == 14 && "thinkingConfig"@[0] == 't',
        "temperature"@.len() == 11,
        "topP"@.len() == 4 && "topP"@[0] == 't' && "topP"@[3] == 'P',
        "topK"@.len() == 4 && "topK"@[0] == 't' && "topK"@[3] == 'K',
        "seed"@.len() == 4 && "seed"@[0] == 's',
        "frequencyPenalty"@.len() == 16 && "frequencyPenalty"@[0] == 'f',
        "presencePenalty"@.len() == 15 && "presencePenalty"@[0] == 'p',
        "stopSequences"@.len() == 13,
        "responseMimeType"@.len() == 16 && "responseMimeType"@[0] == 'r',
        "responseSchema"@.len() == 14 && "responseSchema"@[0] == 'r',
{
    reveal_strlit("maxOutputTokens");
    reveal_strlit("thinkingConfig");
    reveal_strlit("temperature");
    reveal_strlit("topP");
    reveal_strlit("topK");
    reveal_strlit("seed");
    reveal_strlit("frequencyPenalty");
    reveal_strlit("presencePenalty");
    reveal_strlit("stopSequences");
    reveal_strlit("responseMimeType");
    reveal_strlit("responseSchema");
}

proof fn lemma_inner_keys()
    ensures
        "name"@.len() == 4,
        "description"@.len() == 11,
        "parameters"@.len() == 10,
        "mode"@.len() == 4,
        "allowedFunctionNames"@.len() == 20,
        "thinkingBudget"@.len() == 14,
        "includeThoughts"@.len() == 15,
        "thinkingLevel"@.len() == 13,
{
    reveal_strlit("name");
    reveal_strlit("description");
    reveal_strlit("parameters");
    reveal_strlit("mode");
    reveal_strlit("allowedFunctionNames");
    reveal_strlit("thinkingBudget");
    reveal_strlit("includeThoughts");
    reveal_strlit("thinkingLevel");
}

/// The further members that a configuration gives override the request's own
/// and add to them; every other member is the request's own.
pub proof fn law_extra_members_are_sent(
    p: GeminiProvider,
    ms: Seq<MessageView>,
    tools: Seq<ToolSpecView>,
    meta: CallMetaView,
    key: Seq<char>,
)
    ensures
        member(body_sent(p, ms, tools, meta), key) == if p.sampling.extra@.dom().contains(key) {
            Some(p.sampling.extra@[key])
        } else {
            member(JsonView::Object(own_members(p, ms, tools, meta)), key)
        },
{
}

/// Whether a value describes a tool.
pub open spec fn tool_shows(j: JsonView, t: ToolSpecView) -> bool {
    &&& member(j, "name"@) == Some(JsonView::Str(t.name))
    &&& member(j, "description"@) == Some(JsonView::Str(t.description))
    &&& member(j, "parameters"@) == Some(t.parameters_schema)
}

/// A request carries the conversation, the system instruction apart from it,
/// and every tool in order. A choice of a tool is sent as it is made, where
/// there are tools.
pub proof fn law_conversation_and_tools_are_sent(
    p: GeminiProvider,
    ms: Seq<MessageView>,
    tools: Seq<ToolSpecView>,
    meta: CallMetaView,
)
    ensures
        ({
            let own = JsonView::Object(own_members(p, ms, tools, meta));
            let sent = member(own, "tools"@);
            let declared = member(sent->0->Array_0[0], "functionDeclarations"@);
            let choice = member(own, "toolConfig"@);
            let calling = member(choice->0, "functionCallingConfig"@);
            &&& member(own, "contents"@) == Some(JsonView::Array(wire_contents(ms, meta)))
            &&& member(own, "systemInstruction"@) == system_instruction(ms)
            &&& tools.len() == 0 ==> sent is None
            &&& tools.len() > 0 ==> {
                &&& sent is Some && sent->0 is Array && sent->0->Array_0.len() == 1
                &&& declared is Some && declared->0 is Array
                &&& declared->0->Array_0.len() == tools.len()
                &&& forall|i: int|
                    0 <= i < tools.len() ==> tool_shows(
                        #[trigger] declared->0->Array_0[i],
                        tools[i],
                    )
            }
            &&& choice is Some <==> p.tool_choice is Some && tools.len() > 0
            &&& choice is Some ==> calling is Some && {
                let mode = member(calling->0, "mode"@);
                let allowed = member(calling->0, "allowedFunctionNames"@);
                match p.tool_choice->0 {
                    ToolChoice::Auto => mode == Some(JsonView::Str("AUTO"@)) && allowed is None,
                    ToolChoice::NoTool => mode == Some(JsonView::Str("NONE"@)) && allowed is None,
                    ToolChoice::Required => mode == Some(JsonView::Str("ANY"@)) && allowed is None,
                    ToolChoice::Tool(name) => mode == Some(JsonView::Str("ANY"@)) && allowed
                        == Some(JsonView::Array(seq![JsonView::Str(name@)])),
                }
            }
        }),
{
    lemma_keys();
    lemma_inner_keys();
    if tools.len() > 0 {
        let all = tools.map_values(|t: ToolSpecView| declaration(t));
        let own = JsonView::Object(own_members(p, ms, tools, meta));
        assert(member(member(own, "tools"@)->0->Array_0[0], "functionDeclarations"@) == Some(
            JsonView::Array(all),
        ));
    }
}

/// Each knob is sent with the value that was set, and none that was not. The
/// cap is what sampling asks for, else what the provider is made with.
pub proof fn law_sampling_is_sent(
    p: GeminiProvider,
    ms: Seq<MessageView>,
    tools: Seq<ToolSpecView>,
    meta: CallMetaView,
)
    ensures
        ({
            let own = JsonView::Object(own_members(p, ms, tools, meta));
            let g = member(own, "generationConfig"@);
            let s = p.sampling;
            &&& g is Some
            &&& real_given(s.temperature, member(g->0, "temperature"@))
            &&& real_given(s.top_p, member(g->0, "topP"@))
            &&& real_given(s.frequency_penalty, member(g->0, "frequencyPenalty"@))
            &&& real_given(s.presence_penalty, member(g->0, "presencePenalty"@))
            &&& member(g->0, "topK"@) == if s.top_k is Some {
                Some(json_uint(s.top_k->0 as u64))
            } else {
                None
            }
            &&& member(g->0, "seed"@) == if s.seed is Some {
                Some(json_uint(s.seed->0))
            } else {
                None
            }
            &&& member(g->0, "stopSequences"@) == if s.stop@.len() > 0 {
                Some(text_array(texts(s.stop@)))
            } else {
                None
            }
            &&& member(g->0, "maxOutputTokens"@) == if s.max_tokens is Some {
                Some(json_uint(s.max_tokens->0 as u64))
            } else if p.max_tokens is Some {
                Some(json_uint(p.max_tokens->0 as u64))
            } else {
                None
            }
        }),
{
    lemma_keys();
    lemma_generation_keys();
}

/// A schema for the answer is sent, with the type that it needs, exactly
/// where one is set.
pub proof fn law_schema_is_sent(
    p: GeminiProvider,
    ms: Seq<MessageView>,
    tools: Seq<ToolSpecView>,
    meta: CallMetaView,
)
    ensures
        ({
            let own = JsonView::Object(own_members(p, ms, tools, meta));
            let g = member(own, "generationConfig"@)->0;
            &&& p.structured_output is Some ==> member(g, "responseSchema"@) == Some(
                p.structured_output->0.schema@,
            ) && member(g, "responseMimeType"@) == Some(JsonView::Str("application/json"@))
            &&& p.structured_output is None ==> member(g, "responseSchema"@) is None && member(
                g,
                "responseMimeType"@,
            ) is None
        }),
{
    lemma_keys();
    lemma_generation_keys();
}

/// How thinking is asked for: on leaves the budget to the model, off sets it
/// to nothing, an effort gives a level, and a budget is sent as it is. Thoughts
/// are asked for wherever the model thinks.
pub proof fn law_thinking_is_asked_for(
    p: GeminiProvider,
    ms: Seq<MessageView>,
    tools: Seq<ToolSpecView>,
    meta: CallMetaView,
)
    ensures
        ({
            let own = JsonView::Object(own_members(p, ms, tools, meta));
            let sent = member(member(own, "generationConfig"@)->0, "thinkingConfig"@);
            let budget = member(sent->0, "thinkingBudget"@);
            let thoughts = member(sent->0, "includeThoughts"@);
            let level = member(sent->0, "thinkingLevel"@);
            &&& sent is Some <==> p.reasoning is Some
            &&& match p.reasoning {
                Some(ReasoningConfig::Toggle(on)) => {
                    &&& on ==> budget == Some(JsonView::Number(signed_number(-1i64)))
                    &&& !on ==> budget == Some(JsonView::Number(signed_number(0i64)))
                    &&& thoughts == if on {
                        Some(JsonView::Bool(true))
                    } else {
                        None
                    }
                    &&& level is None
                },
                Some(ReasoningConfig::Effort(e)) => {
                    &&& budget is None
                    &&& thoughts == Some(JsonView::Bool(true))
                    &&& level == Some(JsonView::Str(thinking_level(e@)))
                },
                Some(ReasoningConfig::Budget(n)) => {
                    &&& n <= i32::MAX ==> budget == Some(
                        JsonView::Number(signed_number(n as i64)),
                    )
                    &&& thoughts == Some(JsonView::Bool(true))
                    &&& level is None
                },
                None => true,
            }
        }),
{
    lemma_keys();
    lemma_generation_keys();
    lemma_inner_keys();
}

/// The level of an effort: a level that the endpoint knows is itself, no
/// effort is the least, more than high is high, and any other is medium.
pub proof fn law_levels_follow_the_effort(effort: Seq<char>)
    ensures
        effort == "minimal"@ || effort == "none"@ ==> thinking_level(effort) == "minimal"@,
        effort == "low"@ ==> thinking_level(effort) == "low"@,
        effort == "high"@ || effort == "xhigh"@ || effort == "max"@ ==> thinking_level(effort)
            == "high"@,
        effort != "minimal"@ && effort != "none"@ && effort != "low"@ && effort != "high"@ && effort
            != "xhigh"@ && effort != "max"@ ==> thinking_level(effort) == "medium"@,
{
    reveal_strlit("minimal");
    reveal_strlit("none");
    reveal_strlit("low");
    reveal_strlit("medium");
    reveal_strlit("high");
    reveal_strlit("xhigh");
    reveal_strlit("max");
    assert("minimal"@.len() == 7 && "none"@.len() == 4 && "low"@.len() == 3);
    assert("medium"@.len() == 6 && "high"@.len() == 4 && "xhigh"@.len() == 5);
    assert("max"@.len() == 3 && "low"@[0] == 'l' && "max"@[0] == 'm');
    assert("none"@[0] == 'n' && "high"@[0] == 'h');
}

/// A request carries its type and the user agent, and the key exactly where
/// there is one; its path names the model and the method.
pub proof fn law_key_is_sent(agent: Seq<char>, key: Seq<char>, model: Seq<char>, method: Seq<char>)
    ensures
        ({
            let hs = headers_sent(agent, key);
            &&& hs[0] == ("Content-Type"@, "application/json"@)
            &&& hs[1] == ("User-Agent"@, agent)
            &&& hs.len() == if key.len() > 0 {
                3nat
            } else {
                2nat
            }
            &&& key.len() > 0 ==> hs[2] == ("x-goog-api-key"@, key)
        }),
        ("/models/"@ + model).is_prefix_of(method_path(model, method)),
        method_path(model, method).skip(("/models/"@ + model).len() as int) == method,
{
    assert(method_path(model, method).skip(("/models/"@ + model).len() as int) =~= method);
}

/// A provider as it is made asks for nothing but an answer: without tools its
/// request holds the conversation, its system instruction and a configuration
/// that sets nothing.
pub proof fn law_default_request_is_plain(
    p: GeminiProvider,
    api_key: Seq<char>,
    ms: Seq<MessageView>,
    meta: CallMetaView,
)
    requires
        is_default(p, api_key),
    ensures
        ({
            let body = body_sent(p, ms, Seq::empty(), meta);
            let g = member(body, "generationConfig"@);
            &&& member(body, "contents"@) is Some
            &&& g is Some && g->0 is Object
            &&& forall|key: Seq<char>| #[trigger] member(g->0, key) is None
            &&& forall|key: Seq<char>|
                key != "contents"@ && key != "generationConfig"@ && key != "systemInstruction"@
                    ==> #[trigger] member(body, key) is None
        }),
        p.api_key@ == api_key,
{
    lemma_keys();
}

} // verus!
