//! Messages out of the responses of a chat-completions endpoint.

use vstd::prelude::*;
use crate::error::{ProviderError, ProviderErrorView};
use crate::json::{items_view, json_failure, json_of_text, member, Json, JsonView};
use crate::message::{
    call_views, opt_finish, plain_message, plain_thinking, thinking_views, FinishReason,
    FinishView, Message, MessageView, Role, ThinkingContent, ThinkingView, ToolCall, ToolCallView,
};
use crate::text::{opt_text, text_eq};

verus! {

/// Token counts of a response.
#[derive(Clone, Copy, Debug, PartialEq, Eq, Structural)]
pub struct Usage {
    pub prompt_tokens: usize,
    pub completion_tokens: usize,
    pub total_tokens: usize,
}

/// A tool call of a response. The arguments come as JSON text.
#[derive(Debug)]
pub struct ResponseToolCall {
    pub id: String,
    pub name: String,
    pub arguments: String,
}

/// The model of a tool call of a response.
pub ghost struct ResponseCallView {
    pub id: Seq<char>,
    pub name: Seq<char>,
    pub arguments: Seq<char>,
}

impl View for ResponseToolCall {
    type V = ResponseCallView;

    open spec fn view(&self) -> ResponseCallView {
        ResponseCallView { id: self.id@, name: self.name@, arguments: self.arguments@ }
    }
}

/// The models of tool calls of a response.
pub open spec fn response_call_views(s: Seq<ResponseToolCall>) -> Seq<ResponseCallView> {
    s.map_values(|c: ResponseToolCall| c@)
}

/// The message of a response.
#[derive(Debug)]
pub struct ResponseMessage {
    pub role: String,
    pub content: String,
    pub reasoning_content: Option<String>,
    pub reasoning: Option<String>,
    pub reasoning_details: Vec<Json>,
    pub tool_calls: Vec<ResponseToolCall>,
}

/// The model of the message of a response.
pub ghost struct ResponseMessageView {
    pub role: Seq<char>,
    pub content: Seq<char>,
    pub reasoning_content: Option<Seq<char>>,
    pub reasoning: Option<Seq<char>>,
    pub reasoning_details: Seq<JsonView>,
    pub tool_calls: Seq<ResponseCallView>,
}

impl View for ResponseMessage {
    type V = ResponseMessageView;

    open spec fn view(&self) -> ResponseMessageView {
        ResponseMessageView {
            role: self.role@,
            content: self.content@,
            reasoning_content: opt_text(self.reasoning_content),
            reasoning: opt_text(self.reasoning),
            reasoning_details: items_view(self.reasoning_details@),
            tool_calls: response_call_views(self.tool_calls@),
        }
    }
}

/// One answer of a response.
#[derive(Debug)]
pub struct Choice {
    pub message: ResponseMessage,
    pub finish_reason: Option<String>,
}

/// A response to a request that was not streamed.
#[derive(Debug)]
pub struct ChatResponse {
    pub choices: Vec<Choice>,
    pub usage: Option<Usage>,
}

/// The role of a name.
pub open spec fn role_of(name: Seq<char>) -> Option<Role> {
    if name == "system"@ {
        Some(Role::System)
    } else if name == "user"@ {
        Some(Role::User)
    } else if name == "assistant"@ {
        Some(Role::Assistant)
    } else if name == "tool"@ {
        Some(Role::Tool)
    } else {
        None
    }
}

/// The text of a member, where it is a string.
pub open spec fn member_text(j: JsonView, key: Seq<char>) -> Option<Seq<char>> {
    match member(j, key) {
        Some(JsonView::Str(t)) => Some(t),
        _ => None,
    }
}

/// A structured reasoning block as a thinking block: its text or its summary
/// for reading, its signature, and the block itself to be replayed.
pub open spec fn detail_thinking(d: JsonView) -> ThinkingView {
    ThinkingView {
        text: match member_text(d, "text"@) {
            Some(t) => t,
            None => match member_text(d, "summary"@) {
                Some(t) => t,
                None => Seq::empty(),
            },
        },
        signature: member_text(d, "signature"@),
        redacted_data: None,
        details: Some(d),
    }
}

/// The thinking of a message: structured blocks win over the text, and a text
/// that is given, even an empty one, is a block.
pub open spec fn thinking_of(details: Seq<JsonView>, text: Option<Seq<char>>) -> Seq<ThinkingView> {
    if details.len() > 0 {
        details.map_values(|d: JsonView| detail_thinking(d))
    } else {
        match text {
            Some(t) => seq![plain_thinking(t)],
            None => Seq::empty(),
        }
    }
}

/// The first of two texts that is given.
pub open spec fn either(a: Option<Seq<char>>, b: Option<Seq<char>>) -> Option<Seq<char>> {
    match a {
        Some(t) => Some(t),
        None => b,
    }
}

/// What a finish reason means.
pub open spec fn finish_of(raw: Seq<char>) -> FinishView {
    if raw == "stop"@ {
        FinishView::Stop
    } else if raw == "length"@ {
        FinishView::Length
    } else if raw == "tool_calls"@ {
        FinishView::ToolCalls
    } else if raw == "content_filter"@ {
        FinishView::Refusal
    } else {
        FinishView::Other(raw)
    }
}

/// What an optional finish reason means.
pub open spec fn opt_finish_of(raw: Option<Seq<char>>) -> Option<FinishView> {
    match raw {
        Some(r) => Some(finish_of(r)),
        None => None,
    }
}

/// The tool calls of a response with their arguments read; or the message
/// with which the first unreadable arguments are refused.
pub open spec fn calls_of(cs: Seq<ResponseCallView>) -> Result<Seq<ToolCallView>, Seq<char>>
    decreases cs.len(),
{
    if cs.len() == 0 {
        Ok(Seq::empty())
    } else {
        match calls_of(cs.drop_last()) {
            Err(m) => Err(m),
            Ok(front) => match json_of_text(cs.last().arguments) {
                Some(j) => Ok(
                    front.push(
                        ToolCallView { id: cs.last().id, name: cs.last().name, arguments: j },
                    ),
                ),
                None => Err(json_failure(cs.last().arguments)),
            },
        }
    }
}

/// The message that the message of a response makes.
pub open spec fn message_of(m: ResponseMessageView) -> Result<MessageView, ProviderErrorView> {
    match role_of(m.role) {
        None => Err(ProviderErrorView::UnknownRole(m.role)),
        Some(role) => match calls_of(m.tool_calls) {
            Err(why) => Err(ProviderErrorView::Decode(why)),
            Ok(calls) => Ok(
                MessageView {
                    tool_calls: calls,
                    thinking_content: thinking_of(
                        m.reasoning_details,
                        either(m.reasoning_content, m.reasoning),
                    ),
                    ..plain_message(role, m.content)
                },
            ),
        },
    }
}

/// The message that a response makes: its first choice, with the usage and the
/// finish reason.
pub open spec fn reply_of(r: ChatResponse) -> Result<MessageView, ProviderErrorView> {
    if r.choices@.len() == 0 {
        Err(ProviderErrorView::EmptyResponse)
    } else {
        match message_of(r.choices@[0].message@) {
            Err(e) => Err(e),
            Ok(m) => Ok(
                MessageView {
                    token_count: match r.usage {
                        Some(u) => Some(u.total_tokens),
                        None => None,
                    },
                    context_tokens: match r.usage {
                        Some(u) => Some(u.prompt_tokens),
                        None => None,
                    },
                    finish_reason: opt_finish_of(opt_text(r.choices@[0].finish_reason)),
                    ..m
                },
            ),
        }
    }
}

fn parse_role(name: &str) -> (r: Option<Role>)
    ensures
        r == role_of(name@),
{
    if text_eq(name, "system") {
        Some(Role::System)
    } else if text_eq(name, "user") {
        Some(Role::User)
    } else if text_eq(name, "assistant") {
        Some(Role::Assistant)
    } else if text_eq(name, "tool") {
        Some(Role::Tool)
    } else {
        None
    }
}

/// What a finish reason means. An unknown one is kept.
pub fn map_finish_reason(raw: &str) -> (r: FinishReason)
    ensures
        r@ == finish_of(raw@),
{
    if text_eq(raw, "stop") {
        FinishReason::Stop
    } else if text_eq(raw, "length") {
        FinishReason::Length
    } else if text_eq(raw, "tool_calls") {
        FinishReason::ToolCalls
    } else if text_eq(raw, "content_filter") {
        FinishReason::Refusal
    } else {
        FinishReason::Other(raw.to_owned())
    }
}

/// The meaning of a finish reason that may be missing.
pub fn opt_finish_reason(raw: &Option<String>) -> (r: Option<FinishReason>)
    ensures
        opt_finish(r) == opt_finish_of(opt_text(*raw)),
{
    match raw {
        Some(s) => Some(map_finish_reason(s.as_str())),
        None => None,
    }
}

fn text_member(j: &Json, key: &str) -> (r: Option<String>)
    ensures
        opt_text(r) == member_text(j@, key@),
{
    match j.get(key) {
        Some(v) => match v.as_str() {
            Some(s) => Some(s.to_owned()),
            None => None,
        },
        None => None,
    }
}

/// A structured reasoning block as a thinking block.
pub fn thinking_from_detail(detail: Json) -> (r: ThinkingContent)
    ensures
        r@ == detail_thinking(detail@),
{
    let text = match text_member(&detail, "text") {
        Some(t) => t,
        None => match text_member(&detail, "summary") {
            Some(t) => t,
            None => {
                let empty = String::new();
                assert(empty@ =~= Seq::empty());
                empty
            },
        },
    };
    let signature = text_member(&detail, "signature");
    ThinkingContent { text, signature, redacted_data: None, details: Some(detail) }
}

/// The thinking of a message out of structured blocks or of a text.
pub fn assemble_thinking(details: Vec<Json>, text: Option<String>) -> (r: Vec<ThinkingContent>)
    ensures
        thinking_views(r@) == thinking_of(items_view(details@), opt_text(text)),
{
    let ghost model = items_view(details@);
    assert(model.len() == details@.len());
    let mut out: Vec<ThinkingContent> = Vec::new();
    if details.len() > 0 {
        let mut rest = details;
        while rest.len() > 0
            invariant
                rest@.len() + out@.len() == model.len(),
                forall|k: int| 0 <= k < rest@.len() ==> (#[trigger] rest@[k])@ == model[out@.len() + k],
                forall|k: int|
                    0 <= k < out@.len() ==> (#[trigger] out@[k])@ == detail_thinking(model[k]),
            decreases rest@.len(),
        {
            assert(rest@[0]@ == model[out@.len() as int]);
            let d = rest.remove(0);
            out.push(thinking_from_detail(d));
        }
        assert(thinking_views(out@) =~= model.map_values(|d: JsonView| detail_thinking(d)));
    } else {
        match text {
            Some(t) => {
                out.push(ThinkingContent::new(t));
                assert(thinking_views(out@) =~= seq![plain_thinking(t@)]);
            },
            None => {
                assert(thinking_views(out@) =~= Seq::empty());
            },
        }
    }
    out
}

fn read_calls(calls: Vec<ResponseToolCall>) -> (r: Result<Vec<ToolCall>, ProviderError>)
    ensures
        match (calls_of(response_call_views(calls@)), r) {
            (Ok(cs), Ok(v)) => call_views(v@) == cs,
            (Err(why), Err(e)) => e@ == ProviderErrorView::Decode(why),
            _ => false,
        },
{
    let ghost views = response_call_views(calls@);
    let n: usize = calls.len();
    let mut rest = calls;
    let mut out: Vec<ToolCall> = Vec::new();
    let mut i: usize = 0;
    assert(call_views(out@) =~= Seq::empty());
    while i < n
        invariant
            i <= n,
            n == views.len(),
            rest@.len() == n - i,
            views == response_call_views(calls@),
            forall|k: int| 0 <= k < n - i ==> (#[trigger] rest@[k])@ == views[i + k],
            calls_of(views.take(i as int)) == Ok::<_, Seq<char>>(call_views(out@)),
        decreases n - i,
    {
        let ghost next = views.take(i + 1);
        let ghost before = call_views(out@);
        assert(next.drop_last() =~= views.take(i as int));
        assert(rest@[0]@ == next.last());
        let c = rest.remove(0);
        match Json::parse(c.arguments.as_str()) {
            Ok(j) => {
                out.push(ToolCall { id: c.id, name: c.name, arguments: j });
                assert(call_views(out@) =~= before.push(out@.last()@));
            },
            Err(m) => {
                proof {
                    lemma_refusal_stays(views, i + 1, m@);
                }
                return Err(ProviderError::Decode(m));
            },
        }
        i = i + 1;
    }
    assert(views.take(i as int) =~= views);
    Ok(out)
}

proof fn lemma_refusal_stays(cs: Seq<ResponseCallView>, n: int, why: Seq<char>)
    requires
        0 <= n <= cs.len(),
        calls_of(cs.take(n)) == Err::<Seq<ToolCallView>, Seq<char>>(why),
    ensures
        calls_of(cs) == Err::<Seq<ToolCallView>, Seq<char>>(why),
    decreases cs.len(),
{
    if n < cs.len() {
        assert(cs.drop_last().take(n) =~= cs.take(n));
        lemma_refusal_stays(cs.drop_last(), n, why);
    } else {
        assert(cs.take(n) =~= cs);
    }
}

/// The message that the message of a response makes.
pub fn message_from_response(m: ResponseMessage) -> (r: Result<Message, ProviderError>)
    ensures
        match (message_of(m@), r) {
            (Ok(v), Ok(msg)) => msg@ == v,
            (Err(v), Err(e)) => e@ == v,
            _ => false,
        },
{
    let role = match parse_role(m.role.as_str()) {
        Some(role) => role,
        None => {
            return Err(ProviderError::UnknownRole(m.role));
        },
    };
    let calls = match read_calls(m.tool_calls) {
        Ok(v) => v,
        Err(e) => {
            return Err(e);
        },
    };
    let text = match m.reasoning_content {
        Some(t) => Some(t),
        None => m.reasoning,
    };
    let mut msg = Message::of_text(role, m.content.as_str());
    msg.tool_calls = calls;
    msg.thinking_content = assemble_thinking(m.reasoning_details, text);
    Ok(msg)
}

/// The message that a response makes.
pub fn parse_response(resp: ChatResponse) -> (r: Result<Message, ProviderError>)
    ensures
        match (reply_of(resp), r) {
            (Ok(v), Ok(msg)) => msg@ == v,
            (Err(v), Err(e)) => e@ == v,
            _ => false,
        },
{
    let mut choices = resp.choices;
    if choices.len() == 0 {
        return Err(ProviderError::EmptyResponse);
    }
    let choice = choices.remove(0);
    match message_from_response(choice.message) {
        Ok(m) => {
            let mut reply = m;
            match resp.usage {
                Some(u) => {
                    reply.token_count = Some(u.total_tokens);
                    reply.context_tokens = Some(u.prompt_tokens);
                },
                None => {},
            }
            reply.finish_reason = opt_finish_reason(&choice.finish_reason);
            Ok(reply)
        },
        Err(e) => Err(e),
    }
}

} // verus!
