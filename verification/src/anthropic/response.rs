//! Messages out of the responses of Anthropic's API.

use vstd::prelude::*;
use crate::json::{Json, JsonView};
use crate::message::{
    call_views, thinking_views, BlockView, ContentBlock, FinishReason, FinishView, Message,
    MessageView, Role, ThinkingContent, ThinkingView, ToolCall, ToolCallView,
};
use crate::text::{opt_text, text_eq};

verus! {

/// One block of a response.
#[derive(Debug)]
pub enum ResponseBlock {
    Text { text: String },
    ToolUse { id: String, name: String, input: Json },
    Thinking { thinking: String, signature: String },
    RedactedThinking { data: String },
    ServerToolUse { id: String, name: String, input: Json },
    Unknown,
}

/// The model of a response block.
pub ghost enum ResponseBlockView {
    Text { text: Seq<char> },
    ToolUse { id: Seq<char>, name: Seq<char>, input: JsonView },
    Thinking { thinking: Seq<char>, signature: Seq<char> },
    RedactedThinking { data: Seq<char> },
    ServerToolUse { id: Seq<char>, name: Seq<char>, input: JsonView },
    Unknown,
}

impl View for ResponseBlock {
    type V = ResponseBlockView;

    open spec fn view(&self) -> ResponseBlockView {
        match self {
            ResponseBlock::Text { text } => ResponseBlockView::Text { text: text@ },
            ResponseBlock::ToolUse { id, name, input } => ResponseBlockView::ToolUse {
                id: id@,
                name: name@,
                input: input@,
            },
            ResponseBlock::Thinking { thinking, signature } => ResponseBlockView::Thinking {
                thinking: thinking@,
                signature: signature@,
            },
            ResponseBlock::RedactedThinking { data } => ResponseBlockView::RedactedThinking {
                data: data@,
            },
            ResponseBlock::ServerToolUse { id, name, input } => ResponseBlockView::ServerToolUse {
                id: id@,
                name: name@,
                input: input@,
            },
            ResponseBlock::Unknown => ResponseBlockView::Unknown,
        }
    }
}

/// The models of response blocks.
pub open spec fn response_views(s: Seq<ResponseBlock>) -> Seq<ResponseBlockView> {
    s.map_values(|b: ResponseBlock| b@)
}

/// Token counts of a response.
#[derive(Clone, Copy, Debug, PartialEq, Eq, Structural)]
pub struct Usage {
    pub input_tokens: Option<usize>,
    pub output_tokens: Option<usize>,
    pub cache_creation_input_tokens: Option<usize>,
    pub cache_read_input_tokens: Option<usize>,
}

/// An optional count, taken as nothing where it is missing.
pub open spec fn count(n: Option<usize>) -> int {
    match n {
        Some(k) => k as int,
        None => 0,
    }
}

/// All input tokens, cache writes and reads counted in.
pub open spec fn total_input_of(u: Usage) -> int {
    count(u.input_tokens) + count(u.cache_creation_input_tokens) + count(u.cache_read_input_tokens)
}

/// Whether the sums that are formed of the counts fit in a `usize`.
pub open spec fn usage_fits(u: Usage) -> bool {
    u.input_tokens is Some ==> total_input_of(u) + count(u.output_tokens) <= usize::MAX
}

/// The context size that a usage reports.
pub open spec fn context_of(u: Option<Usage>) -> Option<usize> {
    match u {
        Some(u) => if u.input_tokens is Some {
            Some(total_input_of(u) as usize)
        } else {
            None
        },
        None => None,
    }
}

/// The tokens of input and output together, where both are reported.
pub open spec fn tokens_of(u: Option<Usage>) -> Option<usize> {
    match u {
        Some(u) => if u.input_tokens is Some && u.output_tokens is Some {
            Some((total_input_of(u) + count(u.output_tokens)) as usize)
        } else {
            None
        },
        None => None,
    }
}

impl Usage {
    /// All input tokens, cache writes and reads counted in. The provider
    /// reports as `input_tokens` only what was not cached.
    pub fn total_input(&self) -> (r: Option<usize>)
        requires
            self.input_tokens is Some ==> total_input_of(*self) <= usize::MAX,
        ensures
            r == context_of(Some(*self)),
    {
        match self.input_tokens {
            Some(i) => {
                let c: usize = match self.cache_creation_input_tokens {
                    Some(n) => n,
                    None => 0,
                };
                let d: usize = match self.cache_read_input_tokens {
                    Some(n) => n,
                    None => 0,
                };
                Some(i + c + d)
            },
            None => None,
        }
    }

    fn all_tokens(&self) -> (r: Option<usize>)
        requires
            usage_fits(*self),
        ensures
            r == tokens_of(Some(*self)),
    {
        match (self.total_input(), self.output_tokens) {
            (Some(i), Some(o)) => Some(i + o),
            _ => None,
        }
    }
}

/// The texts of the text blocks, each on a line of its own; an empty text
/// opens no line.
pub open spec fn response_text(bs: Seq<ResponseBlockView>) -> Seq<char>
    decreases bs.len(),
{
    if bs.len() == 0 {
        Seq::empty()
    } else {
        let front = response_text(bs.drop_last());
        match bs.last() {
            ResponseBlockView::Text { text } => if front.len() > 0 {
                front.push('\n') + text
            } else {
                text
            },
            _ => front,
        }
    }
}

/// The tool calls of a response, in order.
pub open spec fn response_calls(bs: Seq<ResponseBlockView>) -> Seq<ToolCallView>
    decreases bs.len(),
{
    if bs.len() == 0 {
        Seq::empty()
    } else {
        let front = response_calls(bs.drop_last());
        match bs.last() {
            ResponseBlockView::ToolUse { id, name, input } => front.push(
                ToolCallView { id, name, arguments: input },
            ),
            ResponseBlockView::ServerToolUse { id, name, input } => front.push(
                ToolCallView { id, name, arguments: input },
            ),
            _ => front,
        }
    }
}

/// The thinking blocks of a response, in order.
pub open spec fn response_thinking(bs: Seq<ResponseBlockView>) -> Seq<ThinkingView>
    decreases bs.len(),
{
    if bs.len() == 0 {
        Seq::empty()
    } else {
        let front = response_thinking(bs.drop_last());
        match bs.last() {
            ResponseBlockView::Thinking { thinking, signature } => front.push(
                ThinkingView {
                    text: thinking,
                    signature: Some(signature),
                    redacted_data: None,
                    details: None,
                },
            ),
            ResponseBlockView::RedactedThinking { data } => front.push(
                ThinkingView {
                    text: Seq::empty(),
                    signature: None,
                    redacted_data: Some(data),
                    details: None,
                },
            ),
            _ => front,
        }
    }
}

/// The message that the blocks of a response make.
pub open spec fn response_message(
    bs: Seq<ResponseBlockView>,
    usage: Option<Usage>,
    stop_reason: Option<Seq<char>>,
) -> MessageView {
    MessageView {
        role: Role::Assistant,
        content: seq![BlockView::Text { text: response_text(bs) }],
        thinking_content: response_thinking(bs),
        tool_calls: response_calls(bs),
        tool_call_id: None,
        token_count: tokens_of(usage),
        context_tokens: context_of(usage),
        compacted: false,
        finish_reason: match stop_reason {
            Some(raw) => Some(finish_of(raw)),
            None => None,
        },
    }
}

/// What a stop reason means.
pub open spec fn finish_of(raw: Seq<char>) -> FinishView {
    if raw == "end_turn"@ || raw == "stop_sequence"@ || raw == "pause_turn"@ {
        FinishView::Stop
    } else if raw == "max_tokens"@ || raw == "model_context_window_exceeded"@ {
        FinishView::Length
    } else if raw == "tool_use"@ {
        FinishView::ToolCalls
    } else if raw == "refusal"@ {
        FinishView::Refusal
    } else {
        FinishView::Other(raw)
    }
}

/// What a stop reason means. An unknown one is kept.
pub fn map_stop_reason(raw: &str) -> (r: FinishReason)
    ensures
        r@ == finish_of(raw@),
{
    if text_eq(raw, "end_turn") || text_eq(raw, "stop_sequence") || text_eq(raw, "pause_turn") {
        FinishReason::Stop
    } else if text_eq(raw, "max_tokens") || text_eq(raw, "model_context_window_exceeded") {
        FinishReason::Length
    } else if text_eq(raw, "tool_use") {
        FinishReason::ToolCalls
    } else if text_eq(raw, "refusal") {
        FinishReason::Refusal
    } else {
        FinishReason::Other(raw.to_owned())
    }
}

/// The message that the blocks of a response make.
pub fn message_from_blocks(
    blocks: Vec<ResponseBlock>,
    usage: Option<Usage>,
    stop_reason: Option<String>,
) -> (r: Message)
    requires
        usage is Some ==> usage_fits(usage->0),
    ensures
        r@ == response_message(response_views(blocks@), usage, opt_text(stop_reason)),
{
    let ghost views = response_views(blocks@);
    let token_count = match &usage {
        Some(u) => u.all_tokens(),
        None => None,
    };
    let context_tokens = match &usage {
        Some(u) => u.total_input(),
        None => None,
    };
    let mut content = String::new();
    let mut tool_calls: Vec<ToolCall> = Vec::new();
    let mut thinking_content: Vec<ThinkingContent> = Vec::new();
    let n: usize = blocks.len();
    let mut rest = blocks;
    let mut i: usize = 0;
    assert(call_views(tool_calls@) =~= response_calls(views.take(0)));
    assert(thinking_views(thinking_content@) =~= response_thinking(views.take(0)));
    while i < n
        invariant
            i <= n,
            n == views.len(),
            rest@.len() == n - i,
            forall|k: int| 0 <= k < n - i ==> (#[trigger] rest@[k])@ == views[i + k],
            content@ == response_text(views.take(i as int)),
            call_views(tool_calls@) == response_calls(views.take(i as int)),
            thinking_views(thinking_content@) == response_thinking(views.take(i as int)),
        decreases n - i,
    {
        let ghost next = views.take(i + 1);
        let ghost calls = call_views(tool_calls@);
        let ghost thoughts = thinking_views(thinking_content@);
        assert(next.drop_last() =~= views.take(i as int));
        assert(rest@[0]@ == next.last());
        let block = rest.remove(0);
        match block {
            ResponseBlock::Text { text } => {
                if !content.as_str().is_empty() {
                    content.push('\n');
                } else {
                    assert(content@ + text@ =~= text@);
                }
                content.append(text.as_str());
            },
            ResponseBlock::ToolUse { id, name, input }
            | ResponseBlock::ServerToolUse { id, name, input } => {
                tool_calls.push(ToolCall { id, name, arguments: input });
                assert(call_views(tool_calls@) =~= calls.push(tool_calls@.last()@));
            },
            ResponseBlock::Thinking { thinking, signature } => {
                thinking_content.push(
                    ThinkingContent {
                        text: thinking,
                        signature: Some(signature),
                        redacted_data: None,
                        details: None,
                    },
                );
                assert(thinking_views(thinking_content@) =~= thoughts.push(
                    thinking_content@.last()@,
                ));
            },
            ResponseBlock::RedactedThinking { data } => {
                thinking_content.push(
                    ThinkingContent {
                        text: String::new(),
                        signature: None,
                        redacted_data: Some(data),
                        details: None,
                    },
                );
                assert(thinking_content@.last()@.text =~= Seq::empty());
                assert(thinking_views(thinking_content@) =~= thoughts.push(
                    thinking_content@.last()@,
                ));
            },
            ResponseBlock::Unknown => {},
        }
        i = i + 1;
    }
    assert(views.take(i as int) =~= views);
    let finish_reason = match &stop_reason {
        Some(raw) => Some(map_stop_reason(raw.as_str())),
        None => None,
    };
    let r = Message {
        role: Role::Assistant,
        content: vec![ContentBlock::Text { text: content }],
        thinking_content,
        tool_calls,
        tool_call_id: None,
        token_count,
        context_tokens,
        compacted: false,
        finish_reason,
    };
    assert(r@.content =~= seq![BlockView::Text { text: response_text(views) }]);
    r
}

/// A response to a request that was not streamed.
#[derive(Debug)]
pub struct MessagesResponse {
    pub content: Vec<ResponseBlock>,
    pub stop_reason: Option<String>,
    pub usage: Option<Usage>,
}

/// The message of a response.
pub fn parse_response(resp: MessagesResponse) -> (r: Message)
    requires
        resp.usage is Some ==> usage_fits(resp.usage->0),
    ensures
        r@ == response_message(
            response_views(resp.content@),
            resp.usage,
            opt_text(resp.stop_reason),
        ),
{
    message_from_blocks(resp.content, resp.usage, resp.stop_reason)
}

} // verus!
