//! The conversation model: messages, their content and the tools they speak
//! of.

use vstd::prelude::*;
use crate::json::{opt_json, Json, JsonView};
use crate::text::{
    join, joined, lemma_flat_map_add, lemma_flat_map_last, opt_text, texts,
};

verus! {

/// The version under which the toolkit announces itself.
pub const SWEET_VERSION: &'static str = "0.1.0";

/// Who a message is from.
#[derive(Clone, Copy, Debug, PartialEq, Eq, Structural)]
pub enum Role {
    System,
    User,
    Assistant,
    Tool,
}

/// One piece of a message's content.
#[derive(Debug, PartialEq)]
pub enum ContentBlock {
    Text { text: String },
    Image { data: Vec<u8>, media_type: String },
    File { data: Vec<u8>, media_type: String, filename: String },
}

/// The model of a content block.
pub ghost enum BlockView {
    Text { text: Seq<char> },
    Image { data: Seq<u8>, media_type: Seq<char> },
    File { data: Seq<u8>, media_type: Seq<char>, filename: Seq<char> },
}

impl View for ContentBlock {
    type V = BlockView;

    open spec fn view(&self) -> BlockView {
        match self {
            ContentBlock::Text { text } => BlockView::Text { text: text@ },
            ContentBlock::Image { data, media_type } => BlockView::Image {
                data: data@,
                media_type: media_type@,
            },
            ContentBlock::File { data, media_type, filename } => BlockView::File {
                data: data@,
                media_type: media_type@,
                filename: filename@,
            },
        }
    }
}

/// A block of the model's own reasoning.
#[derive(Debug)]
pub struct ThinkingContent {
    /// The readable reasoning.
    pub text: String,
    /// The provider's proof of origin.
    pub signature: Option<String>,
    /// Reasoning that the provider sent encrypted.
    pub redacted_data: Option<String>,
    /// The provider's structured block, kept to be replayed verbatim.
    pub details: Option<Json>,
}

/// The model of a thinking block.
pub ghost struct ThinkingView {
    pub text: Seq<char>,
    pub signature: Option<Seq<char>>,
    pub redacted_data: Option<Seq<char>>,
    pub details: Option<JsonView>,
}

impl View for ThinkingContent {
    type V = ThinkingView;

    open spec fn view(&self) -> ThinkingView {
        ThinkingView {
            text: self.text@,
            signature: opt_text(self.signature),
            redacted_data: opt_text(self.redacted_data),
            details: opt_json(self.details),
        }
    }
}

/// The thinking block that carries a text and nothing else.
pub open spec fn plain_thinking(text: Seq<char>) -> ThinkingView {
    ThinkingView { text, signature: None, redacted_data: None, details: None }
}

impl ThinkingContent {
    /// A block that carries `text` and nothing else.
    pub fn new(text: String) -> (r: ThinkingContent)
        ensures
            r@ == plain_thinking(text@),
    {
        ThinkingContent { text, signature: None, redacted_data: None, details: None }
    }
}

/// A call of a tool that the model asks for.
#[derive(Debug)]
pub struct ToolCall {
    pub id: String,
    pub name: String,
    pub arguments: Json,
}

/// The model of a tool call.
pub ghost struct ToolCallView {
    pub id: Seq<char>,
    pub name: Seq<char>,
    pub arguments: JsonView,
}

impl View for ToolCall {
    type V = ToolCallView;

    open spec fn view(&self) -> ToolCallView {
        ToolCallView { id: self.id@, name: self.name@, arguments: self.arguments@ }
    }
}

/// Why the model stopped.
#[derive(Debug, PartialEq)]
pub enum FinishReason {
    Stop,
    Length,
    ToolCalls,
    Refusal,
    Other(String),
}

/// The model of a finish reason.
pub ghost enum FinishView {
    Stop,
    Length,
    ToolCalls,
    Refusal,
    Other(Seq<char>),
}

impl View for FinishReason {
    type V = FinishView;

    open spec fn view(&self) -> FinishView {
        match self {
            FinishReason::Stop => FinishView::Stop,
            FinishReason::Length => FinishView::Length,
            FinishReason::ToolCalls => FinishView::ToolCalls,
            FinishReason::Refusal => FinishView::Refusal,
            FinishReason::Other(s) => FinishView::Other(s@),
        }
    }
}

/// The model of an optional finish reason.
pub open spec fn opt_finish(f: Option<FinishReason>) -> Option<FinishView> {
    match f {
        Some(r) => Some(r@),
        None => None,
    }
}

/// One turn of a conversation.
#[derive(Debug)]
pub struct Message {
    pub role: Role,
    pub content: Vec<ContentBlock>,
    pub thinking_content: Vec<ThinkingContent>,
    pub tool_calls: Vec<ToolCall>,
    pub tool_call_id: Option<String>,
    pub token_count: Option<usize>,
    pub context_tokens: Option<usize>,
    pub compacted: bool,
    pub finish_reason: Option<FinishReason>,
}

/// The model of a message.
pub ghost struct MessageView {
    pub role: Role,
    pub content: Seq<BlockView>,
    pub thinking_content: Seq<ThinkingView>,
    pub tool_calls: Seq<ToolCallView>,
    pub tool_call_id: Option<Seq<char>>,
    pub token_count: Option<usize>,
    pub context_tokens: Option<usize>,
    pub compacted: bool,
    pub finish_reason: Option<FinishView>,
}

/// The models of content blocks.
pub open spec fn block_views(s: Seq<ContentBlock>) -> Seq<BlockView> {
    s.map_values(|b: ContentBlock| b@)
}

/// The models of thinking blocks.
pub open spec fn thinking_views(s: Seq<ThinkingContent>) -> Seq<ThinkingView> {
    s.map_values(|t: ThinkingContent| t@)
}

/// The models of tool calls.
pub open spec fn call_views(s: Seq<ToolCall>) -> Seq<ToolCallView> {
    s.map_values(|c: ToolCall| c@)
}

/// The models of messages.
pub open spec fn message_views(s: Seq<Message>) -> Seq<MessageView> {
    s.map_values(|m: Message| m@)
}

impl View for Message {
    type V = MessageView;

    open spec fn view(&self) -> MessageView {
        MessageView {
            role: self.role,
            content: block_views(self.content@),
            thinking_content: thinking_views(self.thinking_content@),
            tool_calls: call_views(self.tool_calls@),
            tool_call_id: opt_text(self.tool_call_id),
            token_count: self.token_count,
            context_tokens: self.context_tokens,
            compacted: self.compacted,
            finish_reason: opt_finish(self.finish_reason),
        }
    }
}

/// A message of one text block and nothing else.
pub open spec fn plain_message(role: Role, text: Seq<char>) -> MessageView {
    blocks_message(role, seq![BlockView::Text { text }])
}

/// A message of the given blocks and nothing else.
pub open spec fn blocks_message(role: Role, content: Seq<BlockView>) -> MessageView {
    MessageView {
        role,
        content,
        thinking_content: Seq::empty(),
        tool_calls: Seq::empty(),
        tool_call_id: None,
        token_count: None,
        context_tokens: None,
        compacted: false,
        finish_reason: None,
    }
}

/// The texts of the text blocks, one after the other.
pub open spec fn content_text(blocks: Seq<BlockView>) -> Seq<char>
    decreases blocks.len(),
{
    if blocks.len() == 0 {
        Seq::empty()
    } else {
        match blocks.last() {
            BlockView::Text { text } => content_text(blocks.drop_last()) + text,
            _ => content_text(blocks.drop_last()),
        }
    }
}

/// Whether some block is an image.
pub open spec fn holds_image(blocks: Seq<BlockView>) -> bool {
    exists|i: int| 0 <= i < blocks.len() && #[trigger] blocks[i] is Image
}

/// Whether some block is a file.
pub open spec fn holds_file(blocks: Seq<BlockView>) -> bool {
    exists|i: int| 0 <= i < blocks.len() && #[trigger] blocks[i] is File
}

impl Message {
    /// A message of the given blocks and nothing else.
    pub fn of_blocks(role: Role, content: Vec<ContentBlock>) -> (r: Message)
        ensures
            r@ == blocks_message(role, block_views(content@)),
    {
        let r = Message {
            role,
            content,
            thinking_content: Vec::new(),
            tool_calls: Vec::new(),
            tool_call_id: None,
            token_count: None,
            context_tokens: None,
            compacted: false,
            finish_reason: None,
        };
        assert(r@.thinking_content =~= Seq::empty());
        assert(r@.tool_calls =~= Seq::empty());
        r
    }

    /// A message of one text block and nothing else.
    pub fn of_text(role: Role, text: &str) -> (r: Message)
        ensures
            r@ == plain_message(role, text@),
    {
        let r = Message::of_blocks(role, vec![ContentBlock::Text { text: text.to_owned() }]);
        assert(r@.content =~= seq![BlockView::Text { text: text@ }]);
        r
    }

    /// A system message.
    pub fn system(text: &str) -> (r: Message)
        ensures
            r@ == plain_message(Role::System, text@),
    {
        Message::of_text(Role::System, text)
    }

    /// A user message.
    pub fn user(text: &str) -> (r: Message)
        ensures
            r@ == plain_message(Role::User, text@),
    {
        Message::of_text(Role::User, text)
    }

    /// A user message made of blocks.
    pub fn user_blocks(content: Vec<ContentBlock>) -> (r: Message)
        ensures
            r@ == blocks_message(Role::User, block_views(content@)),
    {
        Message::of_blocks(Role::User, content)
    }

    /// An assistant message.
    pub fn assistant(text: &str) -> (r: Message)
        ensures
            r@ == plain_message(Role::Assistant, text@),
    {
        Message::of_text(Role::Assistant, text)
    }

    /// An assistant message that asks for tool calls and says nothing.
    pub fn with_tool_calls(calls: Vec<ToolCall>) -> (r: Message)
        ensures
            r@ == (MessageView {
                tool_calls: call_views(calls@),
                ..blocks_message(Role::Assistant, Seq::empty())
            }),
    {
        let mut r = Message::of_blocks(Role::Assistant, Vec::new());
        r.tool_calls = calls;
        assert(r@.content =~= Seq::empty());
        r
    }

    /// The result of a tool call.
    pub fn tool_result(call_id: &str, text: &str) -> (r: Message)
        ensures
            r@ == (MessageView {
                tool_call_id: Some(call_id@),
                ..plain_message(Role::Tool, text@)
            }),
    {
        let mut r = Message::of_text(Role::Tool, text);
        r.tool_call_id = Some(call_id.to_owned());
        r
    }

    /// The texts of the text blocks, one after the other.
    pub fn text_content(&self) -> (r: String)
        ensures
            r@ == content_text(self@.content),
    {
        let mut out = String::new();
        let mut i: usize = 0;
        while i < self.content.len()
            invariant
                i <= self.content@.len(),
                out@ == content_text(self@.content.take(i as int)),
            decreases self.content@.len() - i,
        {
            let ghost next = self@.content.take(i + 1);
            assert(next.drop_last() =~= self@.content.take(i as int));
            assert(next.last() == self.content@[i as int]@);
            match &self.content[i] {
                ContentBlock::Text { text } => out.append(text.as_str()),
                _ => {},
            }
            i = i + 1;
        }
        assert(self@.content.take(i as int) =~= self@.content);
        out
    }

    /// Whether some block is an image.
    pub fn has_images(&self) -> (r: bool)
        ensures
            r == holds_image(self@.content),
    {
        let mut i: usize = 0;
        while i < self.content.len()
            invariant
                i <= self.content@.len(),
                forall|k: int| 0 <= k < i ==> !(#[trigger] self@.content[k] is Image),
            decreases self.content@.len() - i,
        {
            assert(self@.content[i as int] == self.content@[i as int]@);
            match &self.content[i] {
                ContentBlock::Image { .. } => {
                    return true;
                },
                _ => {},
            }
            i = i + 1;
        }
        false
    }

    /// Whether some block is a file.
    pub fn has_files(&self) -> (r: bool)
        ensures
            r == holds_file(self@.content),
    {
        let mut i: usize = 0;
        while i < self.content.len()
            invariant
                i <= self.content@.len(),
                forall|k: int| 0 <= k < i ==> !(#[trigger] self@.content[k] is File),
            decreases self.content@.len() - i,
        {
            assert(self@.content[i as int] == self.content@[i as int]@);
            match &self.content[i] {
                ContentBlock::File { .. } => {
                    return true;
                },
                _ => {},
            }
            i = i + 1;
        }
        false
    }

    /// Whether some block is an image or a file.
    pub fn has_attachments(&self) -> (r: bool)
        ensures
            r == (holds_image(self@.content) || holds_file(self@.content)),
    {
        self.has_images() || self.has_files()
    }
}

/// The texts of the system messages.
pub open spec fn system_texts(ms: Seq<MessageView>) -> Seq<Seq<char>>
    decreases ms.len(),
{
    if ms.len() == 0 {
        Seq::empty()
    } else {
        let front = system_texts(ms.drop_last());
        if ms.last().role == Role::System {
            front.push(content_text(ms.last().content))
        } else {
            front
        }
    }
}

/// The system prompt: the system messages joined line by line.
pub open spec fn system_prompt(ms: Seq<MessageView>) -> Option<Seq<char>> {
    if system_texts(ms).len() == 0 {
        None
    } else {
        Some(joined(system_texts(ms), "\n"@))
    }
}

/// The system prompt: the system messages joined line by line.
pub fn system_text(messages: &Vec<Message>) -> (r: Option<String>)
    ensures
        opt_text(r) == system_prompt(message_views(messages@)),
{
    let ghost ms = message_views(messages@);
    let mut parts: Vec<String> = Vec::new();
    let mut i: usize = 0;
    assert(texts(parts@) =~= system_texts(ms.take(0)));
    while i < messages.len()
        invariant
            i <= messages@.len(),
            ms == message_views(messages@),
            texts(parts@) == system_texts(ms.take(i as int)),
        decreases messages@.len() - i,
    {
        let ghost next = ms.take(i + 1);
        let ghost before = texts(parts@);
        assert(next.drop_last() =~= ms.take(i as int));
        assert(next.last() == messages@[i as int]@);
        if messages[i].role == Role::System {
            parts.push(messages[i].text_content());
            assert(texts(parts@) =~= before.push(content_text(next.last().content)));
        }
        i = i + 1;
    }
    assert(ms.take(i as int) =~= ms);
    assert(texts(parts@).len() == parts@.len());
    if parts.len() == 0 {
        None
    } else {
        Some(join(&parts, "\n"))
    }
}

/// How many tool messages stand at the front.
pub open spec fn tool_run(ms: Seq<MessageView>) -> int
    decreases ms.len(),
{
    if ms.len() > 0 && ms[0].role == Role::Tool {
        1 + tool_run(ms.skip(1))
    } else {
        0
    }
}

/// A run of tool messages has the length that `tool_run` gives.
pub proof fn lemma_tool_run(ms: Seq<MessageView>, n: int)
    requires
        0 <= n <= ms.len(),
        forall|i: int| 0 <= i < n ==> (#[trigger] ms[i]).role == Role::Tool,
        n < ms.len() ==> ms[n].role != Role::Tool,
    ensures
        tool_run(ms) == n,
    decreases ms.len(),
{
    if n > 0 {
        let rest = ms.skip(1);
        assert(ms[0].role == Role::Tool);
        assert forall|i: int| 0 <= i < n - 1 implies (#[trigger] rest[i]).role == Role::Tool by {
            assert(rest[i] == ms[i + 1]);
        }
        lemma_tool_run(rest, n - 1);
    }
}

/// A tool as it is described to a model.
#[derive(Debug)]
pub struct ToolSpec {
    pub name: String,
    pub description: String,
    /// The schema of the arguments, in the subset of JSON Schema that the
    /// provider accepts.
    pub parameters_schema: Json,
}

/// The model of a tool description.
pub ghost struct ToolSpecView {
    pub name: Seq<char>,
    pub description: Seq<char>,
    pub parameters_schema: JsonView,
}

impl View for ToolSpec {
    type V = ToolSpecView;

    open spec fn view(&self) -> ToolSpecView {
        ToolSpecView {
            name: self.name@,
            description: self.description@,
            parameters_schema: self.parameters_schema@,
        }
    }
}

/// The models of tool descriptions.
pub open spec fn tool_views(s: Seq<ToolSpec>) -> Seq<ToolSpecView> {
    s.map_values(|t: ToolSpec| t@)
}

/// The text of a message is the texts of all its text blocks, one after the
/// other; a block of another kind adds nothing. So the text of one list of
/// blocks before another is the two texts.
pub proof fn law_text_is_every_text_block(a: Seq<BlockView>, b: Seq<BlockView>)
    ensures
        content_text(a) == a.flat_map(
            |x: BlockView|
                match x {
                    BlockView::Text { text } => text,
                    _ => Seq::empty(),
                },
        ),
        content_text(a + b) == content_text(a) + content_text(b),
{
    lemma_text_of_blocks(a);
    lemma_text_of_blocks(b);
    lemma_text_of_blocks(a + b);
    lemma_flat_map_add(
        a,
        b,
        |x: BlockView|
            match x {
                BlockView::Text { text } => text,
                _ => Seq::empty(),
            },
    );
}

proof fn lemma_text_of_blocks(a: Seq<BlockView>)
    ensures
        content_text(a) == a.flat_map(
            |x: BlockView|
                match x {
                    BlockView::Text { text } => text,
                    _ => Seq::empty(),
                },
        ),
    decreases a.len(),
{
    let f = |x: BlockView|
        match x {
            BlockView::Text { text } => text,
            _ => Seq::empty(),
        };
    if a.len() > 0 {
        lemma_text_of_blocks(a.drop_last());
        lemma_flat_map_last(a, f);
        assert(content_text(a.drop_last()) + Seq::<char>::empty() =~= content_text(a.drop_last()));
    }
}

/// A message of one text has that text, and the blocks of a message keep
/// their order and their number.
pub proof fn law_plain_message_reads_back(role: Role, text: Seq<char>)
    ensures
        content_text(plain_message(role, text).content) == text,
        plain_message(role, text).role == role,
        plain_message(role, text).tool_calls.len() == 0,
        plain_message(role, text).thinking_content.len() == 0,
        plain_message(role, text).tool_call_id is None,
        plain_message(role, text).finish_reason is None,
        plain_message(role, text).token_count is None,
        plain_message(role, text).context_tokens is None,
        !plain_message(role, text).compacted,
{
    let blocks = plain_message(role, text).content;
    assert(content_text(blocks.drop_last()) =~= Seq::empty());
    assert(Seq::<char>::empty() + text =~= text);
}

/// The system prompt holds the text of every system message and of no other,
/// in their order and a line break between each two; there is none exactly
/// where there is no system message.
pub proof fn law_system_prompt_is_every_system_message(ms: Seq<MessageView>)
    ensures
        ({
            let system = ms.filter(|m: MessageView| m.role == Role::System);
            match system_prompt(ms) {
                Some(text) => system.len() > 0 && text == joined(
                    system.map_values(|m: MessageView| content_text(m.content)),
                    "\n"@,
                ),
                None => system.len() == 0,
            }
        }),
        system_prompt(ms) is Some <==> exists|i: int|
            0 <= i < ms.len() && (#[trigger] ms[i]).role == Role::System,
{
    lemma_system_texts(ms);
    let f = |m: MessageView| m.role == Role::System;
    let system = ms.filter(f);
    if system_prompt(ms) is Some {
        ms.lemma_filter_pred(f, 0);
        assert(system.contains(system[0]));
        ms.lemma_filter_contains_rev(f, system[0]);
        let i = choose|i: int| 0 <= i < ms.len() && ms[i] == system[0];
        assert(ms[i].role == Role::System);
    }
    if exists|i: int| 0 <= i < ms.len() && (#[trigger] ms[i]).role == Role::System {
        let i = choose|i: int| 0 <= i < ms.len() && (#[trigger] ms[i]).role == Role::System;
        ms.lemma_filter_contains(f, i);
    }
}

proof fn lemma_system_texts(ms: Seq<MessageView>)
    ensures
        system_texts(ms) == ms.filter(|m: MessageView| m.role == Role::System).map_values(
            |m: MessageView| content_text(m.content),
        ),
    decreases ms.len(),
{
    reveal(Seq::filter);
    if ms.len() > 0 {
        lemma_system_texts(ms.drop_last());
    }
    assert(system_texts(ms) =~= ms.filter(|m: MessageView| m.role == Role::System).map_values(
        |m: MessageView| content_text(m.content),
    ));
}

/// A run of tool messages ends before the first message of another role, and
/// not earlier.
pub proof fn law_tool_run_is_the_whole_run(ms: Seq<MessageView>)
    ensures
        0 <= tool_run(ms) <= ms.len(),
        forall|i: int| 0 <= i < tool_run(ms) ==> (#[trigger] ms[i]).role == Role::Tool,
        tool_run(ms) < ms.len() ==> ms[tool_run(ms)].role != Role::Tool,
    decreases ms.len(),
{
    if ms.len() > 0 && ms[0].role == Role::Tool {
        let rest = ms.skip(1);
        law_tool_run_is_the_whole_run(rest);
        assert forall|i: int| 0 <= i < tool_run(ms) implies (#[trigger] ms[i]).role
            == Role::Tool by {
            if i > 0 {
                assert(rest[i - 1] == ms[i]);
            }
        }
    }
}

} // verus!
