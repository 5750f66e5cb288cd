//! The streamed form of a response: events in, deltas and tool calls out, and
//! a message at the end.

use vstd::prelude::*;
use crate::anthropic::response::{
    message_from_blocks, response_message, response_views, usage_fits, ResponseBlock,
    ResponseBlockView, Usage,
};
use crate::arguments::{call_input, parse_input};
use crate::error::{ProviderError, ProviderErrorView};
use crate::json::json_failure;
use crate::message::{Message, ToolCall, ToolCallView};
use crate::text::{join2, opt_text};

verus! {

/// A change of a block.
#[derive(Debug)]
pub enum StreamDelta {
    TextDelta { text: String },
    InputJsonDelta { partial_json: String },
    ThinkingDelta { thinking: String },
    SignatureDelta { signature: String },
    Other,
}

/// What a message delta changes.
#[derive(Debug)]
pub struct MessageDeltaInner {
    pub stop_reason: Option<String>,
}

/// An event of a stream.
#[derive(Debug)]
#[allow(inconsistent_fields)]
pub enum StreamEvent {
    MessageStart { usage: Option<Usage> },
    ContentBlockStart { index: usize, content_block: ResponseBlock },
    ContentBlockDelta { index: usize, delta: StreamDelta },
    ContentBlockStop { index: usize },
    MessageDelta { delta: Option<MessageDeltaInner>, usage: Option<Usage> },
    MessageStop,
    Error { error_type: String, message: String },
    Ping,
}

/// The model of a change.
pub ghost enum DeltaView {
    Text(Seq<char>),
    InputJson(Seq<char>),
    Thinking(Seq<char>),
    Signature(Seq<char>),
    Other,
}

/// The model of an event.
pub ghost enum EventView {
    MessageStart { usage: Option<Usage> },
    BlockStart { index: int, block: ResponseBlockView },
    BlockDelta { index: int, delta: DeltaView },
    BlockStop { index: int },
    MessageDelta { stop_reason: Option<Seq<char>>, usage: Option<Usage> },
    MessageStop,
    Error { error_type: Seq<char>, message: Seq<char> },
    Ping,
}

impl View for StreamDelta {
    type V = DeltaView;

    open spec fn view(&self) -> DeltaView {
        match self {
            StreamDelta::TextDelta { text } => DeltaView::Text(text@),
            StreamDelta::InputJsonDelta { partial_json } => DeltaView::InputJson(partial_json@),
            StreamDelta::ThinkingDelta { thinking } => DeltaView::Thinking(thinking@),
            StreamDelta::SignatureDelta { signature } => DeltaView::Signature(signature@),
            StreamDelta::Other => DeltaView::Other,
        }
    }
}

impl View for StreamEvent {
    type V = EventView;

    open spec fn view(&self) -> EventView {
        match self {
            StreamEvent::MessageStart { usage } => EventView::MessageStart { usage: *usage },
            StreamEvent::ContentBlockStart { index, content_block } => EventView::BlockStart {
                index: *index as int,
                block: content_block@,
            },
            StreamEvent::ContentBlockDelta { index, delta } => EventView::BlockDelta {
                index: *index as int,
                delta: delta@,
            },
            StreamEvent::ContentBlockStop { index } => EventView::BlockStop {
                index: *index as int,
            },
            StreamEvent::MessageDelta { delta, usage } => EventView::MessageDelta {
                stop_reason: match delta {
                    Some(d) => opt_text(d.stop_reason),
                    None => None,
                },
                usage: *usage,
            },
            StreamEvent::MessageStop => EventView::MessageStop,
            StreamEvent::Error { error_type, message } => EventView::Error {
                error_type: error_type@,
                message: message@,
            },
            StreamEvent::Ping => EventView::Ping,
        }
    }
}

/// What is known of a block so far.
#[derive(Debug)]
pub enum BlockState {
    Text(String),
    ToolUse { id: String, name: String, partial_json: String },
    Thinking { text: String, signature: String },
    Unknown,
}

/// The model of what is known of a block.
pub ghost enum StateView {
    Text(Seq<char>),
    ToolUse { id: Seq<char>, name: Seq<char>, partial_json: Seq<char> },
    Thinking { text: Seq<char>, signature: Seq<char> },
    Unknown,
}

impl View for BlockState {
    type V = StateView;

    open spec fn view(&self) -> StateView {
        match self {
            BlockState::Text(t) => StateView::Text(t@),
            BlockState::ToolUse { id, name, partial_json } => StateView::ToolUse {
                id: id@,
                name: name@,
                partial_json: partial_json@,
            },
            BlockState::Thinking { text, signature } => StateView::Thinking {
                text: text@,
                signature: signature@,
            },
            BlockState::Unknown => StateView::Unknown,
        }
    }
}

/// The models of what is known of blocks.
pub open spec fn state_views(s: Seq<BlockState>) -> Seq<StateView> {
    s.map_values(|b: BlockState| b@)
}

/// A response as far as it has been streamed.
#[derive(Debug)]
pub struct MessageStream {
    pub blocks: Vec<BlockState>,
    pub input_tokens: Option<usize>,
    pub cache_creation_input_tokens: Option<usize>,
    pub cache_read_input_tokens: Option<usize>,
    pub output_tokens: Option<usize>,
    pub stop_reason: Option<String>,
    pub done: bool,
}

/// The model of a response as far as it has been streamed.
pub ghost struct StreamView {
    pub blocks: Seq<StateView>,
    pub input_tokens: Option<usize>,
    pub cache_creation_input_tokens: Option<usize>,
    pub cache_read_input_tokens: Option<usize>,
    pub output_tokens: Option<usize>,
    pub stop_reason: Option<Seq<char>>,
    pub done: bool,
}

impl View for MessageStream {
    type V = StreamView;

    open spec fn view(&self) -> StreamView {
        StreamView {
            blocks: state_views(self.blocks@),
            input_tokens: self.input_tokens,
            cache_creation_input_tokens: self.cache_creation_input_tokens,
            cache_read_input_tokens: self.cache_read_input_tokens,
            output_tokens: self.output_tokens,
            stop_reason: opt_text(self.stop_reason),
            done: self.done,
        }
    }
}

/// What a stream hands on as it goes.
#[derive(Debug)]
pub enum Emitted {
    Content(String),
    Thinking(String),
    ToolCall(ToolCall),
}

/// The model of what a stream hands on.
pub ghost enum EmittedView {
    Content(Seq<char>),
    Thinking(Seq<char>),
    ToolCall(ToolCallView),
}

impl View for Emitted {
    type V = EmittedView;

    open spec fn view(&self) -> EmittedView {
        match self {
            Emitted::Content(t) => EmittedView::Content(t@),
            Emitted::Thinking(t) => EmittedView::Thinking(t@),
            Emitted::ToolCall(c) => EmittedView::ToolCall(c@),
        }
    }
}

/// The model of what a stream may hand on.
pub open spec fn opt_emitted(e: Option<Emitted>) -> Option<EmittedView> {
    match e {
        Some(x) => Some(x@),
        None => None,
    }
}

/// A stream before its first event.
pub open spec fn fresh() -> StreamView {
    StreamView {
        blocks: Seq::empty(),
        input_tokens: None,
        cache_creation_input_tokens: None,
        cache_read_input_tokens: None,
        output_tokens: None,
        stop_reason: None,
        done: false,
    }
}

/// The blocks, filled up with empty texts to at least `n`.
pub open spec fn grown(blocks: Seq<StateView>, n: int) -> Seq<StateView> {
    if blocks.len() >= n {
        blocks
    } else {
        blocks + Seq::new((n - blocks.len()) as nat, |i: int| StateView::Text(Seq::empty()))
    }
}

/// A block that has just been opened.
pub open spec fn opened(b: ResponseBlockView) -> StateView {
    match b {
        ResponseBlockView::Text { .. } => StateView::Text(Seq::empty()),
        ResponseBlockView::ToolUse { id, name, .. } => StateView::ToolUse {
            id,
            name,
            partial_json: Seq::empty(),
        },
        ResponseBlockView::ServerToolUse { id, name, .. } => StateView::ToolUse {
            id,
            name,
            partial_json: Seq::empty(),
        },
        ResponseBlockView::Thinking { .. } => StateView::Thinking {
            text: Seq::empty(),
            signature: Seq::empty(),
        },
        ResponseBlockView::RedactedThinking { .. } => StateView::Unknown,
        ResponseBlockView::Unknown => StateView::Unknown,
    }
}

/// A block after a change. A change that does not fit the block is ignored.
pub open spec fn changed(b: StateView, d: DeltaView) -> StateView {
    match (b, d) {
        (StateView::Text(t), DeltaView::Text(more)) => StateView::Text(t + more),
        (
            StateView::ToolUse { id, name, partial_json },
            DeltaView::InputJson(more),
        ) => StateView::ToolUse { id, name, partial_json: partial_json + more },
        (StateView::Thinking { text, signature }, DeltaView::Thinking(more)) => StateView::Thinking {
            text: text + more,
            signature,
        },
        (
            StateView::Thinking { text, signature },
            DeltaView::Signature(more),
        ) => StateView::Thinking { text, signature: signature + more },
        _ => b,
    }
}

/// What a change hands on.
pub open spec fn change_emits(b: StateView, d: DeltaView) -> Option<EmittedView> {
    match (b, d) {
        (StateView::Text(_), DeltaView::Text(more)) => Some(EmittedView::Content(more)),
        (StateView::Thinking { .. }, DeltaView::Thinking(more)) => Some(EmittedView::Thinking(more)),
        _ => None,
    }
}

/// Whether an index points at a block.
pub open spec fn points(s: StreamView, index: int) -> bool {
    0 <= index < s.blocks.len()
}

/// The stream after an event.
pub open spec fn step(s: StreamView, e: EventView) -> StreamView {
    match e {
        EventView::MessageStart { usage } => match usage {
            Some(u) => StreamView {
                input_tokens: u.input_tokens,
                cache_creation_input_tokens: u.cache_creation_input_tokens,
                cache_read_input_tokens: u.cache_read_input_tokens,
                ..s
            },
            None => s,
        },
        EventView::BlockStart { index, block } => StreamView {
            blocks: grown(s.blocks, index + 1).update(index, opened(block)),
            ..s
        },
        EventView::BlockDelta { index, delta } => if points(s, index) {
            StreamView { blocks: s.blocks.update(index, changed(s.blocks[index], delta)), ..s }
        } else {
            s
        },
        EventView::MessageDelta { stop_reason, usage } => StreamView {
            stop_reason: match stop_reason {
                Some(r) => Some(r),
                None => s.stop_reason,
            },
            output_tokens: match usage {
                Some(u) => u.output_tokens,
                None => s.output_tokens,
            },
            ..s
        },
        EventView::MessageStop => StreamView { done: true, ..s },
        _ => s,
    }
}

/// What an event hands on.
pub open spec fn emits(s: StreamView, e: EventView) -> Option<EmittedView> {
    match e {
        EventView::BlockDelta { index, delta } => if points(s, index) {
            change_emits(s.blocks[index], delta)
        } else {
            None
        },
        EventView::BlockStop { index } => if points(s, index) {
            match s.blocks[index] {
                StateView::ToolUse { id, name, partial_json } => match call_input(partial_json) {
                    Some(input) => Some(
                        EmittedView::ToolCall(ToolCallView { id, name, arguments: input }),
                    ),
                    None => None,
                },
                _ => None,
            }
        } else {
            None
        },
        _ => None,
    }
}

/// The error that an event ends the stream with.
pub open spec fn fails(s: StreamView, e: EventView) -> Option<ProviderErrorView> {
    match e {
        EventView::BlockStop { index } => if points(s, index) {
            match s.blocks[index] {
                StateView::ToolUse { partial_json, .. } => match call_input(partial_json) {
                    Some(_) => None,
                    None => Some(ProviderErrorView::Decode(json_failure(partial_json))),
                },
                _ => None,
            }
        } else {
            None
        },
        EventView::Error { error_type, message } => Some(
            ProviderErrorView::Http {
                status: 529,
                body: "Anthropic streaming error ("@ + error_type + "): "@ + message,
            },
        ),
        _ => None,
    }
}

/// A block that has been streamed to its end: nothing of a block that is not
/// known, or the message with which its arguments are refused.
pub open spec fn closed(b: StateView) -> Result<Option<ResponseBlockView>, Seq<char>> {
    match b {
        StateView::Text(text) => Ok(Some(ResponseBlockView::Text { text })),
        StateView::ToolUse { id, name, partial_json } => match call_input(partial_json) {
            Some(input) => Ok(Some(ResponseBlockView::ToolUse { id, name, input })),
            None => Err(json_failure(partial_json)),
        },
        StateView::Thinking { text, signature } => Ok(
            Some(ResponseBlockView::Thinking { thinking: text, signature }),
        ),
        StateView::Unknown => Ok(None),
    }
}

/// The blocks of a stream that has ended. The first block whose arguments are
/// refused decides over failure.
pub open spec fn all_closed(blocks: Seq<StateView>) -> Result<Seq<ResponseBlockView>, Seq<char>>
    decreases blocks.len(),
{
    if blocks.len() == 0 {
        Ok(Seq::empty())
    } else {
        match all_closed(blocks.drop_last()) {
            Err(m) => Err(m),
            Ok(front) => match closed(blocks.last()) {
                Err(m) => Err(m),
                Ok(Some(b)) => Ok(front.push(b)),
                Ok(None) => Ok(front),
            },
        }
    }
}

/// The usage of a stream that has ended: known where both input and output
/// were reported.
pub open spec fn stream_usage(s: StreamView) -> Option<Usage> {
    if s.input_tokens is Some && s.output_tokens is Some {
        Some(
            Usage {
                input_tokens: s.input_tokens,
                output_tokens: s.output_tokens,
                cache_creation_input_tokens: s.cache_creation_input_tokens,
                cache_read_input_tokens: s.cache_read_input_tokens,
            },
        )
    } else {
        None
    }
}

impl BlockState {
    fn open(block: ResponseBlock) -> (r: BlockState)
        ensures
            r@ == opened(block@),
    {
        let r = match block {
            ResponseBlock::Text { .. } => BlockState::Text(String::new()),
            ResponseBlock::ToolUse { id, name, .. }
            | ResponseBlock::ServerToolUse { id, name, .. } => BlockState::ToolUse {
                id,
                name,
                partial_json: String::new(),
            },
            ResponseBlock::Thinking { .. } => BlockState::Thinking {
                text: String::new(),
                signature: String::new(),
            },
            ResponseBlock::RedactedThinking { .. } | ResponseBlock::Unknown => BlockState::Unknown,
        };
        assert(Seq::<char>::empty() =~= ""@) by {
            reveal_strlit("");
        }
        r
    }

    fn change(self, delta: StreamDelta) -> (r: (BlockState, Option<Emitted>))
        ensures
            r.0@ == changed(self@, delta@),
            opt_emitted(r.1) == change_emits(self@, delta@),
    {
        match (self, delta) {
            (BlockState::Text(t), StreamDelta::TextDelta { text }) => {
                let mut t = t;
                t.append(text.as_str());
                (BlockState::Text(t), Some(Emitted::Content(text)))
            },
            (
                BlockState::ToolUse { id, name, partial_json },
                StreamDelta::InputJsonDelta { partial_json: more },
            ) => {
                let mut acc = partial_json;
                acc.append(more.as_str());
                (BlockState::ToolUse { id, name, partial_json: acc }, None)
            },
            (
                BlockState::Thinking { text, signature },
                StreamDelta::ThinkingDelta { thinking },
            ) => {
                let mut t = text;
                t.append(thinking.as_str());
                (BlockState::Thinking { text: t, signature }, Some(Emitted::Thinking(thinking)))
            },
            (
                BlockState::Thinking { text, signature },
                StreamDelta::SignatureDelta { signature: more },
            ) => {
                let mut s = signature;
                s.append(more.as_str());
                (BlockState::Thinking { text, signature: s }, None)
            },
            (state, _) => (state, None),
        }
    }
}

impl MessageStream {
    /// A stream before its first event.
    pub fn new() -> (r: MessageStream)
        ensures
            r@ == fresh(),
    {
        let r = MessageStream {
            blocks: Vec::new(),
            input_tokens: None,
            cache_creation_input_tokens: None,
            cache_read_input_tokens: None,
            output_tokens: None,
            stop_reason: None,
            done: false,
        };
        assert(r@.blocks =~= Seq::empty());
        r
    }

    /// Whether the message has been streamed to its end.
    pub fn is_done(&self) -> (r: bool)
        ensures
            r == self@.done,
    {
        self.done
    }

    fn start_block(&mut self, index: usize, block: ResponseBlock)
        requires
            index < usize::MAX,
        ensures
            final(self)@ == step(
                old(self)@,
                EventView::BlockStart { index: index as int, block: block@ },
            ),
    {
        let ghost before = self@.blocks;
        let ghost target = grown(before, index + 1);
        while self.blocks.len() <= index
            invariant
                self@ == (StreamView { blocks: self@.blocks, ..old(self)@ }),
                before == old(self)@.blocks,
                target == grown(before, index + 1),
                before.len() <= self@.blocks.len() <= target.len(),
                self@.blocks == target.take(self@.blocks.len() as int),
            decreases index + 1 - self.blocks@.len(),
        {
            let ghost last = self@.blocks;
            let empty = String::new();
            assert(empty@ =~= Seq::empty());
            self.blocks.push(BlockState::Text(empty));
            assert(self@.blocks =~= last.push(StateView::Text(Seq::empty())));
            assert(self@.blocks =~= target.take(self@.blocks.len() as int));
        }
        assert(self@.blocks =~= target);
        self.blocks[index] = BlockState::open(block);
        assert(self@.blocks =~= target.update(index as int, opened(block@)));
    }

    /// Takes an event in. What it hands on is the result; an error ends the
    /// stream.
    pub fn on_event(&mut self, event: StreamEvent) -> (r: Result<Option<Emitted>, ProviderError>)
        requires
            event matches StreamEvent::ContentBlockStart { index, .. } ==> index < usize::MAX,
        ensures
            match r {
                Ok(emitted) => fails(old(self)@, event@) is None && final(self)@ == step(
                    old(self)@,
                    event@,
                ) && opt_emitted(emitted) == emits(old(self)@, event@),
                Err(e) => fails(old(self)@, event@) == Some(e@) && final(self)@ == old(self)@,
            },
    {
        match event {
            StreamEvent::MessageStart { usage } => {
                match usage {
                    Some(u) => {
                        self.input_tokens = u.input_tokens;
                        self.cache_creation_input_tokens = u.cache_creation_input_tokens;
                        self.cache_read_input_tokens = u.cache_read_input_tokens;
                    },
                    None => {},
                }
                Ok(None)
            },
            StreamEvent::ContentBlockStart { index, content_block } => {
                self.start_block(index, content_block);
                Ok(None)
            },
            StreamEvent::ContentBlockDelta { index, delta } => {
                if index >= self.blocks.len() {
                    return Ok(None);
                }
                let ghost before = self@.blocks;
                let mut state = BlockState::Unknown;
                std::mem::swap(&mut self.blocks[index], &mut state);
                assert(state@ == before[index as int]);
                let (next, emitted) = state.change(delta);
                self.blocks[index] = next;
                assert(self@.blocks =~= before.update(
                    index as int,
                    changed(before[index as int], delta@),
                ));
                Ok(emitted)
            },
            StreamEvent::ContentBlockStop { index } => {
                if index >= self.blocks.len() {
                    return Ok(None);
                }
                assert(self@.blocks[index as int] == self.blocks@[index as int]@);
                match &self.blocks[index] {
                    BlockState::ToolUse { id, name, partial_json } => {
                        match parse_input(partial_json.as_str()) {
                            Ok(input) => Ok(
                                Some(
                                    Emitted::ToolCall(
                                        ToolCall {
                                            id: id.clone(),
                                            name: name.clone(),
                                            arguments: input,
                                        },
                                    ),
                                ),
                            ),
                            Err(e) => Err(e),
                        }
                    },
                    _ => Ok(None),
                }
            },
            StreamEvent::MessageDelta { delta, usage } => {
                match delta {
                    Some(d) => {
                        if d.stop_reason.is_some() {
                            self.stop_reason = d.stop_reason;
                        }
                    },
                    None => {},
                }
                match usage {
                    Some(u) => {
                        self.output_tokens = u.output_tokens;
                    },
                    None => {},
                }
                Ok(None)
            },
            StreamEvent::MessageStop => {
                self.done = true;
                Ok(None)
            },
            StreamEvent::Error { error_type, message } => {
                let head = join2("Anthropic streaming error (", error_type.as_str());
                let head = join2(head.as_str(), "): ");
                Err(
                    ProviderError::Http {
                        status: 529,
                        body: join2(head.as_str(), message.as_str()),
                    },
                )
            },
            StreamEvent::Ping => Ok(None),
        }
    }

    /// The message of a stream that has ended.
    pub fn finish(self) -> (r: Result<Message, ProviderError>)
        requires
            stream_usage(self@) is Some ==> usage_fits(stream_usage(self@)->0),
        ensures
            match (all_closed(self@.blocks), r) {
                (Ok(bs), Ok(m)) => m@ == response_message(
                    bs,
                    stream_usage(self@),
                    self@.stop_reason,
                ),
                (Err(why), Err(e)) => e@ == ProviderErrorView::Decode(why),
                _ => false,
            },
    {
        let ghost states = self@.blocks;
        let n: usize = self.blocks.len();
        let mut rest = self.blocks;
        let mut out: Vec<ResponseBlock> = Vec::new();
        let mut i: usize = 0;
        assert(response_views(out@) =~= Seq::empty());
        while i < n
            invariant
                i <= n,
                n == states.len(),
                rest@.len() == n - i,
                forall|k: int| 0 <= k < n - i ==> (#[trigger] rest@[k])@ == states[i + k],
                all_closed(states.take(i as int)) == Ok::<_, Seq<char>>(response_views(out@)),
                states == self@.blocks,
            decreases n - i,
        {
            let ghost next = states.take(i + 1);
            let ghost before = response_views(out@);
            assert(next.drop_last() =~= states.take(i as int));
            assert(rest@[0]@ == next.last());
            let state = rest.remove(0);
            match state {
                BlockState::Text(text) => {
                    out.push(ResponseBlock::Text { text });
                    assert(response_views(out@) =~= before.push(out@.last()@));
                },
                BlockState::ToolUse { id, name, partial_json } => {
                    match parse_input(partial_json.as_str()) {
                        Ok(input) => {
                            out.push(ResponseBlock::ToolUse { id, name, input });
                            assert(response_views(out@) =~= before.push(out@.last()@));
                        },
                        Err(e) => {
                            proof {
                                lemma_failure_stays(
                                    states,
                                    i + 1,
                                    json_failure(partial_json@),
                                );
                            }
                            return Err(e);
                        },
                    }
                },
                BlockState::Thinking { text, signature } => {
                    out.push(ResponseBlock::Thinking { thinking: text, signature });
                    assert(response_views(out@) =~= before.push(out@.last()@));
                },
                BlockState::Unknown => {},
            }
            i = i + 1;
        }
        assert(states.take(i as int) =~= states);
        let usage = match (self.input_tokens, self.output_tokens) {
            (Some(input), Some(output)) => Some(
                Usage {
                    input_tokens: Some(input),
                    output_tokens: Some(output),
                    cache_creation_input_tokens: self.cache_creation_input_tokens,
                    cache_read_input_tokens: self.cache_read_input_tokens,
                },
            ),
            _ => None,
        };
        Ok(message_from_blocks(out, usage, self.stop_reason))
    }
}

proof fn lemma_failure_stays(states: Seq<StateView>, n: int, why: Seq<char>)
    requires
        0 <= n <= states.len(),
        all_closed(states.take(n)) == Err::<Seq<ResponseBlockView>, Seq<char>>(why),
    ensures
        all_closed(states) == Err::<Seq<ResponseBlockView>, Seq<char>>(why),
    decreases states.len(),
{
    if n < states.len() {
        assert(states.drop_last().take(n) =~= states.take(n));
        lemma_failure_stays(states.drop_last(), n, why);
    } else {
        assert(states.take(n) =~= states);
    }
}

} // verus!
