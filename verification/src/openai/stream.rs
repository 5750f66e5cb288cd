//! The streamed form of a response: chunks in, deltas out, and a message at
//! the end.

use vstd::prelude::*;
use crate::arguments::{call_input, parse_input};
use crate::emitted::{emitted_views, Emitted, EmittedView};
use crate::error::{ProviderError, ProviderErrorView};
use crate::json::{
    entries_view, items_view, json_as_u64, json_failure, lemma_items_push, member, no_members, Json,
    JsonMap, JsonView,
};
use crate::message::{call_views, plain_message, Message, MessageView, Role, ToolCall, ToolCallView};
use crate::openai::response::{
    assemble_thinking, either, member_text, opt_finish_of, opt_finish_reason, thinking_of, Usage,
};
use crate::text::{opt_text, text_eq};

verus! {

/// A piece of a tool call.
#[derive(Debug)]
pub struct StreamToolCallDelta {
    pub index: usize,
    pub id: Option<String>,
    pub name: Option<String>,
    pub arguments: Option<String>,
}

/// The model of a piece of a tool call.
pub ghost struct CallDeltaView {
    pub index: int,
    pub id: Option<Seq<char>>,
    pub name: Option<Seq<char>>,
    pub arguments: Option<Seq<char>>,
}

impl View for StreamToolCallDelta {
    type V = CallDeltaView;

    open spec fn view(&self) -> CallDeltaView {
        CallDeltaView {
            index: self.index as int,
            id: opt_text(self.id),
            name: opt_text(self.name),
            arguments: opt_text(self.arguments),
        }
    }
}

/// The models of pieces of tool calls.
pub open spec fn call_delta_views(s: Seq<StreamToolCallDelta>) -> Seq<CallDeltaView> {
    s.map_values(|d: StreamToolCallDelta| d@)
}

/// What a choice of a chunk adds.
#[derive(Debug)]
pub struct StreamChoice {
    pub content: String,
    pub reasoning_content: Option<String>,
    pub reasoning: Option<String>,
    pub reasoning_details: Vec<Json>,
    pub tool_calls: Vec<StreamToolCallDelta>,
    pub finish_reason: Option<String>,
}

/// The model of what a choice adds.
pub ghost struct ChoiceView {
    pub content: Seq<char>,
    pub reasoning_content: Option<Seq<char>>,
    pub reasoning: Option<Seq<char>>,
    pub reasoning_details: Seq<JsonView>,
    pub tool_calls: Seq<CallDeltaView>,
    pub finish_reason: Option<Seq<char>>,
}

impl View for StreamChoice {
    type V = ChoiceView;

    open spec fn view(&self) -> ChoiceView {
        ChoiceView {
            content: self.content@,
            reasoning_content: opt_text(self.reasoning_content),
            reasoning: opt_text(self.reasoning),
            reasoning_details: items_view(self.reasoning_details@),
            tool_calls: call_delta_views(self.tool_calls@),
            finish_reason: opt_text(self.finish_reason),
        }
    }
}

/// The models of choices.
pub open spec fn choice_views(s: Seq<StreamChoice>) -> Seq<ChoiceView> {
    s.map_values(|c: StreamChoice| c@)
}

/// A chunk of a stream.
#[derive(Debug)]
pub struct StreamChunk {
    pub choices: Vec<StreamChoice>,
    pub usage: Option<Usage>,
}

/// What is known of a tool call so far.
#[derive(Debug)]
pub struct ToolCallAccum {
    pub id: String,
    pub name: String,
    pub arguments: String,
}

/// The model of what is known of a tool call.
pub ghost struct AccumView {
    pub id: Seq<char>,
    pub name: Seq<char>,
    pub arguments: Seq<char>,
}

impl View for ToolCallAccum {
    type V = AccumView;

    open spec fn view(&self) -> AccumView {
        AccumView { id: self.id@, name: self.name@, arguments: self.arguments@ }
    }
}

/// The models of what is known of tool calls.
pub open spec fn accum_views(s: Seq<ToolCallAccum>) -> Seq<AccumView> {
    s.map_values(|a: ToolCallAccum| a@)
}

/// The models of structured reasoning blocks.
pub open spec fn detail_views(s: Seq<JsonMap>) -> Seq<Map<Seq<char>, JsonView>> {
    s.map_values(|m: JsonMap| m@)
}

/// A response as far as it has been streamed.
#[derive(Debug)]
pub struct ChatStream {
    pub content: String,
    pub reasoning: String,
    /// Whether a reasoning text was given at all, even an empty one.
    pub saw_reasoning: bool,
    pub details: Vec<JsonMap>,
    pub calls: Vec<ToolCallAccum>,
    pub total_tokens: Option<usize>,
    pub prompt_tokens: Option<usize>,
    pub finish_reason: Option<String>,
}

/// The model of a response as far as it has been streamed.
pub ghost struct ChatStreamView {
    pub content: Seq<char>,
    pub reasoning: Seq<char>,
    pub saw_reasoning: bool,
    pub details: Seq<Map<Seq<char>, JsonView>>,
    pub calls: Seq<AccumView>,
    pub total_tokens: Option<usize>,
    pub prompt_tokens: Option<usize>,
    pub finish_reason: Option<Seq<char>>,
}

impl View for ChatStream {
    type V = ChatStreamView;

    open spec fn view(&self) -> ChatStreamView {
        ChatStreamView {
            content: self.content@,
            reasoning: self.reasoning@,
            saw_reasoning: self.saw_reasoning,
            details: detail_views(self.details@),
            calls: accum_views(self.calls@),
            total_tokens: self.total_tokens,
            prompt_tokens: self.prompt_tokens,
            finish_reason: opt_text(self.finish_reason),
        }
    }
}

/// A stream before its first chunk.
pub open spec fn fresh() -> ChatStreamView {
    ChatStreamView {
        content: Seq::empty(),
        reasoning: Seq::empty(),
        saw_reasoning: false,
        details: Seq::empty(),
        calls: Seq::empty(),
        total_tokens: None,
        prompt_tokens: None,
        finish_reason: None,
    }
}

// ---------------------------------------------------------------------------
// Structured reasoning
// ---------------------------------------------------------------------------

/// Whether a member of a reasoning block arrives in pieces.
pub open spec fn is_content_key(k: Seq<char>) -> bool {
    k == "text"@ || k == "summary"@ || k == "data"@
}

/// A member of a reasoning block after a fragment that has it: texts that
/// arrive in pieces are appended, everything else takes the latest value.
pub open spec fn merged_member(
    old_block: Map<Seq<char>, JsonView>,
    fragment: Map<Seq<char>, JsonView>,
    k: Seq<char>,
) -> JsonView {
    if is_content_key(k) && old_block.dom().contains(k) && old_block[k] is Str && fragment[k] is Str {
        JsonView::Str(old_block[k]->Str_0 + fragment[k]->Str_0)
    } else {
        fragment[k]
    }
}

/// A reasoning block after a fragment.
pub open spec fn merged_block(
    old_block: Map<Seq<char>, JsonView>,
    fragment: JsonView,
) -> Map<Seq<char>, JsonView> {
    match fragment {
        JsonView::Object(f) => Map::new(
            |k: Seq<char>| old_block.dom().contains(k) || f.dom().contains(k),
            |k: Seq<char>|
                if f.dom().contains(k) {
                    merged_member(old_block, f, k)
                } else {
                    old_block[k]
                },
        ),
        _ => old_block,
    }
}

/// The block that a fragment belongs to: its `index`, or a new one.
pub open spec fn fragment_index(fragment: JsonView, known: nat) -> int {
    match member(fragment, "index"@) {
        Some(j) => match json_as_u64(j) {
            Some(n) => (n as usize) as int,
            None => known as int,
        },
        None => known as int,
    }
}

/// The blocks, filled up with empty ones to more than `index`.
pub open spec fn grown_details(
    details: Seq<Map<Seq<char>, JsonView>>,
    index: int,
) -> Seq<Map<Seq<char>, JsonView>> {
    if details.len() > index {
        details
    } else {
        details + Seq::new((index + 1 - details.len()) as nat, |i: int| no_members())
    }
}

/// The blocks after a fragment.
pub open spec fn with_fragment(
    details: Seq<Map<Seq<char>, JsonView>>,
    fragment: JsonView,
) -> Seq<Map<Seq<char>, JsonView>> {
    let i = fragment_index(fragment, details.len());
    let g = grown_details(details, i);
    g.update(i, merged_block(g[i], fragment))
}

/// The blocks after several fragments.
pub open spec fn with_fragments(
    details: Seq<Map<Seq<char>, JsonView>>,
    fragments: Seq<JsonView>,
) -> Seq<Map<Seq<char>, JsonView>>
    decreases fragments.len(),
{
    if fragments.len() == 0 {
        details
    } else {
        with_fragment(with_fragments(details, fragments.drop_last()), fragments.last())
    }
}

/// The blocks that hold something, in order.
pub open spec fn filled(details: Seq<Map<Seq<char>, JsonView>>) -> Seq<JsonView>
    decreases details.len(),
{
    if details.len() == 0 {
        Seq::empty()
    } else {
        let front = filled(details.drop_last());
        if details.last() == no_members() {
            front
        } else {
            front.push(JsonView::Object(details.last()))
        }
    }
}

// ---------------------------------------------------------------------------
// Tool calls
// ---------------------------------------------------------------------------

/// A tool call that nothing is known of.
pub open spec fn no_call() -> AccumView {
    AccumView { id: Seq::empty(), name: Seq::empty(), arguments: Seq::empty() }
}

/// The tool calls, filled up to more than `index`.
pub open spec fn grown_calls(calls: Seq<AccumView>, index: int) -> Seq<AccumView> {
    if calls.len() > index {
        calls
    } else {
        calls + Seq::new((index + 1 - calls.len()) as nat, |i: int| no_call())
    }
}

/// A tool call after a piece: the id takes the latest value, name and
/// arguments are appended.
pub open spec fn extended(a: AccumView, d: CallDeltaView) -> AccumView {
    AccumView {
        id: match d.id {
            Some(id) => id,
            None => a.id,
        },
        name: match d.name {
            Some(n) => a.name + n,
            None => a.name,
        },
        arguments: match d.arguments {
            Some(t) => a.arguments + t,
            None => a.arguments,
        },
    }
}

/// The tool calls after a piece.
pub open spec fn with_call_delta(calls: Seq<AccumView>, d: CallDeltaView) -> Seq<AccumView> {
    let g = grown_calls(calls, d.index);
    g.update(d.index, extended(g[d.index], d))
}

/// The tool calls after several pieces.
pub open spec fn with_call_deltas(calls: Seq<AccumView>, ds: Seq<CallDeltaView>) -> Seq<AccumView>
    decreases ds.len(),
{
    if ds.len() == 0 {
        calls
    } else {
        with_call_delta(with_call_deltas(calls, ds.drop_last()), ds.last())
    }
}

// ---------------------------------------------------------------------------
// Chunks
// ---------------------------------------------------------------------------

/// The reasoning text of a choice.
pub open spec fn choice_reasoning(c: ChoiceView) -> Option<Seq<char>> {
    either(c.reasoning_content, c.reasoning)
}

/// Whether a choice carries a reasoning text that is not empty.
pub open spec fn streams_reasoning(c: ChoiceView) -> bool {
    choice_reasoning(c) is Some && choice_reasoning(c)->0.len() > 0
}

/// The texts of fragments that are shown.
pub open spec fn fragment_texts(fragments: Seq<JsonView>) -> Seq<EmittedView>
    decreases fragments.len(),
{
    if fragments.len() == 0 {
        Seq::empty()
    } else {
        let front = fragment_texts(fragments.drop_last());
        match member_text(fragments.last(), "text"@) {
            Some(t) => if t.len() > 0 {
                front.push(EmittedView::Thinking(t))
            } else {
                front
            },
            None => front,
        }
    }
}

/// What a choice hands on: the reasoning text, or, so that nothing is shown
/// twice, the texts of the structured fragments; then the content.
pub open spec fn choice_emits(c: ChoiceView) -> Seq<EmittedView> {
    (if streams_reasoning(c) {
        seq![EmittedView::Thinking(choice_reasoning(c)->0)]
    } else {
        fragment_texts(c.reasoning_details)
    }) + (if c.content.len() > 0 {
        seq![EmittedView::Content(c.content)]
    } else {
        Seq::empty()
    })
}

/// The stream after a choice.
pub open spec fn choice_step(s: ChatStreamView, c: ChoiceView) -> ChatStreamView {
    ChatStreamView {
        content: s.content + c.content,
        reasoning: match choice_reasoning(c) {
            Some(t) => s.reasoning + t,
            None => s.reasoning,
        },
        saw_reasoning: s.saw_reasoning || choice_reasoning(c) is Some,
        details: with_fragments(s.details, c.reasoning_details),
        calls: with_call_deltas(s.calls, c.tool_calls),
        finish_reason: match c.finish_reason {
            Some(r) => Some(r),
            None => s.finish_reason,
        },
        ..s
    }
}

/// The stream after several choices.
pub open spec fn choices_step(s: ChatStreamView, cs: Seq<ChoiceView>) -> ChatStreamView
    decreases cs.len(),
{
    if cs.len() == 0 {
        s
    } else {
        choice_step(choices_step(s, cs.drop_last()), cs.last())
    }
}

/// What several choices hand on.
pub open spec fn choices_emit(cs: Seq<ChoiceView>) -> Seq<EmittedView>
    decreases cs.len(),
{
    if cs.len() == 0 {
        Seq::empty()
    } else {
        choices_emit(cs.drop_last()) + choice_emits(cs.last())
    }
}

/// The stream with the usage of a chunk noted.
pub open spec fn usage_step(s: ChatStreamView, usage: Option<Usage>) -> ChatStreamView {
    match usage {
        Some(u) => ChatStreamView {
            total_tokens: Some(u.total_tokens),
            prompt_tokens: Some(u.prompt_tokens),
            ..s
        },
        None => s,
    }
}

/// The stream after a chunk.
pub open spec fn chunk_step(s: ChatStreamView, c: StreamChunk) -> ChatStreamView {
    choices_step(usage_step(s, c.usage), choice_views(c.choices@))
}

/// Whether every index that a choice names leaves room for one more.
pub open spec fn indices_fit(c: ChoiceView) -> bool {
    &&& forall|i: int|
        0 <= i < c.tool_calls.len() ==> (#[trigger] c.tool_calls[i]).index < usize::MAX
    &&& forall|i: int|
        0 <= i < c.reasoning_details.len() ==> fragment_index(
            #[trigger] c.reasoning_details[i],
            0,
        ) < usize::MAX
}

// ---------------------------------------------------------------------------
// The end
// ---------------------------------------------------------------------------

/// The finished tool calls, up to the first whose arguments are refused, and
/// the message of that refusal.
pub open spec fn closed_calls(calls: Seq<AccumView>) -> (Seq<ToolCallView>, Option<Seq<char>>)
    decreases calls.len(),
{
    if calls.len() == 0 {
        (Seq::empty(), None)
    } else {
        let front = closed_calls(calls.drop_last());
        let a = calls.last();
        match front.1 {
            Some(_) => front,
            None => match call_input(a.arguments) {
                Some(j) => (
                    front.0.push(ToolCallView { id: a.id, name: a.name, arguments: j }),
                    None,
                ),
                None => (front.0, Some(json_failure(a.arguments))),
            },
        }
    }
}

/// The message of a stream that has ended.
pub open spec fn streamed_message(s: ChatStreamView, calls: Seq<ToolCallView>) -> MessageView {
    MessageView {
        tool_calls: calls,
        token_count: s.total_tokens,
        context_tokens: s.prompt_tokens,
        thinking_content: thinking_of(
            filled(s.details),
            if s.saw_reasoning {
                Some(s.reasoning)
            } else {
                None
            },
        ),
        finish_reason: opt_finish_of(s.finish_reason),
        ..plain_message(Role::Assistant, s.content)
    }
}

/// The line that ends a stream.
pub const DONE_MARKER: &'static str = "[DONE]";

/// Whether a data line ends the stream.
pub fn is_done_marker(data: &str) -> (r: bool)
    ensures
        r == (data@ == DONE_MARKER@),
{
    text_eq(data, DONE_MARKER)
}

fn is_content_member(k: &str) -> (r: bool)
    ensures
        r == is_content_key(k@),
{
    text_eq(k, "text") || text_eq(k, "summary") || text_eq(k, "data")
}

fn merge_member(old_value: Option<&Json>, value: &Json, k: &str) -> (r: Json)
    ensures
        r@ == (if is_content_key(k@) && old_value is Some && old_value->0@ is Str && value@ is Str {
            JsonView::Str(old_value->0@->Str_0 + value@->Str_0)
        } else {
            value@
        }),
{
    if is_content_member(k) {
        match (old_value, value) {
            (Some(Json::Str(a)), Json::Str(b)) => {
                let mut t = a.clone();
                t.append(b.as_str());
                return Json::Str(t);
            },
            _ => {},
        }
    }
    value.copy()
}

/// A reasoning block after a fragment. A fragment that is no object changes
/// nothing.
pub fn merge_fragment(block: &JsonMap, fragment: &Json) -> (r: JsonMap)
    ensures
        r@ == merged_block(block@, fragment@),
{
    let mut out = block.copy();
    match fragment {
        Json::Object(f) => {
            let mut i: usize = 0;
            while i < f.entries.len()
                invariant
                    i <= f.entries@.len(),
                    forall|k: Seq<char>| #[trigger]
                        out@.dom().contains(k) == (block@.dom().contains(k) || entries_view(
                            f.entries@.take(i as int),
                        ).dom().contains(k)),
                    forall|k: Seq<char>| #[trigger]
                        out@.dom().contains(k) ==> out@[k] == (if entries_view(
                            f.entries@.take(i as int),
                        ).dom().contains(k) {
                            merged_member(block@, f@, k)
                        } else {
                            block@[k]
                        }),
                decreases f.entries@.len() - i,
            {
                let ghost next = f.entries@.take(i + 1);
                let ghost before = out@;
                assert(next.drop_last() =~= f.entries@.take(i as int));
                let key = f.entries[i].0.as_str();
                assert(entries_view(next) == entries_view(f.entries@.take(i as int)).insert(
                    key@,
                    f.entries@[i as int].1@,
                ));
                proof {
                    lemma_entry_present(f.entries@, i as int);
                }
                match f.get(key) {
                    Some(v) => {
                        let value = merge_member(block.get(key), v, key);
                        out.insert(key, value);
                    },
                    None => {},
                }
                i = i + 1;
            }
            assert(f.entries@.take(i as int) =~= f.entries@);
            assert(out@ =~= merged_block(block@, fragment@));
        },
        _ => {},
    }
    out
}

proof fn lemma_entry_present(s: Seq<(String, Json)>, i: int)
    requires
        0 <= i < s.len(),
    ensures
        entries_view(s).dom().contains(s[i].0@),
    decreases s.len(),
{
    if i < s.len() - 1 {
        lemma_entry_present(s.drop_last(), i);
    }
}

impl ChatStream {
    /// A stream before its first chunk.
    pub fn new() -> (r: ChatStream)
        ensures
            r@ == fresh(),
    {
        let r = ChatStream {
            content: String::new(),
            reasoning: String::new(),
            saw_reasoning: false,
            details: Vec::new(),
            calls: Vec::new(),
            total_tokens: None,
            prompt_tokens: None,
            finish_reason: None,
        };
        assert(r@.content =~= Seq::empty());
        assert(r@.reasoning =~= Seq::empty());
        assert(r@.details =~= Seq::empty());
        assert(r@.calls =~= Seq::empty());
        r
    }

    fn add_fragment(&mut self, fragment: &Json)
        requires
            fragment_index(fragment@, 0) < usize::MAX,
        ensures
            final(self)@ == (ChatStreamView {
                details: with_fragment(old(self)@.details, fragment@),
                ..old(self)@
            }),
    {
        let ghost before = self@.details;
        let known: usize = self.details.len();
        let index: usize = match fragment.get("index") {
            Some(j) => match j.as_u64() {
                Some(n) => n as usize,
                None => known,
            },
            None => known,
        };
        assert(index as int == fragment_index(fragment@, before.len()));
        let ghost target = grown_details(before, index as int);
        while self.details.len() <= index
            invariant
                self@ == (ChatStreamView { details: self@.details, ..old(self)@ }),
                before == old(self)@.details,
                target == grown_details(before, index as int),
                before.len() <= self@.details.len() <= target.len(),
                self@.details == target.take(self@.details.len() as int),
            decreases index + 1 - self.details@.len(),
        {
            let ghost last = self@.details;
            let empty = JsonMap::new();
            self.details.push(empty);
            assert(self@.details =~= last.push(no_members()));
            assert(self@.details =~= target.take(self@.details.len() as int));
        }
        assert(self@.details =~= target);
        assert(self.details@[index as int]@ == target[index as int]);
        let merged = merge_fragment(&self.details[index], fragment);
        self.details[index] = merged;
        assert(self@.details =~= target.update(
            index as int,
            merged_block(target[index as int], fragment@),
        ));
    }

    fn add_call_delta(&mut self, delta: StreamToolCallDelta)
        requires
            delta.index < usize::MAX,
        ensures
            final(self)@ == (ChatStreamView {
                calls: with_call_delta(old(self)@.calls, delta@),
                ..old(self)@
            }),
    {
        let ghost before = self@.calls;
        let index: usize = delta.index;
        let ghost target = grown_calls(before, index as int);
        while self.calls.len() <= index
            invariant
                self@ == (ChatStreamView { calls: self@.calls, ..old(self)@ }),
                before == old(self)@.calls,
                target == grown_calls(before, index as int),
                before.len() <= self@.calls.len() <= target.len(),
                self@.calls == target.take(self@.calls.len() as int),
            decreases index + 1 - self.calls@.len(),
        {
            let ghost last = self@.calls;
            let empty = ToolCallAccum {
                id: String::new(),
                name: String::new(),
                arguments: String::new(),
            };
            assert(empty@.id =~= Seq::empty() && empty@.name =~= Seq::empty()
                && empty@.arguments =~= Seq::empty());
            self.calls.push(empty);
            assert(self@.calls =~= last.push(no_call()));
            assert(self@.calls =~= target.take(self@.calls.len() as int));
        }
        assert(self@.calls =~= target);
        assert(self.calls@[index as int]@ == target[index as int]);
        let mut accum = ToolCallAccum {
            id: String::new(),
            name: String::new(),
            arguments: String::new(),
        };
        std::mem::swap(&mut self.calls[index], &mut accum);
        match delta.id {
            Some(id) => {
                accum.id = id;
            },
            None => {},
        }
        match delta.name {
            Some(n) => {
                accum.name.append(n.as_str());
            },
            None => {},
        }
        match delta.arguments {
            Some(t) => {
                accum.arguments.append(t.as_str());
            },
            None => {},
        }
        self.calls[index] = accum;
        assert(self@.calls =~= target.update(index as int, extended(target[index as int], delta@)));
    }

    fn on_choice(&mut self, choice: StreamChoice) -> (r: Vec<Emitted>)
        requires
            indices_fit(choice@),
        ensures
            final(self)@ == choice_step(old(self)@, choice@),
            emitted_views(r@) == choice_emits(choice@),
    {
        let ghost c = choice@;
        let mut out: Vec<Emitted> = Vec::new();
        assert(emitted_views(out@) =~= Seq::empty());
        match choice.finish_reason {
            Some(r) => {
                self.finish_reason = Some(r);
            },
            None => {},
        }
        let reasoning = match choice.reasoning_content {
            Some(t) => Some(t),
            None => choice.reasoning,
        };
        let mut shown = false;
        match reasoning {
            Some(t) => {
                self.saw_reasoning = true;
                self.reasoning.append(t.as_str());
                if !t.as_str().is_empty() {
                    shown = true;
                    out.push(Emitted::Thinking(t));
                    assert(emitted_views(out@) =~= seq![EmittedView::Thinking(t@)]);
                }
            },
            None => {},
        }
        assert(shown == streams_reasoning(c));
        let ghost mid = self@;
        let details = choice.reasoning_details;
        let mut i: usize = 0;
        assert(c.reasoning_details.len() == details@.len());
        while i < details.len()
            invariant
                i <= details@.len(),
                c.reasoning_details == items_view(details@),
                indices_fit(c),
                self@ == (ChatStreamView {
                    details: with_fragments(mid.details, c.reasoning_details.take(i as int)),
                    ..mid
                }),
                shown ==> emitted_views(out@) == seq![EmittedView::Thinking(choice_reasoning(c)->0)],
                !shown ==> emitted_views(out@) == fragment_texts(
                    c.reasoning_details.take(i as int),
                ),
            decreases details@.len() - i,
        {
            let ghost next = c.reasoning_details.take(i + 1);
            let ghost before = emitted_views(out@);
            assert(next.drop_last() =~= c.reasoning_details.take(i as int));
            assert(next.last() == details@[i as int]@);
            assert(c.reasoning_details[i as int] == details@[i as int]@);
            if !shown {
                match details[i].get("text") {
                    Some(v) => match v.as_str() {
                        Some(t) => {
                            if !t.is_empty() {
                                out.push(Emitted::Thinking(t.to_owned()));
                                assert(emitted_views(out@) =~= before.push(
                                    EmittedView::Thinking(t@),
                                ));
                            }
                        },
                        None => {},
                    },
                    None => {},
                }
            }
            self.add_fragment(&details[i]);
            i = i + 1;
        }
        assert(c.reasoning_details.take(i as int) =~= c.reasoning_details);
        let ghost before = emitted_views(out@);
        let ghost content = self@.content;
        self.content.append(choice.content.as_str());
        if !choice.content.as_str().is_empty() {
            out.push(Emitted::Content(choice.content));
            assert(emitted_views(out@) =~= before + seq![EmittedView::Content(c.content)]);
        } else {
            assert(before + Seq::<EmittedView>::empty() =~= before);
        }
        assert(emitted_views(out@) == choice_emits(c));
        let ghost mid2 = self@;
        let n: usize = choice.tool_calls.len();
        let mut rest = choice.tool_calls;
        let mut k: usize = 0;
        while k < n
            invariant
                k <= n,
                n == c.tool_calls.len(),
                rest@.len() == n - k,
                indices_fit(c),
                forall|q: int| 0 <= q < n - k ==> (#[trigger] rest@[q])@ == c.tool_calls[k + q],
                self@ == (ChatStreamView {
                    calls: with_call_deltas(mid2.calls, c.tool_calls.take(k as int)),
                    ..mid2
                }),
            decreases n - k,
        {
            let ghost next = c.tool_calls.take(k + 1);
            assert(next.drop_last() =~= c.tool_calls.take(k as int));
            assert(rest@[0]@ == next.last());
            assert(c.tool_calls[k as int].index < usize::MAX);
            let d = rest.remove(0);
            self.add_call_delta(d);
            k = k + 1;
        }
        assert(c.tool_calls.take(k as int) =~= c.tool_calls);
        assert(self@ == choice_step(old(self)@, c));
        out
    }

    /// Takes a chunk in, and gives what it hands on.
    pub fn on_chunk(&mut self, chunk: StreamChunk) -> (r: Vec<Emitted>)
        requires
            forall|i: int|
                0 <= i < chunk.choices@.len() ==> indices_fit((#[trigger] chunk.choices@[i])@),
        ensures
            final(self)@ == chunk_step(old(self)@, chunk),
            emitted_views(r@) == choices_emit(choice_views(chunk.choices@)),
    {
        match chunk.usage {
            Some(u) => {
                self.total_tokens = Some(u.total_tokens);
                self.prompt_tokens = Some(u.prompt_tokens);
            },
            None => {},
        }
        let ghost start = self@;
        let ghost cs = choice_views(chunk.choices@);
        let n: usize = chunk.choices.len();
        let mut rest = chunk.choices;
        let mut out: Vec<Emitted> = Vec::new();
        let mut i: usize = 0;
        assert(emitted_views(out@) =~= Seq::empty());
        while i < n
            invariant
                i <= n,
                n == cs.len(),
                rest@.len() == n - i,
                forall|k: int| 0 <= k < n ==> indices_fit(#[trigger] cs[k]),
                forall|k: int| 0 <= k < n - i ==> (#[trigger] rest@[k])@ == cs[i + k],
                self@ == choices_step(start, cs.take(i as int)),
                emitted_views(out@) == choices_emit(cs.take(i as int)),
            decreases n - i,
        {
            let ghost next = cs.take(i + 1);
            let ghost before = out@;
            assert(next.drop_last() =~= cs.take(i as int));
            assert(rest@[0]@ == next.last());
            assert(indices_fit(cs[i as int]));
            let c = rest.remove(0);
            let mut more = self.on_choice(c);
            let ghost added = more@;
            out.append(&mut more);
            assert(emitted_views(out@) =~= emitted_views(before) + emitted_views(added));
            i = i + 1;
        }
        assert(cs.take(i as int) =~= cs);
        out
    }

    /// The finished tool calls, up to the first whose arguments are refused,
    /// and the error of that refusal.
    pub fn close_calls(&self) -> (r: (Vec<ToolCall>, Option<ProviderError>))
        ensures
            call_views(r.0@) == closed_calls(self@.calls).0,
            match r.1 {
                Some(e) => closed_calls(self@.calls).1 is Some && e@ == ProviderErrorView::Decode(
                    closed_calls(self@.calls).1->0,
                ),
                None => closed_calls(self@.calls).1 is None,
            },
    {
        let ghost cs = self@.calls;
        let mut out: Vec<ToolCall> = Vec::new();
        let mut i: usize = 0;
        assert(call_views(out@) =~= Seq::empty());
        while i < self.calls.len()
            invariant
                i <= self.calls@.len(),
                cs == self@.calls,
                closed_calls(cs.take(i as int)).0 == call_views(out@),
                closed_calls(cs.take(i as int)).1 is None,
            decreases self.calls@.len() - i,
        {
            let ghost next = cs.take(i + 1);
            let ghost before = call_views(out@);
            assert(next.drop_last() =~= cs.take(i as int));
            assert(next.last() == self.calls@[i as int]@);
            match parse_input(self.calls[i].arguments.as_str()) {
                Ok(j) => {
                    out.push(
                        ToolCall {
                            id: self.calls[i].id.clone(),
                            name: self.calls[i].name.clone(),
                            arguments: j,
                        },
                    );
                    assert(call_views(out@) =~= before.push(out@.last()@));
                },
                Err(e) => {
                    proof {
                        lemma_refusal_stays(cs, i + 1);
                    }
                    return (out, Some(e));
                },
            }
            i = i + 1;
        }
        assert(cs.take(i as int) =~= cs);
        (out, None)
    }

    /// The message of a stream that has ended, with its finished tool calls.
    pub fn finish(self, calls: Vec<ToolCall>) -> (r: Message)
        ensures
            r@ == streamed_message(self@, call_views(calls@)),
    {
        let ghost ds = self@.details;
        let n: usize = self.details.len();
        let mut rest = self.details;
        let mut blocks: Vec<Json> = Vec::new();
        let mut i: usize = 0;
        assert(items_view(blocks@) =~= Seq::empty());
        while i < n
            invariant
                i <= n,
                n == ds.len(),
                rest@.len() == n - i,
                forall|k: int| 0 <= k < n - i ==> (#[trigger] rest@[k])@ == ds[i + k],
                items_view(blocks@) == filled(ds.take(i as int)),
            decreases n - i,
        {
            broadcast use lemma_items_push;

            let ghost next = ds.take(i + 1);
            assert(next.drop_last() =~= ds.take(i as int));
            assert(rest@[0]@ == next.last());
            let block = rest.remove(0);
            if block.entries.len() > 0 {
                proof {
                    lemma_entry_present(block.entries@, 0);
                    assert(block@ != no_members());
                }
                blocks.push(Json::Object(block));
            }
            i = i + 1;
        }
        assert(ds.take(i as int) =~= ds);
        let text = if self.saw_reasoning {
            Some(self.reasoning)
        } else {
            None
        };
        let mut reply = Message::of_text(Role::Assistant, self.content.as_str());
        reply.tool_calls = calls;
        reply.token_count = self.total_tokens;
        reply.context_tokens = self.prompt_tokens;
        reply.thinking_content = assemble_thinking(blocks, text);
        reply.finish_reason = opt_finish_reason(&self.finish_reason);
        reply
    }
}

proof fn lemma_refusal_stays(cs: Seq<AccumView>, n: int)
    requires
        0 <= n <= cs.len(),
        closed_calls(cs.take(n)).1 is Some,
    ensures
        closed_calls(cs) == closed_calls(cs.take(n)),
    decreases cs.len(),
{
    if n < cs.len() {
        assert(cs.drop_last().take(n) =~= cs.take(n));
        lemma_refusal_stays(cs.drop_last(), n);
    } else {
        assert(cs.take(n) =~= cs);
    }
}

} // verus!
