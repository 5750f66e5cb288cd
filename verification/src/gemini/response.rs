//! Messages out of Gemini's responses, streamed or not.

use vstd::prelude::*;
use crate::emitted::{emitted_views, Emitted, EmittedView};
use crate::error::{ProviderError, ProviderErrorView};
use crate::gemini::wire::pair_views;
use crate::json::Json;
use crate::message::{
    call_views, plain_message, plain_thinking, FinishReason, FinishView, Message, MessageView,
    Role, ThinkingContent, ToolCall, ToolCallView,
};
use crate::text::{join2, opt_text, text_eq};

verus! {

/// A function call of a response.
#[derive(Debug)]
pub struct FunctionCall {
    pub id: String,
    pub name: String,
    pub args: Json,
}

/// A part of a response.
#[derive(Debug)]
pub struct Part {
    pub text: Option<String>,
    pub thought: Option<bool>,
    pub function_call: Option<FunctionCall>,
    pub thought_signature: Option<String>,
}

/// The model of a part.
pub ghost struct PartView {
    pub text: Option<Seq<char>>,
    pub thought: Option<bool>,
    pub function_call: Option<ToolCallView>,
    pub thought_signature: Option<Seq<char>>,
}

impl View for Part {
    type V = PartView;

    open spec fn view(&self) -> PartView {
        PartView {
            text: opt_text(self.text),
            thought: self.thought,
            function_call: match self.function_call {
                Some(f) => Some(ToolCallView { id: f.id@, name: f.name@, arguments: f.args@ }),
                None => None,
            },
            thought_signature: opt_text(self.thought_signature),
        }
    }
}

/// The models of parts.
pub open spec fn part_views(s: Seq<Part>) -> Seq<PartView> {
    s.map_values(|p: Part| p@)
}

/// One answer of a response.
#[derive(Debug)]
pub struct Candidate {
    pub parts: Vec<Part>,
    pub finish_reason: Option<String>,
}

/// The model of an answer.
pub ghost struct CandidateView {
    pub parts: Seq<PartView>,
    pub finish_reason: Option<Seq<char>>,
}

impl View for Candidate {
    type V = CandidateView;

    open spec fn view(&self) -> CandidateView {
        CandidateView {
            parts: part_views(self.parts@),
            finish_reason: opt_text(self.finish_reason),
        }
    }
}

/// The models of answers.
pub open spec fn candidate_views(s: Seq<Candidate>) -> Seq<CandidateView> {
    s.map_values(|c: Candidate| c@)
}

/// Token counts of a response.
#[derive(Clone, Copy, Debug, PartialEq, Eq, Structural)]
pub struct UsageMetadata {
    pub prompt_token_count: usize,
    pub total_token_count: usize,
}

/// A response, or a chunk of a streamed one.
#[derive(Debug)]
pub struct GenerateContentResponse {
    pub candidates: Vec<Candidate>,
    pub usage_metadata: Option<UsageMetadata>,
}

/// A function call with the signature that came with it.
#[derive(Debug)]
pub struct SignedCall {
    pub id: String,
    pub name: String,
    pub args: Json,
    pub signature: Option<String>,
}

/// The model of a function call with its signature.
pub ghost struct SignedCallView {
    pub call: ToolCallView,
    pub signature: Option<Seq<char>>,
}

impl View for SignedCall {
    type V = SignedCallView;

    open spec fn view(&self) -> SignedCallView {
        SignedCallView {
            call: ToolCallView { id: self.id@, name: self.name@, arguments: self.args@ },
            signature: opt_text(self.signature),
        }
    }
}

/// The models of function calls with their signatures.
pub open spec fn signed_views(s: Seq<SignedCall>) -> Seq<SignedCallView> {
    s.map_values(|c: SignedCall| c@)
}

/// A response as far as it has arrived.
#[derive(Debug)]
pub struct ContentStream {
    pub text: String,
    pub thinking: String,
    pub calls: Vec<SignedCall>,
    pub usage: Option<UsageMetadata>,
    pub finish_reason: Option<String>,
}

/// The model of a response as far as it has arrived.
pub ghost struct ContentStreamView {
    pub text: Seq<char>,
    pub thinking: Seq<char>,
    pub calls: Seq<SignedCallView>,
    pub usage: Option<UsageMetadata>,
    pub finish_reason: Option<Seq<char>>,
}

impl View for ContentStream {
    type V = ContentStreamView;

    open spec fn view(&self) -> ContentStreamView {
        ContentStreamView {
            text: self.text@,
            thinking: self.thinking@,
            calls: signed_views(self.calls@),
            usage: self.usage,
            finish_reason: opt_text(self.finish_reason),
        }
    }
}

/// A response of which nothing has arrived.
pub open spec fn fresh() -> ContentStreamView {
    ContentStreamView {
        text: Seq::empty(),
        thinking: Seq::empty(),
        calls: Seq::empty(),
        usage: None,
        finish_reason: None,
    }
}

/// The response after a part: a text is content, or thinking where it is
/// marked as a thought; a function call is kept with its signature.
pub open spec fn part_step(s: ContentStreamView, p: PartView) -> ContentStreamView {
    ContentStreamView {
        text: match p.text {
            Some(t) => if p.thought == Some(true) {
                s.text
            } else {
                s.text + t
            },
            None => s.text,
        },
        thinking: match p.text {
            Some(t) => if p.thought == Some(true) {
                s.thinking + t
            } else {
                s.thinking
            },
            None => s.thinking,
        },
        calls: match p.function_call {
            Some(c) => s.calls.push(SignedCallView { call: c, signature: p.thought_signature }),
            None => s.calls,
        },
        ..s
    }
}

/// What a part hands on.
pub open spec fn part_emits(p: PartView) -> Seq<EmittedView> {
    match p.text {
        Some(t) => if p.thought == Some(true) {
            seq![EmittedView::Thinking(t)]
        } else {
            seq![EmittedView::Content(t)]
        },
        None => Seq::empty(),
    }
}

/// The response after several parts.
pub open spec fn parts_step(s: ContentStreamView, ps: Seq<PartView>) -> ContentStreamView
    decreases ps.len(),
{
    if ps.len() == 0 {
        s
    } else {
        part_step(parts_step(s, ps.drop_last()), ps.last())
    }
}

/// What several parts hand on.
pub open spec fn parts_emit(ps: Seq<PartView>) -> Seq<EmittedView>
    decreases ps.len(),
{
    if ps.len() == 0 {
        Seq::empty()
    } else {
        parts_emit(ps.drop_last()) + part_emits(ps.last())
    }
}

/// The response after an answer.
pub open spec fn candidate_step(s: ContentStreamView, c: CandidateView) -> ContentStreamView {
    parts_step(
        ContentStreamView {
            finish_reason: match c.finish_reason {
                Some(r) => Some(r),
                None => s.finish_reason,
            },
            ..s
        },
        c.parts,
    )
}

/// The response after several answers.
pub open spec fn candidates_step(s: ContentStreamView, cs: Seq<CandidateView>) -> ContentStreamView
    decreases cs.len(),
{
    if cs.len() == 0 {
        s
    } else {
        candidate_step(candidates_step(s, cs.drop_last()), cs.last())
    }
}

/// What several answers hand on.
pub open spec fn candidates_emit(cs: Seq<CandidateView>) -> Seq<EmittedView>
    decreases cs.len(),
{
    if cs.len() == 0 {
        Seq::empty()
    } else {
        candidates_emit(cs.drop_last()) + parts_emit(cs.last().parts)
    }
}

/// The response after a chunk.
pub open spec fn chunk_step(s: ContentStreamView, chunk: GenerateContentResponse) -> ContentStreamView {
    let t = candidates_step(s, candidate_views(chunk.candidates@));
    match chunk.usage_metadata {
        Some(u) => ContentStreamView { usage: Some(u), ..t },
        None => t,
    }
}

/// What a finish reason means.
pub open spec fn finish_of(raw: Seq<char>) -> FinishView {
    if raw == "STOP"@ {
        FinishView::Stop
    } else if raw == "MAX_TOKENS"@ {
        FinishView::Length
    } else if raw == "SAFETY"@ || raw == "RECITATION"@ || raw == "BLOCKLIST"@ || raw
        == "PROHIBITED_CONTENT"@ || raw == "SPII"@ {
        FinishView::Refusal
    } else {
        FinishView::Other(raw)
    }
}

/// The tool calls of a response.
pub open spec fn plain_calls(cs: Seq<SignedCallView>) -> Seq<ToolCallView> {
    cs.map_values(|c: SignedCallView| c.call)
}

/// The signatures that came with function calls, by the id of the call.
pub open spec fn signatures(cs: Seq<SignedCallView>) -> Seq<(Seq<char>, Seq<char>)>
    decreases cs.len(),
{
    if cs.len() == 0 {
        Seq::empty()
    } else {
        let front = signatures(cs.drop_last());
        match cs.last().signature {
            Some(s) => front.push((cs.last().call.id, s)),
            None => front,
        }
    }
}

/// The names of function calls, by the id of the call.
pub open spec fn names(cs: Seq<SignedCallView>) -> Seq<(Seq<char>, Seq<char>)> {
    cs.map_values(|c: SignedCallView| (c.call.id, c.call.name))
}

/// The message of a response that has arrived.
pub open spec fn arrived_message(s: ContentStreamView) -> MessageView {
    MessageView {
        thinking_content: if s.thinking.len() == 0 {
            Seq::empty()
        } else {
            seq![plain_thinking(s.thinking)]
        },
        tool_calls: plain_calls(s.calls),
        token_count: match s.usage {
            Some(u) => Some(u.total_token_count),
            None => None,
        },
        context_tokens: match s.usage {
            Some(u) => Some(u.prompt_token_count),
            None => None,
        },
        finish_reason: match s.finish_reason {
            Some(r) => Some(finish_of(r)),
            None => None,
        },
        ..plain_message(Role::Assistant, s.text)
    }
}

/// The failure of a streamed chunk that is no JSON of the expected shape.
pub fn invalid_chunk(reason: &str, data: &str) -> (r: ProviderError)
    ensures
        r@ == ProviderErrorView::Decode(
            "invalid JSON in SSE data: "@ + reason@ + ". raw: "@ + data@,
        ),
{
    let mut message = join2("invalid JSON in SSE data: ", reason);
    message.append(". raw: ");
    message.append(data);
    ProviderError::Decode(message)
}

/// What a finish reason means. An unknown one is kept.
pub fn map_finish_reason(raw: &str) -> (r: FinishReason)
    ensures
        r@ == finish_of(raw@),
{
    if text_eq(raw, "STOP") {
        FinishReason::Stop
    } else if text_eq(raw, "MAX_TOKENS") {
        FinishReason::Length
    } else if text_eq(raw, "SAFETY") || text_eq(raw, "RECITATION") || text_eq(raw, "BLOCKLIST")
        || text_eq(raw, "PROHIBITED_CONTENT") || text_eq(raw, "SPII") {
        FinishReason::Refusal
    } else {
        FinishReason::Other(raw.to_owned())
    }
}

/// A message, and what has to be remembered of its tool calls.
#[derive(Debug)]
pub struct Reply {
    pub message: Message,
    pub thought_signatures: Vec<(String, String)>,
    pub tool_names: Vec<(String, String)>,
}

impl ContentStream {
    /// A response of which nothing has arrived.
    pub fn new() -> (r: ContentStream)
        ensures
            r@ == fresh(),
    {
        let r = ContentStream {
            text: String::new(),
            thinking: String::new(),
            calls: Vec::new(),
            usage: None,
            finish_reason: None,
        };
        assert(r@.text =~= Seq::empty());
        assert(r@.thinking =~= Seq::empty());
        assert(r@.calls =~= Seq::empty());
        r
    }

    fn on_part(&mut self, part: Part, out: &mut Vec<Emitted>)
        ensures
            final(self)@ == part_step(old(self)@, part@),
            emitted_views(final(out)@) == emitted_views(old(out)@) + part_emits(part@),
    {
        let ghost before = emitted_views(out@);
        let ghost calls = self@.calls;
        let is_thought = match part.thought {
            Some(b) => b,
            None => false,
        };
        match part.text {
            Some(t) => {
                if is_thought {
                    self.thinking.append(t.as_str());
                    out.push(Emitted::Thinking(t));
                    assert(emitted_views(out@) =~= before + seq![EmittedView::Thinking(t@)]);
                } else {
                    self.text.append(t.as_str());
                    out.push(Emitted::Content(t));
                    assert(emitted_views(out@) =~= before + seq![EmittedView::Content(t@)]);
                }
            },
            None => {
                assert(before + Seq::<EmittedView>::empty() =~= before);
            },
        }
        match part.function_call {
            Some(f) => {
                self.calls.push(
                    SignedCall {
                        id: f.id,
                        name: f.name,
                        args: f.args,
                        signature: part.thought_signature,
                    },
                );
                assert(self@.calls =~= calls.push(self.calls@.last()@));
            },
            None => {},
        }
    }

    fn on_candidate(&mut self, candidate: Candidate, out: &mut Vec<Emitted>)
        ensures
            final(self)@ == candidate_step(old(self)@, candidate@),
            emitted_views(final(out)@) == emitted_views(old(out)@) + parts_emit(candidate@.parts),
    {
        match candidate.finish_reason {
            Some(r) => {
                self.finish_reason = Some(r);
            },
            None => {},
        }
        let ghost start = self@;
        let ghost sent = emitted_views(out@);
        let ghost ps = part_views(candidate.parts@);
        let n: usize = candidate.parts.len();
        let mut rest = candidate.parts;
        let mut i: usize = 0;
        assert(sent + parts_emit(ps.take(0)) =~= sent);
        while i < n
            invariant
                i <= n,
                n == ps.len(),
                rest@.len() == n - i,
                forall|k: int| 0 <= k < n - i ==> (#[trigger] rest@[k])@ == ps[i + k],
                self@ == parts_step(start, ps.take(i as int)),
                emitted_views(out@) == sent + parts_emit(ps.take(i as int)),
            decreases n - i,
        {
            let ghost next = ps.take(i + 1);
            assert(next.drop_last() =~= ps.take(i as int));
            assert(rest@[0]@ == next.last());
            let p = rest.remove(0);
            self.on_part(p, out);
            i = i + 1;
            assert(emitted_views(out@) =~= sent + parts_emit(next));
        }
        assert(ps.take(i as int) =~= ps);
    }

    /// Takes a chunk in, and gives what it hands on.
    pub fn on_chunk(&mut self, chunk: GenerateContentResponse) -> (r: Vec<Emitted>)
        ensures
            final(self)@ == chunk_step(old(self)@, chunk),
            emitted_views(r@) == candidates_emit(candidate_views(chunk.candidates@)),
    {
        let ghost start = self@;
        let ghost cs = candidate_views(chunk.candidates@);
        let n: usize = chunk.candidates.len();
        let mut rest = chunk.candidates;
        let mut out: Vec<Emitted> = Vec::new();
        let mut i: usize = 0;
        assert(emitted_views(out@) =~= Seq::empty());
        while i < n
            invariant
                i <= n,
                n == cs.len(),
                rest@.len() == n - i,
                forall|k: int| 0 <= k < n - i ==> (#[trigger] rest@[k])@ == cs[i + k],
                self@ == candidates_step(start, cs.take(i as int)),
                emitted_views(out@) == candidates_emit(cs.take(i as int)),
            decreases n - i,
        {
            let ghost next = cs.take(i + 1);
            assert(next.drop_last() =~= cs.take(i as int));
            assert(rest@[0]@ == next.last());
            let c = rest.remove(0);
            self.on_candidate(c, &mut out);
            i = i + 1;
        }
        assert(cs.take(i as int) =~= cs);
        match chunk.usage_metadata {
            Some(u) => {
                self.usage = Some(u);
            },
            None => {},
        }
        out
    }

    /// The message of a response that has arrived, and what has to be
    /// remembered of its tool calls.
    pub fn finish(self) -> (r: Reply)
        ensures
            r.message@ == arrived_message(self@),
            pair_views(r.thought_signatures@) == signatures(self@.calls),
            pair_views(r.tool_names@) == names(self@.calls),
    {
        let ghost cs = self@.calls;
        let n: usize = self.calls.len();
        let mut rest = self.calls;
        let mut calls: Vec<ToolCall> = Vec::new();
        let mut thought_signatures: Vec<(String, String)> = Vec::new();
        let mut tool_names: Vec<(String, String)> = Vec::new();
        let mut i: usize = 0;
        assert(call_views(calls@) =~= plain_calls(cs.take(0)));
        assert(pair_views(thought_signatures@) =~= signatures(cs.take(0)));
        assert(pair_views(tool_names@) =~= names(cs.take(0)));
        while i < n
            invariant
                i <= n,
                n == cs.len(),
                rest@.len() == n - i,
                forall|k: int| 0 <= k < n - i ==> (#[trigger] rest@[k])@ == cs[i + k],
                call_views(calls@) == plain_calls(cs.take(i as int)),
                pair_views(thought_signatures@) == signatures(cs.take(i as int)),
                pair_views(tool_names@) == names(cs.take(i as int)),
            decreases n - i,
        {
            let ghost next = cs.take(i + 1);
            let ghost sigs = pair_views(thought_signatures@);
            let ghost seen = pair_views(tool_names@);
            let ghost done = call_views(calls@);
            assert(next.drop_last() =~= cs.take(i as int));
            assert(rest@[0]@ == next.last());
            let c = rest.remove(0);
            match c.signature {
                Some(s) => {
                    thought_signatures.push((c.id.clone(), s));
                    assert(pair_views(thought_signatures@) =~= sigs.push((c.id@, s@)));
                },
                None => {},
            }
            tool_names.push((c.id.clone(), c.name.clone()));
            assert(pair_views(tool_names@) =~= seen.push((c.id@, c.name@)));
            assert(names(next) =~= names(cs.take(i as int)).push((c.id@, c.name@)));
            calls.push(ToolCall { id: c.id, name: c.name, arguments: c.args });
            assert(call_views(calls@) =~= done.push(next.last().call));
            assert(plain_calls(next) =~= plain_calls(cs.take(i as int)).push(next.last().call));
            i = i + 1;
        }
        assert(cs.take(i as int) =~= cs);
        let mut message = Message::of_text(Role::Assistant, self.text.as_str());
        message.tool_calls = calls;
        message.token_count = match self.usage {
            Some(u) => Some(u.total_token_count),
            None => None,
        };
        message.context_tokens = match self.usage {
            Some(u) => Some(u.prompt_token_count),
            None => None,
        };
        message.finish_reason = match &self.finish_reason {
            Some(r) => Some(map_finish_reason(r.as_str())),
            None => None,
        };
        if !self.thinking.as_str().is_empty() {
            message.thinking_content = vec![ThinkingContent::new(self.thinking)];
            assert(message@.thinking_content =~= seq![plain_thinking(self@.thinking)]);
        }
        Reply { message, thought_signatures, tool_names }
    }
}

/// The message of a response that was not streamed. A response without an
/// answer is refused.
pub fn parse_response(resp: GenerateContentResponse) -> (r: Result<Reply, ProviderError>)
    ensures
        match r {
            Ok(reply) => {
                let s = chunk_step(fresh(), resp);
                &&& resp.candidates@.len() > 0
                &&& reply.message@ == arrived_message(s)
                &&& pair_views(reply.thought_signatures@) == signatures(s.calls)
                &&& pair_views(reply.tool_names@) == names(s.calls)
            },
            Err(e) => resp.candidates@.len() == 0 && e@ == ProviderErrorView::EmptyResponse,
        },
{
    if resp.candidates.len() == 0 {
        return Err(ProviderError::EmptyResponse);
    }
    let mut s = ContentStream::new();
    s.on_chunk(resp);
    Ok(s.finish())
}

} // verus!
