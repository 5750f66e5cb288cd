//! Laws of what is read out of a response: what the model says, thinks and
//! calls is kept apart, whole and in order.

use vstd::prelude::*;
use crate::emitted::EmittedView;
use crate::gemini::response::{
    arrived_message, candidate_step, candidate_views, candidates_emit, candidates_step, chunk_step,
    part_step, parts_emit, parts_step, signatures, CandidateView, ContentStreamView,
    GenerateContentResponse, PartView, SignedCallView,
};
use crate::message::{content_text, law_plain_message_reads_back, FinishView, Role};
use crate::text::{lemma_flat_map_add, lemma_flat_map_last};

verus! {

/// Whether a part is marked as a thought.
pub open spec fn is_thought(p: PartView) -> bool {
    p.thought is Some && p.thought->0
}

/// The text of a part, if it has any.
pub open spec fn text_of_part(p: PartView) -> Seq<char> {
    match p.text {
        Some(t) => t,
        None => Seq::empty(),
    }
}

/// What the parts say: the texts of exactly those that are no thoughts.
pub open spec fn said(ps: Seq<PartView>) -> Seq<char> {
    ps.filter(|p: PartView| !is_thought(p)).flat_map(|p: PartView| text_of_part(p))
}

/// What the parts think: the texts of exactly those that are thoughts.
pub open spec fn thought(ps: Seq<PartView>) -> Seq<char> {
    ps.filter(|p: PartView| is_thought(p)).flat_map(|p: PartView| text_of_part(p))
}

/// The calls of the parts, each with the signature that stands beside it.
pub open spec fn called(ps: Seq<PartView>) -> Seq<SignedCallView> {
    ps.filter_map(
        |p: PartView|
            match p.function_call {
                Some(c) => Some(SignedCallView { call: c, signature: p.thought_signature }),
                None => None,
            },
    )
}

/// What is handed on for the parts: each text, as thinking or as content.
pub open spec fn handed_on(ps: Seq<PartView>) -> Seq<EmittedView> {
    ps.filter_map(
        |p: PartView|
            match p.text {
                Some(t) => Some(
                    if is_thought(p) {
                        EmittedView::Thinking(t)
                    } else {
                        EmittedView::Content(t)
                    },
                ),
                None => None,
            },
    )
}

/// The content among what was handed on, put together.
pub open spec fn content_handed_on(es: Seq<EmittedView>) -> Seq<char> {
    es.flat_map(
        |e: EmittedView|
            match e {
                EmittedView::Content(t) => t,
                EmittedView::Thinking(_) => Seq::empty(),
            },
    )
}

/// The thinking among what was handed on, put together.
pub open spec fn thinking_handed_on(es: Seq<EmittedView>) -> Seq<char> {
    es.flat_map(
        |e: EmittedView|
            match e {
                EmittedView::Content(_) => Seq::empty(),
                EmittedView::Thinking(t) => t,
            },
    )
}

proof fn lemma_said_last(ps: Seq<PartView>)
    requires
        ps.len() > 0,
    ensures
        said(ps) == said(ps.drop_last()) + (if is_thought(ps.last()) {
            Seq::empty()
        } else {
            text_of_part(ps.last())
        }),
        thought(ps) == thought(ps.drop_last()) + (if is_thought(ps.last()) {
            text_of_part(ps.last())
        } else {
            Seq::empty()
        }),
{
    reveal(Seq::filter);
    let g = |p: PartView| text_of_part(p);
    let no = |p: PartView| !is_thought(p);
    let yes = |p: PartView| is_thought(p);
    if is_thought(ps.last()) {
        lemma_flat_map_last(ps.filter(yes), g);
        assert(ps.filter(yes).drop_last() =~= ps.drop_last().filter(yes));
        assert(said(ps) =~= said(ps.drop_last()) + Seq::<char>::empty());
    } else {
        lemma_flat_map_last(ps.filter(no), g);
        assert(ps.filter(no).drop_last() =~= ps.drop_last().filter(no));
        assert(thought(ps) =~= thought(ps.drop_last()) + Seq::<char>::empty());
    }
}

proof fn lemma_nothing_said()
    ensures
        said(Seq::empty()) == Seq::<char>::empty(),
        thought(Seq::empty()) == Seq::<char>::empty(),
{
    reveal(Seq::filter);
    let g = |p: PartView| text_of_part(p);
    assert(Seq::<PartView>::empty().flat_map(g) =~= Seq::empty());
}

/// A part marked as a thought leaves the text as it was and adds to the
/// thinking; any other adds to the text and leaves the thinking as it was. A
/// part without a text adds to neither.
pub proof fn law_thoughts_are_kept_out_of_the_text(s: ContentStreamView, p: PartView)
    ensures
        is_thought(p) ==> part_step(s, p).text == s.text,
        is_thought(p) ==> part_step(s, p).thinking == s.thinking + text_of_part(p),
        !is_thought(p) ==> part_step(s, p).text == s.text + text_of_part(p),
        !is_thought(p) ==> part_step(s, p).thinking == s.thinking,
        p.function_call is None ==> part_step(s, p).calls == s.calls,
        part_step(s, p).usage == s.usage,
        part_step(s, p).finish_reason == s.finish_reason,
{
    assert(s.text + Seq::<char>::empty() =~= s.text);
    assert(s.thinking + Seq::<char>::empty() =~= s.thinking);
}

proof fn lemma_parts(s: ContentStreamView, ps: Seq<PartView>)
    ensures
        parts_step(s, ps).text == s.text + said(ps),
        parts_step(s, ps).thinking == s.thinking + thought(ps),
        parts_step(s, ps).calls == s.calls + called(ps),
        parts_step(s, ps).usage == s.usage,
        parts_step(s, ps).finish_reason == s.finish_reason,
        parts_emit(ps) == handed_on(ps),
    decreases ps.len(),
{
    if ps.len() == 0 {
        lemma_nothing_said();
        assert(ps =~= Seq::empty());
        assert(s.text + said(ps) =~= s.text);
        assert(s.thinking + thought(ps) =~= s.thinking);
        assert(s.calls + called(ps) =~= s.calls);
    } else {
        let front = ps.drop_last();
        let p = ps.last();
        lemma_parts(s, front);
        lemma_said_last(ps);
        law_thoughts_are_kept_out_of_the_text(parts_step(s, front), p);
        assert(parts_step(s, ps).text =~= s.text + said(ps));
        assert(parts_step(s, ps).thinking =~= s.thinking + thought(ps));
        assert(parts_step(s, ps).calls =~= s.calls + called(ps));
        assert(parts_emit(ps) =~= handed_on(ps));
    }
}

/// Every part of every candidate counts, in order: the text grows by what is
/// said, the thinking by what is thought, the calls by what is called, and
/// nothing else changes but the finish reason, which is the last one given.
pub proof fn law_every_part_arrives(s: ContentStreamView, cs: Seq<CandidateView>)
    ensures
        ({
            let ps = cs.flat_map(|c: CandidateView| c.parts);
            let t = candidates_step(s, cs);
            let reasons = cs.filter_map(|c: CandidateView| c.finish_reason);
            &&& t.text == s.text + said(ps)
            &&& t.thinking == s.thinking + thought(ps)
            &&& t.calls == s.calls + called(ps)
            &&& t.usage == s.usage
            &&& t.finish_reason == if reasons.len() > 0 {
                Some(reasons.last())
            } else {
                s.finish_reason
            }
            &&& candidates_emit(cs) == handed_on(ps)
        }),
    decreases cs.len(),
{
    let g = |c: CandidateView| c.parts;
    let r = |c: CandidateView| c.finish_reason;
    let ps = cs.flat_map(g);
    if cs.len() == 0 {
        lemma_nothing_said();
        assert(ps =~= Seq::empty());
        assert(s.text + said(ps) =~= s.text);
        assert(s.thinking + thought(ps) =~= s.thinking);
        assert(s.calls + called(ps) =~= s.calls);
    } else {
        let front = cs.drop_last().flat_map(g);
        let last = cs.last().parts;
        let before = candidates_step(s, cs.drop_last());
        law_every_part_arrives(s, cs.drop_last());
        lemma_flat_map_last(cs, g);
        let opened = ContentStreamView {
            finish_reason: match cs.last().finish_reason {
                Some(x) => Some(x),
                None => before.finish_reason,
            },
            ..before
        };
        assert(candidates_step(s, cs) == candidate_step(before, cs.last()));
        lemma_parts(opened, last);
        lemma_parts_add(front, last);
        let t = candidates_step(s, cs);
        assert(t.text =~= s.text + said(ps));
        assert(t.thinking =~= s.thinking + thought(ps));
        assert(t.calls =~= s.calls + called(ps));
    }
}

proof fn lemma_parts_add(a: Seq<PartView>, b: Seq<PartView>)
    ensures
        said(a + b) == said(a) + said(b),
        thought(a + b) == thought(a) + thought(b),
        called(a + b) == called(a) + called(b),
        handed_on(a + b) == handed_on(a) + handed_on(b),
    decreases b.len(),
{
    let g = |p: PartView| text_of_part(p);
    let no = |p: PartView| !is_thought(p);
    let yes = |p: PartView| is_thought(p);
    Seq::filter_distributes_over_add(a, b, no);
    Seq::filter_distributes_over_add(a, b, yes);
    lemma_flat_map_add(a.filter(no), b.filter(no), g);
    lemma_flat_map_add(a.filter(yes), b.filter(yes), g);
    if b.len() == 0 {
        assert(a + b =~= a);
        assert(called(a) + called(b) =~= called(a));
        assert(handed_on(a) + handed_on(b) =~= handed_on(a));
    } else {
        lemma_parts_add(a, b.drop_last());
        assert((a + b).drop_last() =~= a + b.drop_last());
        assert(called(a + b) =~= called(a) + called(b));
        assert(handed_on(a + b) =~= handed_on(a) + handed_on(b));
    }
}

/// The text is what was handed on as content, piece by piece, and the
/// thinking what was handed on as thinking.
pub proof fn law_text_is_what_was_handed_on(s: ContentStreamView, cs: Seq<CandidateView>)
    ensures
        candidates_step(s, cs).text == s.text + content_handed_on(candidates_emit(cs)),
        candidates_step(s, cs).thinking == s.thinking + thinking_handed_on(candidates_emit(cs)),
{
    law_every_part_arrives(s, cs);
    lemma_handed_on(cs.flat_map(|c: CandidateView| c.parts));
}

proof fn lemma_handed_on(ps: Seq<PartView>)
    ensures
        content_handed_on(handed_on(ps)) == said(ps),
        thinking_handed_on(handed_on(ps)) == thought(ps),
    decreases ps.len(),
{
    let c = |e: EmittedView|
        match e {
            EmittedView::Content(t) => t,
            EmittedView::Thinking(_) => Seq::empty(),
        };
    let t = |e: EmittedView|
        match e {
            EmittedView::Content(_) => Seq::empty(),
            EmittedView::Thinking(t) => t,
        };
    if ps.len() == 0 {
        lemma_nothing_said();
        assert(ps =~= Seq::empty());
        assert(handed_on(ps).flat_map(c) =~= Seq::empty());
        assert(handed_on(ps).flat_map(t) =~= Seq::empty());
    } else {
        lemma_handed_on(ps.drop_last());
        lemma_said_last(ps);
        let front = handed_on(ps.drop_last());
        let all = handed_on(ps);
        if ps.last().text is Some {
            assert(all.drop_last() =~= front);
            lemma_flat_map_last(all, c);
            lemma_flat_map_last(all, t);
        }
        assert(content_handed_on(all) =~= said(ps));
        assert(thinking_handed_on(all) =~= thought(ps));
    }
}

/// A chunk brings its candidates and, where it counts anything, its usage in
/// place of the earlier one.
pub proof fn law_chunk_brings_its_usage(s: ContentStreamView, chunk: GenerateContentResponse)
    ensures
        ({
            let t = chunk_step(s, chunk);
            let u = candidates_step(s, candidate_views(chunk.candidates@));
            &&& t.text == u.text && t.thinking == u.thinking && t.calls == u.calls
            &&& t.finish_reason == u.finish_reason
            &&& t.usage == if chunk.usage_metadata is Some {
                chunk.usage_metadata
            } else {
                s.usage
            }
        }),
{
    law_every_part_arrives(s, candidate_views(chunk.candidates@));
}

/// The message of what arrived: the assistant's, with the text, with one
/// thinking block where anything was thought, with every call in order, and
/// with the counts of the usage.
pub proof fn law_message_is_what_arrived(s: ContentStreamView)
    ensures
        ({
            let m = arrived_message(s);
            &&& m.role == Role::Assistant
            &&& content_text(m.content) == s.text
            &&& m.thinking_content.len() == if s.thinking.len() > 0 {
                1nat
            } else {
                0nat
            }
            &&& s.thinking.len() > 0 ==> m.thinking_content[0].text == s.thinking
                && m.thinking_content[0].signature is None
            &&& m.tool_calls.len() == s.calls.len()
            &&& forall|i: int|
                0 <= i < s.calls.len() ==> #[trigger] m.tool_calls[i] == s.calls[i].call
            &&& s.usage is None ==> m.token_count is None && m.context_tokens is None
            &&& s.usage is Some ==> m.token_count == Some(s.usage->0.total_token_count)
                && m.context_tokens == Some(s.usage->0.prompt_token_count)
            &&& m.finish_reason is Some <==> s.finish_reason is Some
            &&& m.tool_call_id is None
        }),
{
    law_plain_message_reads_back(Role::Assistant, s.text);
}

/// Each finish reason has one meaning, and one that is not known is kept as
/// it came.
pub proof fn law_finish_reasons_have_one_meaning(s: ContentStreamView, raw: Seq<char>)
    requires
        s.finish_reason == Some(raw),
    ensures
        ({
            let finish = arrived_message(s).finish_reason;
            &&& finish == Some(FinishView::Stop) <==> raw == "STOP"@
            &&& finish == Some(FinishView::Length) <==> raw == "MAX_TOKENS"@
            &&& finish == Some(FinishView::Refusal) <==> raw == "SAFETY"@ || raw == "RECITATION"@
                || raw == "BLOCKLIST"@ || raw == "PROHIBITED_CONTENT"@ || raw == "SPII"@
            &&& finish != Some(FinishView::ToolCalls)
            &&& finish is Some && finish->0 is Other ==> finish == Some(FinishView::Other(raw))
        }),
{
    reveal_strlit("STOP");
    reveal_strlit("MAX_TOKENS");
    reveal_strlit("SAFETY");
    reveal_strlit("RECITATION");
    reveal_strlit("BLOCKLIST");
    reveal_strlit("PROHIBITED_CONTENT");
    reveal_strlit("SPII");
    assert("STOP"@[1] == 'T' && "SPII"@[1] == 'P');
    assert("STOP"@.len() == 4 && "MAX_TOKENS"@.len() == 10 && "SAFETY"@.len() == 6);
    assert("RECITATION"@.len() == 10 && "BLOCKLIST"@.len() == 9);
    assert("MAX_TOKENS"@[0] == 'M' && "RECITATION"@[0] == 'R');
    assert("PROHIBITED_CONTENT"@.len() == 18 && "SPII"@.len() == 4);
}

/// A signature is kept for exactly those calls that came with one, in order
/// and under the id of the call.
pub proof fn law_signatures_are_those_of_the_calls(cs: Seq<SignedCallView>)
    ensures
        signatures(cs) == cs.filter_map(
            |c: SignedCallView|
                match c.signature {
                    Some(x) => Some((c.call.id, x)),
                    None => None,
                },
        ),
    decreases cs.len(),
{
    if cs.len() > 0 {
        law_signatures_are_those_of_the_calls(cs.drop_last());
    }
}

} // verus!
