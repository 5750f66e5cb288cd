//! Laws of what is read out of responses, whole or streamed.

use vstd::prelude::*;
use crate::emitted::EmittedView;
use crate::error::ProviderErrorView;
use crate::json::{json_as_u64, json_failure, json_of_text, member, no_members, JsonView};
use crate::message::{
    content_text, law_plain_message_reads_back, FinishView, MessageView, Role, ToolCallView,
};
use crate::openai::response::{
    calls_of, member_text, message_of, reply_of, role_of, thinking_of, ChatResponse,
    ResponseCallView, ResponseMessageView,
};
use crate::openai::stream::{
    choice_emits, choices_step, chunk_step, choice_views, closed_calls, filled, fragment_texts,
    grown_calls, streamed_message, usage_step, with_call_delta, with_call_deltas, with_fragment,
    AccumView, CallDeltaView, ChatStreamView, ChoiceView, StreamChunk,
};
use crate::openai::wire::role_name;
use crate::text::{lemma_flat_map_last, opt_text};

verus! {

/// A role is read back from the name under which it is sent, and no other
/// text is the name of a role.
pub proof fn law_role_reads_back(r: Role, name: Seq<char>)
    ensures
        role_of(role_name(r)) == Some(r),
        role_of(name) == Some(r) ==> name == role_name(r),
        role_of(name) is None <==> name != "system"@ && name != "user"@ && name != "assistant"@
            && name != "tool"@,
{
    reveal_strlit("system");
    reveal_strlit("user");
    reveal_strlit("assistant");
    reveal_strlit("tool");
    assert("system"@.len() == 6 && "user"@.len() == 4 && "assistant"@.len() == 9);
    assert("tool"@.len() == 4 && "user"@[0] == 'u' && "tool"@[0] == 't');
}

/// Whether a call was read out of a response: with its id, its name and its
/// arguments as they parse.
pub open spec fn reads_as(c: ResponseCallView, t: ToolCallView) -> bool {
    t.id == c.id && t.name == c.name && Some(t.arguments) == json_of_text(c.arguments)
}

/// All calls are read, one for one and in order, or none: they are refused
/// exactly where the arguments of one are not JSON, with what is wrong with
/// the first such.
pub proof fn law_calls_are_read_one_for_one(cs: Seq<ResponseCallView>)
    ensures
        match calls_of(cs) {
            Ok(calls) => calls.len() == cs.len() && forall|i: int|
                0 <= i < cs.len() ==> reads_as(#[trigger] cs[i], calls[i]),
            Err(why) => exists|i: int|
                {
                    &&& 0 <= i < cs.len()
                    &&& json_of_text((#[trigger] cs[i]).arguments) is None
                    &&& why == json_failure(cs[i].arguments)
                    &&& forall|k: int|
                        0 <= k < i ==> json_of_text((#[trigger] cs[k]).arguments) is Some
                },
        },
    decreases cs.len(),
{
    if cs.len() > 0 {
        let front = cs.drop_last();
        law_calls_are_read_one_for_one(front);
        match calls_of(front) {
            Ok(before) => {
                assert forall|k: int| 0 <= k < front.len() implies reads_as(
                    #[trigger] cs[k],
                    before[k],
                ) by {
                    assert(front[k] == cs[k]);
                }
                let i = cs.len() - 1;
                assert(cs[i] == cs.last());
            },
            Err(why) => {
                let i = choose|i: int|
                    {
                        &&& 0 <= i < front.len()
                        &&& json_of_text((#[trigger] front[i]).arguments) is None
                        &&& why == json_failure(front[i].arguments)
                        &&& forall|k: int|
                            0 <= k < i ==> json_of_text((#[trigger] front[k]).arguments) is Some
                    };
                assert(cs[i] == front[i]);
                assert forall|k: int| 0 <= k < i implies json_of_text(
                    (#[trigger] cs[k]).arguments,
                ) is Some by {
                    assert(front[k] == cs[k]);
                }
            },
        }
    }
}

/// The reply is read out of the first choice: its text, its calls, what the
/// usage counts and why the model stopped. There is none exactly where there
/// is no choice, its role is not known, or some arguments are not JSON.
pub proof fn law_reply_is_the_first_choice(r: ChatResponse)
    ensures
        r.choices@.len() == 0 <==> reply_of(r) == Err::<MessageView, ProviderErrorView>(
            ProviderErrorView::EmptyResponse,
        ),
        r.choices@.len() > 0 ==> {
            let first = r.choices@[0].message@;
            let name = first.role;
            &&& role_of(name) is None ==> reply_of(r) == Err::<MessageView, ProviderErrorView>(
                ProviderErrorView::UnknownRole(name),
            )
            &&& role_of(name) is Some ==> (reply_of(r) is Ok <==> forall|i: int|
                0 <= i < first.tool_calls.len() ==> json_of_text(
                    (#[trigger] first.tool_calls[i]).arguments,
                ) is Some)
            &&& reply_of(r) is Ok ==> {
                let m = reply_of(r)->Ok_0;
                &&& role_of(name) == Some(m.role)
                &&& content_text(m.content) == first.content
                &&& m.tool_calls.len() == first.tool_calls.len()
                &&& forall|i: int|
                    0 <= i < first.tool_calls.len() ==> reads_as(
                        #[trigger] first.tool_calls[i],
                        m.tool_calls[i],
                    )
                &&& m.token_count == if r.usage is Some {
                    Some(r.usage->0.total_tokens)
                } else {
                    None
                }
                &&& m.context_tokens == if r.usage is Some {
                    Some(r.usage->0.prompt_tokens)
                } else {
                    None
                }
                &&& m.finish_reason is Some <==> r.choices@[0].finish_reason is Some
                &&& m.tool_call_id is None
            }
        },
{
    if r.choices@.len() > 0 {
        let first = r.choices@[0].message@;
        law_calls_are_read_one_for_one(first.tool_calls);
        if role_of(first.role) is Some {
            law_plain_message_reads_back(role_of(first.role)->0, first.content);
        }
        if calls_of(first.tool_calls) is Ok {
            assert forall|i: int| 0 <= i < first.tool_calls.len() implies json_of_text(
                (#[trigger] first.tool_calls[i]).arguments,
            ) is Some by {
                assert(reads_as(first.tool_calls[i], calls_of(first.tool_calls)->Ok_0[i]));
            }
        }
    }
}

/// The thinking of a reply: structured blocks, each kept whole with its text
/// or its summary, win over a plain text; `reasoning_content` wins over
/// `reasoning`; an empty text is still a block.
pub proof fn law_thinking_is_read(m: ResponseMessageView)
    requires
        message_of(m) is Ok,
    ensures
        ({
            let t = message_of(m)->Ok_0.thinking_content;
            &&& m.reasoning_details.len() > 0 ==> t.len() == m.reasoning_details.len() && forall|
                i: int,
            |
                #![trigger t[i]]
                0 <= i < t.len() ==> {
                    let d = m.reasoning_details[i];
                    &&& t[i].details == Some(d)
                    &&& member_text(d, "text"@) is Some ==> Some(t[i].text) == member_text(
                        d,
                        "text"@,
                    )
                    &&& member_text(d, "text"@) is None && member_text(d, "summary"@) is Some
                        ==> Some(t[i].text) == member_text(d, "summary"@)
                    &&& member_text(d, "text"@) is None && member_text(d, "summary"@) is None
                        ==> t[i].text.len() == 0
                    &&& t[i].signature == member_text(d, "signature"@)
                }
            &&& m.reasoning_details.len() == 0 && m.reasoning_content is Some ==> t.len() == 1
                && Some(t[0].text) == m.reasoning_content && t[0].details is None
            &&& m.reasoning_details.len() == 0 && m.reasoning_content is None && m.reasoning is Some
                ==> t.len() == 1 && Some(t[0].text) == m.reasoning && t[0].details is None
            &&& m.reasoning_details.len() == 0 && m.reasoning_content is None && m.reasoning is None
                ==> t.len() == 0
        }),
{
}

/// Each finish reason has one meaning, and one that is not known is kept as
/// it came.
pub proof fn law_finish_reasons_have_one_meaning(
    s: ChatStreamView,
    calls: Seq<ToolCallView>,
    raw: Seq<char>,
    r: ChatResponse,
)
    requires
        s.finish_reason == Some(raw),
    ensures
        ({
            let finish = streamed_message(s, calls).finish_reason;
            &&& finish == Some(FinishView::Stop) <==> raw == "stop"@
            &&& finish == Some(FinishView::Length) <==> raw == "length"@
            &&& finish == Some(FinishView::ToolCalls) <==> raw == "tool_calls"@
            &&& finish == Some(FinishView::Refusal) <==> raw == "content_filter"@
            &&& finish is Some && finish->0 is Other ==> finish == Some(FinishView::Other(raw))
            &&& reply_of(r) is Ok && opt_text(r.choices@[0].finish_reason) == Some(raw)
                ==> reply_of(r)->Ok_0.finish_reason == finish
        }),
{
    reveal_strlit("stop");
    reveal_strlit("length");
    reveal_strlit("tool_calls");
    reveal_strlit("content_filter");
    assert("stop"@.len() == 4 && "length"@.len() == 6 && "tool_calls"@.len() == 10);
    assert("content_filter"@.len() == 14);
}

/// The reasoning text of a choice: `reasoning_content`, else `reasoning`.
pub open spec fn reasoning_given(c: ChoiceView) -> Option<Seq<char>> {
    if c.reasoning_content is Some {
        c.reasoning_content
    } else {
        c.reasoning
    }
}

/// What a stream has gathered after choices: all their contents, all their
/// reasoning, the last finish reason given, and the counts as they were.
pub proof fn law_every_choice_arrives(s: ChatStreamView, cs: Seq<ChoiceView>)
    ensures
        ({
            let t = choices_step(s, cs);
            let given = cs.filter_map(|c: ChoiceView| reasoning_given(c));
            let reasons = cs.filter_map(|c: ChoiceView| c.finish_reason);
            &&& t.content == s.content + cs.flat_map(|c: ChoiceView| c.content)
            &&& t.reasoning == s.reasoning + given.flatten()
            &&& t.saw_reasoning <==> s.saw_reasoning || given.len() > 0
            &&& t.finish_reason == if reasons.len() > 0 {
                Some(reasons.last())
            } else {
                s.finish_reason
            }
            &&& t.total_tokens == s.total_tokens
            &&& t.prompt_tokens == s.prompt_tokens
        }),
    decreases cs.len(),
{
    let g = |c: ChoiceView| c.content;
    let r = |c: ChoiceView| reasoning_given(c);
    let t = choices_step(s, cs);
    if cs.len() == 0 {
        assert(s.content + cs.flat_map(g) =~= s.content);
        assert(s.reasoning + cs.filter_map(r).flatten() =~= s.reasoning);
    } else {
        let front = cs.drop_last();
        law_every_choice_arrives(s, front);
        lemma_flat_map_last(cs, g);
        assert(t.content =~= s.content + cs.flat_map(g));
        match reasoning_given(cs.last()) {
            Some(x) => {
                front.filter_map(r).lemma_flatten_push(x);
                assert(cs.filter_map(r) =~= front.filter_map(r).push(x));
                assert(t.reasoning =~= s.reasoning + cs.filter_map(r).flatten());
            },
            None => {},
        }
    }
}

/// A chunk brings its choices and, where it counts anything, its counts in
/// place of the earlier ones.
pub proof fn law_chunk_brings_its_counts(s: ChatStreamView, c: StreamChunk)
    ensures
        ({
            let t = chunk_step(s, c);
            let u = choices_step(s, choice_views(c.choices@));
            &&& t.content == u.content && t.reasoning == u.reasoning
            &&& t.saw_reasoning == u.saw_reasoning && t.finish_reason == u.finish_reason
            &&& c.usage is None ==> t.total_tokens == s.total_tokens && t.prompt_tokens
                == s.prompt_tokens
            &&& c.usage is Some ==> t.total_tokens == Some(c.usage->0.total_tokens)
                && t.prompt_tokens == Some(c.usage->0.prompt_tokens)
        }),
{
    law_every_choice_arrives(s, choice_views(c.choices@));
    law_every_choice_arrives(usage_step(s, c.usage), choice_views(c.choices@));
}

/// What is handed on for a choice: its reasoning where that is not empty,
/// else the texts of its structured fragments that are not empty; then its
/// content where that is not empty.
pub proof fn law_choice_is_handed_on(c: ChoiceView)
    ensures
        ({
            let thinking = if reasoning_given(c) is Some && reasoning_given(c)->0.len() > 0 {
                seq![reasoning_given(c)->0]
            } else {
                c.reasoning_details.filter_map(|d: JsonView| member_text(d, "text"@)).filter(
                    |t: Seq<char>| t.len() > 0,
                )
            };
            let content = if c.content.len() > 0 {
                seq![c.content]
            } else {
                Seq::empty()
            };
            choice_emits(c) == thinking.map_values(|t: Seq<char>| EmittedView::Thinking(t))
                + content.map_values(|t: Seq<char>| EmittedView::Content(t))
        }),
{
    lemma_fragment_texts(c.reasoning_details);
    let content = if c.content.len() > 0 {
        seq![c.content]
    } else {
        Seq::empty()
    };
    assert(content.map_values(|t: Seq<char>| EmittedView::Content(t)) =~= (if c.content.len() > 0 {
        seq![EmittedView::Content(c.content)]
    } else {
        Seq::empty()
    }));
    if reasoning_given(c) is Some && reasoning_given(c)->0.len() > 0 {
        assert(seq![reasoning_given(c)->0].map_values(|t: Seq<char>| EmittedView::Thinking(t))
            =~= seq![EmittedView::Thinking(reasoning_given(c)->0)]);
    }
}

proof fn lemma_fragment_texts(ds: Seq<JsonView>)
    ensures
        fragment_texts(ds) == ds.filter_map(|d: JsonView| member_text(d, "text"@)).filter(
            |t: Seq<char>| t.len() > 0,
        ).map_values(|t: Seq<char>| EmittedView::Thinking(t)),
    decreases ds.len(),
{
    reveal(Seq::filter);
    let f = |d: JsonView| member_text(d, "text"@);
    let p = |t: Seq<char>| t.len() > 0;
    let g = |t: Seq<char>| EmittedView::Thinking(t);
    if ds.len() > 0 {
        lemma_fragment_texts(ds.drop_last());
        match f(ds.last()) {
            Some(t) => {
                let front = ds.drop_last().filter_map(f);
                assert(ds.filter_map(f) =~= front.push(t));
                assert(front.push(t).drop_last() =~= front);
                assert(fragment_texts(ds) =~= front.push(t).filter(p).map_values(g));
            },
            None => {},
        }
    } else {
        assert(fragment_texts(ds) =~= ds.filter_map(f).filter(p).map_values(g));
    }
}

/// The pieces of one call among call deltas.
pub open spec fn pieces_of(ds: Seq<CallDeltaView>, index: int) -> Seq<CallDeltaView> {
    ds.filter(|d: CallDeltaView| d.index == index)
}

/// What is known of a call before any delta.
pub open spec fn call_before(calls: Seq<AccumView>, index: int) -> AccumView {
    if index < calls.len() {
        calls[index]
    } else {
        AccumView { id: Seq::empty(), name: Seq::empty(), arguments: Seq::empty() }
    }
}

/// Each call gathers exactly the pieces of its index, in order: names and
/// arguments add up, the last id given stands. There are as many calls as the
/// largest index asks for, and none is lost.
pub proof fn law_calls_gather_their_pieces(calls: Seq<AccumView>, ds: Seq<CallDeltaView>, j: int)
    requires
        forall|i: int| 0 <= i < ds.len() ==> (#[trigger] ds[i]).index >= 0,
        0 <= j < with_call_deltas(calls, ds).len(),
    ensures
        ({
            let t = with_call_deltas(calls, ds);
            let mine = pieces_of(ds, j);
            let ids = mine.filter_map(|d: CallDeltaView| d.id);
            &&& t.len() >= calls.len()
            &&& forall|i: int| 0 <= i < ds.len() ==> (#[trigger] ds[i]).index < t.len()
            &&& t.len() == calls.len() || exists|i: int|
                0 <= i < ds.len() && (#[trigger] ds[i]).index == t.len() - 1
            &&& t[j].arguments == call_before(calls, j).arguments + mine.filter_map(
                |d: CallDeltaView| d.arguments,
            ).flatten()
            &&& t[j].name == call_before(calls, j).name + mine.filter_map(
                |d: CallDeltaView| d.name,
            ).flatten()
            &&& t[j].id == if ids.len() > 0 {
                ids.last()
            } else {
                call_before(calls, j).id
            }
        }),
    decreases ds.len(),
{
    let t = with_call_deltas(calls, ds);
    let fa = |d: CallDeltaView| d.arguments;
    let fn_ = |d: CallDeltaView| d.name;
    let fi = |d: CallDeltaView| d.id;
    reveal(Seq::filter);
    lemma_call_count(calls, ds);
    if ds.len() == 0 {
        assert(call_before(calls, j).arguments + pieces_of(ds, j).filter_map(fa).flatten()
            =~= call_before(calls, j).arguments);
        assert(call_before(calls, j).name + pieces_of(ds, j).filter_map(fn_).flatten()
            =~= call_before(calls, j).name);
    } else {
        let front = ds.drop_last();
        let d = ds.last();
        assert(d == ds[ds.len() - 1]);
        let before = with_call_deltas(calls, front);
        assert forall|i: int| 0 <= i < front.len() implies (#[trigger] front[i]).index >= 0 by {
            assert(front[i] == ds[i]);
        }
        assert(t == with_call_delta(before, d));
        lemma_call_count(calls, front);
        if j < before.len() {
            law_calls_gather_their_pieces(calls, front, j);
        } else {
            lemma_no_pieces(front, j, before.len() as int);
            assert(pieces_of(front, j).filter_map(fa) =~= Seq::empty());
            assert(pieces_of(front, j).filter_map(fn_) =~= Seq::empty());
            assert(pieces_of(front, j).filter_map(fi) =~= Seq::empty());
        }
        assert(grown_calls(before, d.index)[j] == call_before(before, j));
        let old_mine = pieces_of(front, j);
        if d.index == j {
            let mine = pieces_of(ds, j);
            assert(mine == old_mine.push(d));
            assert(mine.drop_last() =~= old_mine);
            if d.arguments is Some {
                old_mine.filter_map(fa).lemma_flatten_push(d.arguments->0);
                assert(mine.filter_map(fa) =~= old_mine.filter_map(fa).push(d.arguments->0));
            }
            if d.name is Some {
                old_mine.filter_map(fn_).lemma_flatten_push(d.name->0);
                assert(mine.filter_map(fn_) =~= old_mine.filter_map(fn_).push(d.name->0));
            }
            assert(t[j].arguments =~= call_before(calls, j).arguments + mine.filter_map(
                fa,
            ).flatten());
            assert(t[j].name =~= call_before(calls, j).name + mine.filter_map(fn_).flatten());
        } else {
            assert(pieces_of(ds, j) == old_mine);
            assert(t[j].arguments =~= call_before(calls, j).arguments + old_mine.filter_map(
                fa,
            ).flatten());
            assert(t[j].name =~= call_before(calls, j).name + old_mine.filter_map(fn_).flatten());
        }
    }
}

proof fn lemma_call_count(calls: Seq<AccumView>, ds: Seq<CallDeltaView>)
    requires
        forall|i: int| 0 <= i < ds.len() ==> (#[trigger] ds[i]).index >= 0,
    ensures
        ({
            let t = with_call_deltas(calls, ds);
            &&& t.len() >= calls.len()
            &&& forall|i: int| 0 <= i < ds.len() ==> (#[trigger] ds[i]).index < t.len()
            &&& t.len() == calls.len() || exists|i: int|
                0 <= i < ds.len() && (#[trigger] ds[i]).index == t.len() - 1
        }),
    decreases ds.len(),
{
    if ds.len() > 0 {
        let front = ds.drop_last();
        assert forall|i: int| 0 <= i < front.len() implies (#[trigger] front[i]).index >= 0 by {
            assert(front[i] == ds[i]);
        }
        lemma_call_count(calls, front);
        let before = with_call_deltas(calls, front);
        let t = with_call_deltas(calls, ds);
        assert(ds.last() == ds[ds.len() - 1]);
        assert forall|i: int| 0 <= i < ds.len() implies (#[trigger] ds[i]).index < t.len() by {
            if i < front.len() {
                assert(front[i] == ds[i]);
            }
        }
        if t.len() == before.len() && before.len() != calls.len() {
            let i = choose|i: int|
                0 <= i < front.len() && (#[trigger] front[i]).index == before.len() - 1;
            assert(ds[i] == front[i]);
        }
    }
}

proof fn lemma_no_pieces(ds: Seq<CallDeltaView>, index: int, bound: int)
    requires
        index >= bound,
        forall|i: int| 0 <= i < ds.len() ==> (#[trigger] ds[i]).index < bound,
    ensures
        pieces_of(ds, index) == Seq::<CallDeltaView>::empty(),
    decreases ds.len(),
{
    reveal(Seq::filter);
    if ds.len() > 0 {
        let front = ds.drop_last();
        assert(ds.last() == ds[ds.len() - 1]);
        assert forall|i: int| 0 <= i < front.len() implies (#[trigger] front[i]).index < bound by {
            assert(front[i] == ds[i]);
        }
        lemma_no_pieces(front, index, bound);
    }
}

/// A structured fragment goes to the block that its `index` names, and behind
/// the last where it names none. Texts, summaries and data grow, every other
/// member is replaced, what the fragment does not speak of stays, and so does
/// every other block.
pub proof fn law_fragment_changes_its_block(
    details: Seq<Map<Seq<char>, JsonView>>,
    f: Map<Seq<char>, JsonView>,
    index: int,
)
    requires
        match member(JsonView::Object(f), "index"@) {
            Some(j) => match json_as_u64(j) {
                Some(n) => n <= usize::MAX && index == n,
                None => index == details.len(),
            },
            None => index == details.len(),
        },
    ensures
        ({
            let after = with_fragment(details, JsonView::Object(f));
            let before = if index < details.len() {
                details[index]
            } else {
                no_members()
            };
            let grows = |k: Seq<char>|
                (k == "text"@ || k == "summary"@ || k == "data"@) && before.dom().contains(k)
                    && before[k] is Str && f[k] is Str;
            &&& after.len() == if index < details.len() {
                details.len() as int
            } else {
                index + 1
            }
            &&& forall|i: int|
                0 <= i < details.len() && i != index ==> #[trigger] after[i] == details[i]
            &&& forall|i: int|
                details.len() <= i < index ==> #[trigger] after[i] == no_members()
            &&& forall|k: Seq<char>|
                #[trigger] after[index].dom().contains(k) <==> before.dom().contains(k)
                    || f.dom().contains(k)
            &&& forall|k: Seq<char>|
                before.dom().contains(k) && !f.dom().contains(k) ==> #[trigger] after[index][k]
                    == before[k]
            &&& forall|k: Seq<char>|
                f.dom().contains(k) && !grows(k) ==> #[trigger] after[index][k] == f[k]
            &&& forall|k: Seq<char>|
                f.dom().contains(k) && grows(k) ==> #[trigger] after[index][k] == JsonView::Str(
                    before[k]->Str_0 + f[k]->Str_0,
                )
        }),
{
}

/// The blocks of a finished stream are those that anything arrived for, in
/// order.
pub proof fn law_untouched_blocks_are_left_out(details: Seq<Map<Seq<char>, JsonView>>)
    ensures
        filled(details) == details.filter(
            |d: Map<Seq<char>, JsonView>| d != no_members(),
        ).map_values(|d: Map<Seq<char>, JsonView>| JsonView::Object(d)),
    decreases details.len(),
{
    reveal(Seq::filter);
    if details.len() > 0 {
        law_untouched_blocks_are_left_out(details.drop_last());
    }
    assert(filled(details) =~= details.filter(
        |d: Map<Seq<char>, JsonView>| d != no_members(),
    ).map_values(|d: Map<Seq<char>, JsonView>| JsonView::Object(d)));
}

/// What the arguments of a gathered call mean: an empty text is an object of
/// no member, any other is what it parses as.
pub open spec fn input_of(text: Seq<char>) -> Option<JsonView> {
    if text.len() == 0 {
        Some(JsonView::Object(Map::empty()))
    } else {
        json_of_text(text)
    }
}

/// Closing a stream gives its calls one for one and in order, up to the first
/// whose arguments are not JSON; there is a failure exactly where there is
/// such a call, and it is that call's.
pub proof fn law_calls_are_closed_one_for_one(calls: Seq<AccumView>)
    ensures
        ({
            let (closed, failure) = closed_calls(calls);
            &&& closed.len() <= calls.len()
            &&& forall|i: int|
                #![trigger closed[i]]
                0 <= i < closed.len() ==> closed[i].id == calls[i].id && closed[i].name
                    == calls[i].name && Some(closed[i].arguments) == input_of(calls[i].arguments)
            &&& failure is None <==> closed.len() == calls.len()
            &&& failure is Some ==> input_of(calls[closed.len() as int].arguments) is None
                && failure == Some(json_failure(calls[closed.len() as int].arguments))
        }),
    decreases calls.len(),
{
    if calls.len() > 0 {
        law_calls_are_closed_one_for_one(calls.drop_last());
        let front = closed_calls(calls.drop_last());
        let (closed, failure) = closed_calls(calls);
        assert(calls.last() == calls[calls.len() - 1]);
        assert forall|i: int| 0 <= i < front.0.len() implies closed[i] == #[trigger] front.0[i] by {}
        if front.1 is Some {
            assert(calls.drop_last()[front.0.len() as int] == calls[front.0.len() as int]);
        }
    }
}

/// The message of a finished stream: the assistant's, with the gathered text
/// and calls and the counts; a reasoning text is a block even where it is
/// empty, and gives way to structured blocks.
pub proof fn law_message_is_what_was_gathered(s: ChatStreamView, calls: Seq<ToolCallView>)
    ensures
        ({
            let m = streamed_message(s, calls);
            let blocks = filled(s.details);
            &&& m.role == Role::Assistant
            &&& content_text(m.content) == s.content
            &&& m.tool_calls == calls
            &&& m.token_count == s.total_tokens
            &&& m.context_tokens == s.prompt_tokens
            &&& m.tool_call_id is None
            &&& m.finish_reason is Some <==> s.finish_reason is Some
            &&& blocks.len() > 0 ==> m.thinking_content.len() == blocks.len() && forall|i: int|
                0 <= i < blocks.len() ==> (#[trigger] m.thinking_content[i]).details == Some(
                    blocks[i],
                )
            &&& blocks.len() == 0 && s.saw_reasoning ==> m.thinking_content.len() == 1
                && m.thinking_content[0].text == s.reasoning && m.thinking_content[0].details is None
            &&& blocks.len() == 0 && !s.saw_reasoning ==> m.thinking_content.len() == 0
        }),
{
    law_plain_message_reads_back(Role::Assistant, s.content);
    assert(thinking_of(filled(s.details), None).len() == filled(s.details).len());
}

} // verus!
