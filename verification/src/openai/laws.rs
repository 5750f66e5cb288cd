//! Laws of the streamed and the plain form of a response.

use vstd::prelude::*;
use crate::emitted::EmittedView;
use crate::json::{no_members, JsonView};
use crate::message::MessageView;
use crate::openai::response::{
    calls_of, message_of, opt_finish_of, ResponseCallView, ResponseMessageView, Usage,
};
use crate::openai::stream::{
    choice_emits, choice_step, choices_emit, choices_step, closed_calls, extended, filled,
    fragment_index, fragment_texts, fresh, grown_calls, grown_details, merged_block, no_call,
    streamed_message, usage_step, with_call_deltas, with_fragments, AccumView, CallDeltaView,
    ChatStreamView, ChoiceView,
};
use crate::text::concat;

verus! {

/// The content among what a stream hands on, one piece after the other.
pub open spec fn content_of(es: Seq<EmittedView>) -> Seq<char>
    decreases es.len(),
{
    if es.len() == 0 {
        Seq::empty()
    } else {
        match es.last() {
            EmittedView::Content(t) => content_of(es.drop_last()) + t,
            EmittedView::Thinking(_) => content_of(es.drop_last()),
        }
    }
}

proof fn lemma_content_append(a: Seq<EmittedView>, b: Seq<EmittedView>)
    ensures
        content_of(a + b) == content_of(a) + content_of(b),
    decreases b.len(),
{
    if b.len() == 0 {
        assert(a + b =~= a);
        assert(content_of(a) + Seq::<char>::empty() =~= content_of(a));
    } else {
        assert((a + b).drop_last() =~= a + b.drop_last());
        lemma_content_append(a, b.drop_last());
        match b.last() {
            EmittedView::Content(t) => {
                assert(content_of(a) + content_of(b.drop_last()) + t =~= content_of(a) + (content_of(
                    b.drop_last(),
                ) + t));
            },
            EmittedView::Thinking(_) => {},
        }
    }
}

proof fn lemma_fragments_hold_no_content(fs: Seq<JsonView>)
    ensures
        content_of(fragment_texts(fs)) == Seq::<char>::empty(),
    decreases fs.len(),
{
    if fs.len() > 0 {
        lemma_fragments_hold_no_content(fs.drop_last());
        let all = fragment_texts(fs);
        let front = fragment_texts(fs.drop_last());
        if all != front {
            assert(all.drop_last() =~= front);
        }
    }
}

proof fn lemma_choice_content(c: ChoiceView)
    ensures
        content_of(choice_emits(c)) == c.content,
{
    let es = choice_emits(c);
    lemma_fragments_hold_no_content(c.reasoning_details);
    reveal_with_fuel(content_of, 2);
    if c.content.len() > 0 {
        let last = EmittedView::Content(c.content);
        assert(es.last() == last);
        let front = es.drop_last();
        if crate::openai::stream::streams_reasoning(c) {
            assert(front =~= seq![
                EmittedView::Thinking(crate::openai::stream::choice_reasoning(c)->0),
            ]);
            assert(front.drop_last() =~= Seq::<EmittedView>::empty());
        } else {
            assert(front =~= fragment_texts(c.reasoning_details));
        }
        assert(content_of(front) =~= Seq::<char>::empty());
        assert(Seq::<char>::empty() + c.content =~= c.content);
    } else {
        assert(c.content =~= Seq::<char>::empty());
        if crate::openai::stream::streams_reasoning(c) {
            assert(es.drop_last() =~= Seq::<EmittedView>::empty());
        } else {
            assert(es =~= fragment_texts(c.reasoning_details));
        }
    }
}

/// The content that a stream hands on, piece by piece, is the content of the
/// message at its end.
pub proof fn law_content_is_what_was_handed_on(s: ChatStreamView, cs: Seq<ChoiceView>)
    ensures
        choices_step(s, cs).content == s.content + content_of(choices_emit(cs)),
    decreases cs.len(),
{
    if cs.len() == 0 {
        assert(s.content + Seq::<char>::empty() =~= s.content);
    } else {
        law_content_is_what_was_handed_on(s, cs.drop_last());
        lemma_choice_content(cs.last());
        lemma_content_append(choices_emit(cs.drop_last()), choice_emits(cs.last()));
        assert(s.content + content_of(choices_emit(cs.drop_last())) + cs.last().content
            =~= s.content + (content_of(choices_emit(cs.drop_last())) + cs.last().content));
    }
}

/// Splitting the choices of a stream over chunks does not matter: running the
/// choices of one and then those of the other is running all of them.
pub proof fn law_chunks_do_not_matter(s: ChatStreamView, a: Seq<ChoiceView>, b: Seq<ChoiceView>)
    ensures
        choices_step(s, a + b) == choices_step(choices_step(s, a), b),
        choices_emit(a + b) == choices_emit(a) + choices_emit(b),
    decreases b.len(),
{
    if b.len() == 0 {
        assert(a + b =~= a);
        assert(choices_emit(a) + Seq::<EmittedView>::empty() =~= choices_emit(a));
    } else {
        assert((a + b).drop_last() =~= a + b.drop_last());
        law_chunks_do_not_matter(s, a, b.drop_last());
        assert(choices_emit(a) + choices_emit(b.drop_last()) + choice_emits(b.last())
            =~= choices_emit(a) + (choices_emit(b.drop_last()) + choice_emits(b.last())));
    }
}

/// Pieces of the arguments of the tool call at `index`.
pub open spec fn argument_deltas(index: int, pieces: Seq<Seq<char>>) -> Seq<CallDeltaView> {
    pieces.map_values(
        |p: Seq<char>| CallDeltaView { index, id: None, name: None, arguments: Some(p) },
    )
}

/// The arguments of a tool call that arrive in pieces add up, and no other
/// tool call changes.
pub proof fn law_argument_pieces_add_up(calls: Seq<AccumView>, index: int, pieces: Seq<Seq<char>>)
    requires
        0 <= index < calls.len(),
    ensures
        with_call_deltas(calls, argument_deltas(index, pieces)) == calls.update(
            index,
            AccumView {
                arguments: calls[index].arguments + concat(pieces),
                ..calls[index]
            },
        ),
    decreases pieces.len(),
{
    let a = calls[index];
    let after = AccumView { arguments: a.arguments + concat(pieces), ..a };
    let ds = argument_deltas(index, pieces);
    if pieces.len() == 0 {
        assert(a.arguments + Seq::<char>::empty() =~= a.arguments);
        assert(calls.update(index, after) =~= calls);
    } else {
        assert(ds.drop_last() =~= argument_deltas(index, pieces.drop_last()));
        law_argument_pieces_add_up(calls, index, pieces.drop_last());
        assert(a.arguments + concat(pieces.drop_last()) + pieces.last() =~= a.arguments + concat(
            pieces,
        ));
        assert(with_call_deltas(calls, ds.drop_last()).update(index, after) =~= calls.update(
            index,
            after,
        ));
    }
}

/// A fragment that adds to the text of a reasoning block.
pub open spec fn text_fragment(index: JsonView, piece: Seq<char>) -> JsonView {
    JsonView::Object(
        no_members().insert("index"@, index).insert("text"@, JsonView::Str(piece)),
    )
}

/// A structured reasoning block that arrives in fragments is put together
/// again: its text is all the pieces in order, its other members stay, and no
/// other block changes.
pub proof fn law_fragments_are_put_together(
    details: Seq<Map<Seq<char>, JsonView>>,
    i: int,
    index: JsonView,
    text: Seq<char>,
    pieces: Seq<Seq<char>>,
)
    requires
        0 <= i < details.len(),
        crate::json::json_as_u64(index) is Some,
        (crate::json::json_as_u64(index)->0 as usize) as int == i,
        details[i].dom().contains("text"@),
        details[i]["text"@] == JsonView::Str(text),
        details[i].dom().contains("index"@),
        details[i]["index"@] == index,
    ensures
        with_fragments(details, pieces.map_values(|p: Seq<char>| text_fragment(index, p)))
            == details.update(i, details[i].insert("text"@, JsonView::Str(text + concat(pieces)))),
    decreases pieces.len(),
{
    reveal_strlit("index");
    reveal_strlit("text");
    assert("index"@.len() != "text"@.len());
    let fs = pieces.map_values(|p: Seq<char>| text_fragment(index, p));
    let after = details[i].insert("text"@, JsonView::Str(text + concat(pieces)));
    if pieces.len() == 0 {
        assert(text + Seq::<char>::empty() =~= text);
        assert(after =~= details[i]);
        assert(details.update(i, after) =~= details);
    } else {
        assert(fs.drop_last() =~= pieces.drop_last().map_values(
            |p: Seq<char>| text_fragment(index, p),
        ));
        law_fragments_are_put_together(details, i, index, text, pieces.drop_last());
        let before = with_fragments(details, fs.drop_last());
        let f = text_fragment(index, pieces.last());
        assert(fs.last() == f);
        assert(fragment_index(f, before.len()) == i);
        assert(text + concat(pieces.drop_last()) + pieces.last() =~= text + concat(pieces));
        assert(merged_block(before[i], f) =~= after);
        assert(before.update(i, after) =~= details.update(i, after));
    }
}

/// A message that is streamed in one choice.
pub open spec fn whole_choice(m: ResponseMessageView, finish: Option<Seq<char>>) -> ChoiceView {
    ChoiceView {
        content: m.content,
        reasoning_content: m.reasoning_content,
        reasoning: m.reasoning,
        reasoning_details: m.reasoning_details,
        tool_calls: Seq::new(
            m.tool_calls.len(),
            |i: int|
                CallDeltaView {
                    index: i,
                    id: Some(m.tool_calls[i].id),
                    name: Some(m.tool_calls[i].name),
                    arguments: Some(m.tool_calls[i].arguments),
                },
        ),
        finish_reason: finish,
    }
}

proof fn lemma_whole_calls(cs: Seq<ResponseCallView>, n: int)
    requires
        0 <= n <= cs.len(),
    ensures
        ({
            let ds = Seq::new(
                cs.len(),
                |i: int|
                    CallDeltaView {
                        index: i,
                        id: Some(cs[i].id),
                        name: Some(cs[i].name),
                        arguments: Some(cs[i].arguments),
                    },
            );
            with_call_deltas(Seq::empty(), ds.take(n)) == Seq::new(
                n as nat,
                |i: int|
                    AccumView { id: cs[i].id, name: cs[i].name, arguments: cs[i].arguments },
            )
        }),
    decreases n,
{
    let ds = Seq::new(
        cs.len(),
        |i: int|
            CallDeltaView {
                index: i,
                id: Some(cs[i].id),
                name: Some(cs[i].name),
                arguments: Some(cs[i].arguments),
            },
    );
    let accs = Seq::new(
        n as nat,
        |i: int| AccumView { id: cs[i].id, name: cs[i].name, arguments: cs[i].arguments },
    );
    if n == 0 {
        assert(with_call_deltas(Seq::empty(), ds.take(0)) =~= accs);
    } else {
        lemma_whole_calls(cs, n - 1);
        assert(ds.take(n).drop_last() =~= ds.take(n - 1));
        let before = with_call_deltas(Seq::empty(), ds.take(n - 1));
        let d = ds.take(n).last();
        assert(d == ds[n - 1]);
        let g = grown_calls(before, n - 1);
        assert(g[n - 1] == no_call());
        assert(no_call().name + cs[n - 1].name =~= cs[n - 1].name);
        assert(no_call().arguments + cs[n - 1].arguments =~= cs[n - 1].arguments);
        assert(g.update(n - 1, extended(g[n - 1], d)) =~= accs);
    }
}

proof fn lemma_closed_agree(cs: Seq<ResponseCallView>, accs: Seq<AccumView>)
    requires
        accs.len() == cs.len(),
        forall|i: int|
            0 <= i < cs.len() ==> accs[i] == (AccumView {
                id: cs[i].id,
                name: cs[i].name,
                arguments: cs[i].arguments,
            }),
        forall|i: int| 0 <= i < cs.len() ==> (#[trigger] cs[i]).arguments.len() > 0,
    ensures
        match calls_of(cs) {
            Ok(calls) => closed_calls(accs) == (calls, None::<Seq<char>>),
            Err(why) => closed_calls(accs).1 == Some(why),
        },
    decreases cs.len(),
{
    if cs.len() > 0 {
        let c = cs.drop_last();
        let a = accs.drop_last();
        assert forall|i: int| 0 <= i < c.len() implies (#[trigger] c[i]).arguments.len() > 0
            && a[i] == (AccumView { id: c[i].id, name: c[i].name, arguments: c[i].arguments }) by {
            assert(c[i] == cs[i]);
        }
        lemma_closed_agree(c, a);
        assert(cs.last() == cs[cs.len() - 1]);
        assert(accs.last() == accs[cs.len() - 1]);
    }
}

/// Whether structured reasoning blocks are whole: objects with members, each
/// without an `index` or with its own position as `index`.
pub open spec fn whole_blocks(ds: Seq<JsonView>) -> bool {
    forall|i: int|
        0 <= i < ds.len() ==> (#[trigger] ds[i]) is Object && ds[i]->Object_0 != no_members()
            && fragment_index(ds[i], i as nat) == i
}

proof fn lemma_whole_blocks(ds: Seq<JsonView>)
    requires
        whole_blocks(ds),
    ensures
        with_fragments(Seq::empty(), ds) == Seq::new(ds.len(), |i: int| ds[i]->Object_0),
    decreases ds.len(),
{
    let all = Seq::new(ds.len(), |i: int| ds[i]->Object_0);
    if ds.len() == 0 {
        assert(all =~= Seq::empty());
    } else {
        let front = ds.drop_last();
        assert(whole_blocks(front)) by {
            assert forall|i: int| 0 <= i < front.len() implies (#[trigger] front[i]) is Object
                && front[i]->Object_0 != no_members() && fragment_index(front[i], i as nat)
                == i by {
                assert(front[i] == ds[i]);
            }
        }
        lemma_whole_blocks(front);
        let n = ds.len() - 1;
        let before = with_fragments(Seq::empty(), front);
        assert(ds[n] is Object);
        let g = grown_details(before, n);
        assert(g[n] == no_members());
        assert(merged_block(g[n], ds[n]) =~= ds[n]->Object_0);
        assert(g.update(n, ds[n]->Object_0) =~= all);
    }
}

proof fn lemma_filled_whole(ds: Seq<JsonView>)
    requires
        whole_blocks(ds),
    ensures
        filled(Seq::new(ds.len(), |i: int| ds[i]->Object_0)) == ds,
    decreases ds.len(),
{
    let all = Seq::new(ds.len(), |i: int| ds[i]->Object_0);
    if ds.len() == 0 {
        assert(ds =~= Seq::empty());
    } else {
        let front = ds.drop_last();
        assert(whole_blocks(front)) by {
            assert forall|i: int| 0 <= i < front.len() implies (#[trigger] front[i]) is Object
                && front[i]->Object_0 != no_members() && fragment_index(front[i], i as nat)
                == i by {
                assert(front[i] == ds[i]);
            }
        }
        lemma_filled_whole(front);
        assert(all.drop_last() =~= Seq::new(front.len(), |i: int| front[i]->Object_0));
        assert(ds[ds.len() - 1] is Object);
        assert(front.push(ds.last()) =~= ds);
    }
}

/// A message that is streamed, in one choice, gives what the same message
/// gives when it is not streamed: the same message, or a failure where the
/// other fails.
///
/// Left out are tool calls without any argument text: streamed they have no
/// arguments, and not streamed they are refused.
pub proof fn law_streamed_and_plain_agree(
    m: ResponseMessageView,
    usage: Option<Usage>,
    finish: Option<Seq<char>>,
)
    requires
        m.role == "assistant"@,
        forall|i: int| 0 <= i < m.tool_calls.len() ==> (#[trigger] m.tool_calls[i]).arguments.len() > 0,
        whole_blocks(m.reasoning_details),
    ensures
        ({
            let s = choice_step(usage_step(fresh(), usage), whole_choice(m, finish));
            match message_of(m) {
                Ok(plain) => closed_calls(s.calls).1 is None && streamed_message(
                    s,
                    closed_calls(s.calls).0,
                ) == (MessageView {
                    token_count: match usage {
                        Some(u) => Some(u.total_tokens),
                        None => None,
                    },
                    context_tokens: match usage {
                        Some(u) => Some(u.prompt_tokens),
                        None => None,
                    },
                    finish_reason: opt_finish_of(finish),
                    ..plain
                }),
                Err(e) => closed_calls(s.calls).1 is Some,
            }
        }),
{
    reveal_strlit("assistant");
    reveal_strlit("system");
    reveal_strlit("user");
    assert("assistant"@.len() == 9 && "system"@.len() == 6 && "user"@.len() == 4);
    let c = whole_choice(m, finish);
    let s = choice_step(usage_step(fresh(), usage), c);
    lemma_whole_calls(m.tool_calls, m.tool_calls.len() as int);
    assert(c.tool_calls.take(m.tool_calls.len() as int) =~= c.tool_calls);
    lemma_closed_agree(m.tool_calls, s.calls);
    lemma_whole_blocks(m.reasoning_details);
    lemma_filled_whole(m.reasoning_details);
    assert(Seq::<char>::empty() + m.content =~= m.content);
    match crate::openai::stream::choice_reasoning(c) {
        Some(t) => {
            assert(Seq::<char>::empty() + t =~= t);
        },
        None => {},
    }
}

} // verus!
