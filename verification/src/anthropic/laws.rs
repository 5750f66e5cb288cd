//! Laws of the streamed and the plain form of a response, and of the replay
//! of a response in the next request.

use vstd::prelude::*;
use crate::anthropic::response::{
    response_calls, response_message, response_text, response_thinking, ResponseBlockView, Usage,
};
use crate::anthropic::stream::{
    all_closed, closed, emits, fails, fresh, grown, opened, step, stream_usage,
    DeltaView, EmittedView, EventView, StateView, StreamView,
};
use crate::anthropic::wire::{redacted_block, replayed_thinking, thinking_block};
use crate::arguments::call_input;
use crate::json::JsonView;
use crate::text::concat;

verus! {

/// The stream after a sequence of events.
pub open spec fn run(s: StreamView, es: Seq<EventView>) -> StreamView
    decreases es.len(),
{
    if es.len() == 0 {
        s
    } else {
        step(run(s, es.drop_last()), es.last())
    }
}

/// The text that a sequence of events hands on as content.
pub open spec fn content_emitted(s: StreamView, es: Seq<EventView>) -> Seq<char>
    decreases es.len(),
{
    if es.len() == 0 {
        Seq::empty()
    } else {
        let front = content_emitted(s, es.drop_last());
        match emits(run(s, es.drop_last()), es.last()) {
            Some(EmittedView::Content(t)) => front + t,
            _ => front,
        }
    }
}

/// Whether no event of a sequence ends the stream with an error.
pub open spec fn runs(s: StreamView, es: Seq<EventView>) -> bool
    decreases es.len(),
{
    es.len() == 0 || (runs(s, es.drop_last()) && fails(run(s, es.drop_last()), es.last()) is None)
}

/// How the payload of a block is cut into deltas.
pub ghost struct Cut {
    /// The pieces of the text, of the thinking or of the arguments.
    pub pieces: Seq<Seq<char>>,
    /// The pieces of the signature of a thinking block.
    pub signature: Seq<Seq<char>>,
}

/// Whether a cut gives back the payload of a block.
pub open spec fn fits(b: ResponseBlockView, cut: Cut) -> bool {
    match b {
        ResponseBlockView::Text { text } => concat(cut.pieces) == text,
        ResponseBlockView::Thinking { thinking, signature } => concat(cut.pieces) == thinking
            && concat(cut.signature) == signature,
        ResponseBlockView::ToolUse { input, .. } => call_input(concat(cut.pieces)) == Some(input),
        ResponseBlockView::ServerToolUse { input, .. } => call_input(concat(cut.pieces)) == Some(
            input,
        ),
        _ => true,
    }
}

/// One delta per piece, all for the block `index`.
pub open spec fn text_deltas(index: int, pieces: Seq<Seq<char>>) -> Seq<EventView> {
    pieces.map_values(|p: Seq<char>| EventView::BlockDelta { index, delta: DeltaView::Text(p) })
}

/// One delta per piece, all for the block `index`.
pub open spec fn thinking_deltas(index: int, pieces: Seq<Seq<char>>) -> Seq<EventView> {
    pieces.map_values(|p: Seq<char>| EventView::BlockDelta { index, delta: DeltaView::Thinking(p) })
}

/// One delta per piece, all for the block `index`.
pub open spec fn signature_deltas(index: int, pieces: Seq<Seq<char>>) -> Seq<EventView> {
    pieces.map_values(|p: Seq<char>| EventView::BlockDelta { index, delta: DeltaView::Signature(p) })
}

/// One delta per piece, all for the block `index`.
pub open spec fn input_deltas(index: int, pieces: Seq<Seq<char>>) -> Seq<EventView> {
    pieces.map_values(|p: Seq<char>| EventView::BlockDelta { index, delta: DeltaView::InputJson(p) })
}

/// The deltas of a block.
pub open spec fn block_deltas(index: int, b: ResponseBlockView, cut: Cut) -> Seq<EventView> {
    match b {
        ResponseBlockView::Text { .. } => text_deltas(index, cut.pieces),
        ResponseBlockView::Thinking { .. } => thinking_deltas(index, cut.pieces)
            + signature_deltas(index, cut.signature),
        ResponseBlockView::ToolUse { .. } => input_deltas(index, cut.pieces),
        ResponseBlockView::ServerToolUse { .. } => input_deltas(index, cut.pieces),
        _ => Seq::empty(),
    }
}

/// The events of a block: its start, its deltas and its stop.
pub open spec fn block_events(index: int, b: ResponseBlockView, cut: Cut) -> Seq<EventView> {
    seq![EventView::BlockStart { index, block: b }] + block_deltas(index, b, cut) + seq![
        EventView::BlockStop { index },
    ]
}

/// The events of all blocks, one after the other.
pub open spec fn blocks_events(bs: Seq<ResponseBlockView>, cuts: Seq<Cut>) -> Seq<EventView>
    decreases bs.len(),
{
    if bs.len() == 0 {
        Seq::empty()
    } else {
        blocks_events(bs.drop_last(), cuts.drop_last()) + block_events(
            bs.len() - 1,
            bs.last(),
            cuts.last(),
        )
    }
}

/// What is known of a block when all its events have come.
pub open spec fn streamed(b: ResponseBlockView, cut: Cut) -> StateView {
    match b {
        ResponseBlockView::Text { .. } => StateView::Text(concat(cut.pieces)),
        ResponseBlockView::Thinking { .. } => StateView::Thinking {
            text: concat(cut.pieces),
            signature: concat(cut.signature),
        },
        ResponseBlockView::ToolUse { id, name, .. } => StateView::ToolUse {
            id,
            name,
            partial_json: concat(cut.pieces),
        },
        ResponseBlockView::ServerToolUse { id, name, .. } => StateView::ToolUse {
            id,
            name,
            partial_json: concat(cut.pieces),
        },
        _ => StateView::Unknown,
    }
}

proof fn lemma_run_append(s: StreamView, a: Seq<EventView>, b: Seq<EventView>)
    ensures
        run(s, a + b) == run(run(s, a), b),
        content_emitted(s, a + b) == content_emitted(s, a) + content_emitted(run(s, a), b),
        runs(s, a + b) == (runs(s, a) && runs(run(s, a), b)),
    decreases b.len(),
{
    if b.len() == 0 {
        assert(a + b =~= a);
        assert(content_emitted(s, a) + Seq::<char>::empty() =~= content_emitted(s, a));
    } else {
        assert((a + b).drop_last() =~= a + b.drop_last());
        lemma_run_append(s, a, b.drop_last());
        match emits(run(s, a + b.drop_last()), b.last()) {
            Some(EmittedView::Content(t)) => {
                assert(content_emitted(s, a) + (content_emitted(run(s, a), b.drop_last()) + t)
                    =~= content_emitted(s, a) + content_emitted(run(s, a), b.drop_last()) + t);
            },
            _ => {},
        }
    }
}

/// Text deltas for a text block are appended to it in order and handed on as
/// they come; nothing else changes.
pub proof fn law_text_deltas_add_up(s: StreamView, index: int, text: Seq<char>, pieces: Seq<Seq<char>>)
    requires
        0 <= index < s.blocks.len(),
        s.blocks[index] == StateView::Text(text),
    ensures
        run(s, text_deltas(index, pieces)) == (StreamView {
            blocks: s.blocks.update(index, StateView::Text(text + concat(pieces))),
            ..s
        }),
        content_emitted(s, text_deltas(index, pieces)) == concat(pieces),
        runs(s, text_deltas(index, pieces)),
    decreases pieces.len(),
{
    let es = text_deltas(index, pieces);
    if pieces.len() == 0 {
        assert(text + Seq::<char>::empty() =~= text);
        assert(s.blocks.update(index, StateView::Text(text)) =~= s.blocks);
    } else {
        assert(es.drop_last() =~= text_deltas(index, pieces.drop_last()));
        law_text_deltas_add_up(s, index, text, pieces.drop_last());
        let front = concat(pieces.drop_last());
        assert(text + front + pieces.last() =~= text + concat(pieces));
        let mid = run(s, es.drop_last());
        assert(mid.blocks.update(index, StateView::Text(text + concat(pieces)))
            =~= s.blocks.update(index, StateView::Text(text + concat(pieces))));
    }
}

/// Thinking deltas for a thinking block are appended to its text in order;
/// nothing else changes.
pub proof fn law_thinking_deltas_add_up(
    s: StreamView,
    index: int,
    text: Seq<char>,
    signature: Seq<char>,
    pieces: Seq<Seq<char>>,
)
    requires
        0 <= index < s.blocks.len(),
        s.blocks[index] == (StateView::Thinking { text, signature }),
    ensures
        run(s, thinking_deltas(index, pieces)) == (StreamView {
            blocks: s.blocks.update(
                index,
                StateView::Thinking { text: text + concat(pieces), signature },
            ),
            ..s
        }),
        content_emitted(s, thinking_deltas(index, pieces)) == Seq::<char>::empty(),
        runs(s, thinking_deltas(index, pieces)),
    decreases pieces.len(),
{
    let es = thinking_deltas(index, pieces);
    let after = StateView::Thinking { text: text + concat(pieces), signature };
    if pieces.len() == 0 {
        assert(text + Seq::<char>::empty() =~= text);
        assert(s.blocks.update(index, after) =~= s.blocks);
    } else {
        assert(es.drop_last() =~= thinking_deltas(index, pieces.drop_last()));
        law_thinking_deltas_add_up(s, index, text, signature, pieces.drop_last());
        assert(text + concat(pieces.drop_last()) + pieces.last() =~= text + concat(pieces));
        assert(run(s, es.drop_last()).blocks.update(index, after) =~= s.blocks.update(index, after));
    }
}

proof fn lemma_signature_deltas(
    s: StreamView,
    index: int,
    text: Seq<char>,
    signature: Seq<char>,
    pieces: Seq<Seq<char>>,
)
    requires
        0 <= index < s.blocks.len(),
        s.blocks[index] == (StateView::Thinking { text, signature }),
    ensures
        run(s, signature_deltas(index, pieces)) == (StreamView {
            blocks: s.blocks.update(
                index,
                StateView::Thinking { text, signature: signature + concat(pieces) },
            ),
            ..s
        }),
        content_emitted(s, signature_deltas(index, pieces)) == Seq::<char>::empty(),
        runs(s, signature_deltas(index, pieces)),
    decreases pieces.len(),
{
    let es = signature_deltas(index, pieces);
    let after = StateView::Thinking { text, signature: signature + concat(pieces) };
    if pieces.len() == 0 {
        assert(signature + Seq::<char>::empty() =~= signature);
        assert(s.blocks.update(index, after) =~= s.blocks);
    } else {
        assert(es.drop_last() =~= signature_deltas(index, pieces.drop_last()));
        lemma_signature_deltas(s, index, text, signature, pieces.drop_last());
        assert(signature + concat(pieces.drop_last()) + pieces.last() =~= signature + concat(
            pieces,
        ));
        assert(run(s, es.drop_last()).blocks.update(index, after) =~= s.blocks.update(index, after));
    }
}

/// Argument deltas for a tool call are appended to its text in order; nothing
/// else changes, and nothing is handed on before the block stops.
pub proof fn law_input_deltas_add_up(
    s: StreamView,
    index: int,
    id: Seq<char>,
    name: Seq<char>,
    partial_json: Seq<char>,
    pieces: Seq<Seq<char>>,
)
    requires
        0 <= index < s.blocks.len(),
        s.blocks[index] == (StateView::ToolUse { id, name, partial_json }),
    ensures
        run(s, input_deltas(index, pieces)) == (StreamView {
            blocks: s.blocks.update(
                index,
                StateView::ToolUse { id, name, partial_json: partial_json + concat(pieces) },
            ),
            ..s
        }),
        content_emitted(s, input_deltas(index, pieces)) == Seq::<char>::empty(),
        runs(s, input_deltas(index, pieces)),
    decreases pieces.len(),
{
    let es = input_deltas(index, pieces);
    let after = StateView::ToolUse { id, name, partial_json: partial_json + concat(pieces) };
    if pieces.len() == 0 {
        assert(partial_json + Seq::<char>::empty() =~= partial_json);
        assert(s.blocks.update(index, after) =~= s.blocks);
    } else {
        assert(es.drop_last() =~= input_deltas(index, pieces.drop_last()));
        law_input_deltas_add_up(s, index, id, name, partial_json, pieces.drop_last());
        assert(partial_json + concat(pieces.drop_last()) + pieces.last() =~= partial_json + concat(
            pieces,
        ));
        assert(run(s, es.drop_last()).blocks.update(index, after) =~= s.blocks.update(index, after));
    }
}

/// What a block hands on as content: its text, if it is a text block.
pub open spec fn block_content(b: ResponseBlockView) -> Seq<char> {
    match b {
        ResponseBlockView::Text { text } => text,
        _ => Seq::empty(),
    }
}

proof fn lemma_run_one(s: StreamView, e: EventView)
    ensures
        run(s, seq![e]) == step(s, e),
        runs(s, seq![e]) == (fails(s, e) is None),
        content_emitted(s, seq![e]) == (match emits(s, e) {
            Some(EmittedView::Content(t)) => t,
            _ => Seq::empty(),
        }),
{
    let es = seq![e];
    assert(es.drop_last() =~= Seq::<EventView>::empty());
    reveal_with_fuel(run, 2);
    reveal_with_fuel(runs, 2);
    reveal_with_fuel(content_emitted, 2);
    match emits(s, e) {
        Some(EmittedView::Content(t)) => {
            assert(Seq::<char>::empty() + t =~= t);
        },
        _ => {},
    }
}

proof fn lemma_block_events(s: StreamView, b: ResponseBlockView, cut: Cut)
    requires
        fits(b, cut),
    ensures
        ({
            let es = block_events(s.blocks.len() as int, b, cut);
            &&& run(s, es) == (StreamView { blocks: s.blocks.push(streamed(b, cut)), ..s })
            &&& content_emitted(s, es) == block_content(b)
            &&& runs(s, es)
        }),
{
    let index = s.blocks.len() as int;
    let start = seq![EventView::BlockStart { index, block: b }];
    let deltas = block_deltas(index, b, cut);
    let stop = seq![EventView::BlockStop { index }];
    lemma_run_one(s, start[0]);
    let s1 = run(s, start);
    assert(grown(s.blocks, index + 1).update(index, opened(b)) =~= s.blocks.push(opened(b)));
    assert(s1.blocks == s.blocks.push(opened(b)));
    let empty = Seq::<char>::empty();
    assert(empty + concat(cut.pieces) =~= concat(cut.pieces));
    assert(empty + concat(cut.signature) =~= concat(cut.signature));
    match b {
        ResponseBlockView::Text { .. } => {
            law_text_deltas_add_up(s1, index, empty, cut.pieces);
        },
        ResponseBlockView::Thinking { .. } => {
            law_thinking_deltas_add_up(s1, index, empty, empty, cut.pieces);
            let mid = run(s1, thinking_deltas(index, cut.pieces));
            lemma_signature_deltas(mid, index, concat(cut.pieces), empty, cut.signature);
            lemma_run_append(
                s1,
                thinking_deltas(index, cut.pieces),
                signature_deltas(index, cut.signature),
            );
            assert(empty + empty =~= empty);
        },
        ResponseBlockView::ToolUse { id, name, .. } => {
            law_input_deltas_add_up(s1, index, id, name, empty, cut.pieces);
        },
        ResponseBlockView::ServerToolUse { id, name, .. } => {
            law_input_deltas_add_up(s1, index, id, name, empty, cut.pieces);
        },
        _ => {
            assert(s1.blocks.update(index, StateView::Unknown) =~= s1.blocks);
        },
    }
    let s2 = run(s1, deltas);
    assert(s2.blocks =~= s.blocks.push(streamed(b, cut)));
    lemma_run_one(s2, stop[0]);
    lemma_run_append(s, start, deltas);
    lemma_run_append(s, start + deltas, stop);
    assert(content_emitted(s, start + deltas + stop) =~= block_content(b));
}

/// What is known of all blocks when all their events have come.
pub open spec fn all_streamed(bs: Seq<ResponseBlockView>, cuts: Seq<Cut>) -> Seq<StateView> {
    Seq::new(bs.len(), |i: int| streamed(bs[i], cuts[i]))
}

/// The texts of the text blocks, one after the other.
pub open spec fn text_blocks(bs: Seq<ResponseBlockView>) -> Seq<char>
    decreases bs.len(),
{
    if bs.len() == 0 {
        Seq::empty()
    } else {
        text_blocks(bs.drop_last()) + block_content(bs.last())
    }
}

/// Whether every block fits its cut.
pub open spec fn all_fit(bs: Seq<ResponseBlockView>, cuts: Seq<Cut>) -> bool {
    bs.len() == cuts.len() && forall|i: int|
        0 <= i < bs.len() ==> fits(#[trigger] bs[i], cuts[i])
}

proof fn lemma_blocks_events(s: StreamView, bs: Seq<ResponseBlockView>, cuts: Seq<Cut>)
    requires
        s.blocks.len() == 0,
        all_fit(bs, cuts),
    ensures
        run(s, blocks_events(bs, cuts)) == (StreamView { blocks: all_streamed(bs, cuts), ..s }),
        content_emitted(s, blocks_events(bs, cuts)) == text_blocks(bs),
        runs(s, blocks_events(bs, cuts)),
    decreases bs.len(),
{
    if bs.len() == 0 {
        assert(all_streamed(bs, cuts) =~= s.blocks);
    } else {
        let b = bs.drop_last();
        let c = cuts.drop_last();
        assert forall|i: int| 0 <= i < b.len() implies fits(#[trigger] b[i], c[i]) by {
            assert(b[i] == bs[i] && c[i] == cuts[i]);
        }
        lemma_blocks_events(s, b, c);
        let mid = run(s, blocks_events(b, c));
        assert(fits(bs[bs.len() - 1], cuts[bs.len() - 1]));
        lemma_block_events(mid, bs.last(), cuts.last());
        lemma_run_append(s, blocks_events(b, c), block_events(bs.len() - 1, bs.last(), cuts.last()));
        assert(all_streamed(b, c).push(streamed(bs.last(), cuts.last())) =~= all_streamed(bs, cuts));
    }
}

proof fn lemma_closed_blocks(bs: Seq<ResponseBlockView>, cuts: Seq<Cut>)
    requires
        all_fit(bs, cuts),
        forall|i: int| 0 <= i < bs.len() ==> !(#[trigger] bs[i] is RedactedThinking),
    ensures
        all_closed(all_streamed(bs, cuts)) is Ok,
        response_text(all_closed(all_streamed(bs, cuts))->Ok_0) == response_text(bs),
        response_calls(all_closed(all_streamed(bs, cuts))->Ok_0) == response_calls(bs),
        response_thinking(all_closed(all_streamed(bs, cuts))->Ok_0) == response_thinking(bs),
    decreases bs.len(),
{
    let states = all_streamed(bs, cuts);
    if bs.len() > 0 {
        let b = bs.drop_last();
        let c = cuts.drop_last();
        assert forall|i: int| 0 <= i < b.len() implies fits(#[trigger] b[i], c[i]) && !(
        b[i] is RedactedThinking) by {
            assert(b[i] == bs[i] && c[i] == cuts[i]);
        }
        lemma_closed_blocks(b, c);
        assert(states.drop_last() =~= all_streamed(b, c));
        assert(fits(bs[bs.len() - 1], cuts[bs.len() - 1]));
        assert(states.last() == streamed(bs.last(), cuts.last()));
        assert(!(bs[bs.len() - 1] is RedactedThinking));
        let front = all_closed(states.drop_last())->Ok_0;
        let all = all_closed(states)->Ok_0;
        match closed(states.last()) {
            Ok(Some(x)) => {
                assert(all == front.push(x));
                assert(all.drop_last() =~= front);
                assert(all.last() == x);
            },
            _ => {},
        }
    }
}

/// The events of a whole response.
pub open spec fn response_events(
    bs: Seq<ResponseBlockView>,
    cuts: Seq<Cut>,
    usage: Usage,
    stop_reason: Option<Seq<char>>,
) -> Seq<EventView> {
    seq![EventView::MessageStart { usage: Some(usage) }] + blocks_events(bs, cuts) + seq![
        EventView::MessageDelta { stop_reason, usage: Some(usage) },
        EventView::MessageStop,
    ]
}

/// Streaming a response gives the message that the same response gives when it
/// is not streamed, however its payloads are cut into deltas; and what is
/// handed on as content is the text of its text blocks.
///
/// Redacted thinking is left out: its data is carried by a response that is
/// not streamed only.
pub proof fn law_streamed_and_plain_agree(
    bs: Seq<ResponseBlockView>,
    cuts: Seq<Cut>,
    usage: Usage,
    stop_reason: Option<Seq<char>>,
)
    requires
        all_fit(bs, cuts),
        forall|i: int| 0 <= i < bs.len() ==> !(#[trigger] bs[i] is RedactedThinking),
        usage.input_tokens is Some,
        usage.output_tokens is Some,
    ensures
        ({
            let es = response_events(bs, cuts, usage, stop_reason);
            let s = run(fresh(), es);
            &&& runs(fresh(), es)
            &&& s.done
            &&& all_closed(s.blocks) is Ok
            &&& response_message(all_closed(s.blocks)->Ok_0, stream_usage(s), s.stop_reason)
                == response_message(bs, Some(usage), stop_reason)
            &&& content_emitted(fresh(), es) == text_blocks(bs)
        }),
{
    let start = seq![EventView::MessageStart { usage: Some(usage) }];
    let middle = blocks_events(bs, cuts);
    let delta = EventView::MessageDelta { stop_reason, usage: Some(usage) };
    let end = seq![delta, EventView::MessageStop];
    lemma_run_one(fresh(), start[0]);
    let s1 = run(fresh(), start);
    lemma_blocks_events(s1, bs, cuts);
    lemma_run_append(fresh(), start, middle);
    let s2 = run(fresh(), start + middle);
    lemma_run_one(s2, delta);
    let s3 = step(s2, delta);
    lemma_run_one(s3, EventView::MessageStop);
    lemma_run_append(s2, seq![delta], seq![EventView::MessageStop]);
    assert(seq![delta] + seq![EventView::MessageStop] =~= end);
    lemma_run_append(fresh(), start + middle, end);
    lemma_closed_blocks(bs, cuts);
    assert(content_emitted(fresh(), response_events(bs, cuts, usage, stop_reason)) =~= text_blocks(
        bs,
    ));
}

/// The thinking blocks of a response, as they have to be sent back.
pub open spec fn thinking_blocks(bs: Seq<ResponseBlockView>) -> Seq<JsonView>
    decreases bs.len(),
{
    if bs.len() == 0 {
        Seq::empty()
    } else {
        let front = thinking_blocks(bs.drop_last());
        match bs.last() {
            ResponseBlockView::Thinking { thinking, signature } => front.push(
                thinking_block(thinking, signature),
            ),
            ResponseBlockView::RedactedThinking { data } => front.push(redacted_block(data)),
            _ => front,
        }
    }
}

/// The thinking of a response, redacted or not, goes back in the next request
/// as it came: every block, in order, with its signature or its data.
pub proof fn law_thinking_is_replayed(
    bs: Seq<ResponseBlockView>,
    usage: Option<Usage>,
    stop_reason: Option<Seq<char>>,
)
    ensures
        replayed_thinking(response_message(bs, usage, stop_reason).thinking_content)
            == thinking_blocks(bs),
    decreases bs.len(),
{
    if bs.len() > 0 {
        law_thinking_is_replayed(bs.drop_last(), usage, stop_reason);
        let all = response_thinking(bs);
        let front = response_thinking(bs.drop_last());
        if all.len() > front.len() {
            assert(all.drop_last() =~= front);
        }
    }
}

} // verus!
