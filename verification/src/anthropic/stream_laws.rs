//! Laws of single events of a stream, and of closing it.

use vstd::prelude::*;
use crate::anthropic::response::ResponseBlockView;
use crate::anthropic::stream::{
    all_closed, closed, emits, fails, step, stream_usage, DeltaView, EmittedView, EventView,
    StateView, StreamView,
};
use crate::error::ProviderErrorView;
use crate::json::{json_failure, json_of_text, JsonView};

verus! {

/// What the arguments of a gathered call mean: an empty text is an object of
/// no member, any other is what it parses as.
pub open spec fn input_of(text: Seq<char>) -> Option<JsonView> {
    if text.len() == 0 {
        Some(JsonView::Object(Map::empty()))
    } else {
        json_of_text(text)
    }
}

/// An event of a block touches that block alone; every other event touches
/// none.
pub proof fn law_other_blocks_stay(s: StreamView, e: EventView, i: int)
    requires
        0 <= i < s.blocks.len(),
        match e {
            EventView::BlockStart { index, .. } => i != index && index >= 0,
            EventView::BlockDelta { index, .. } => i != index,
            _ => true,
        },
    ensures
        step(s, e).blocks.len() >= s.blocks.len(),
        step(s, e).blocks[i] == s.blocks[i],
{
}

/// A block that starts is empty: what it holds comes with its deltas. Blocks
/// that were passed over are empty texts.
pub proof fn law_blocks_start_empty(s: StreamView, index: int, block: ResponseBlockView)
    requires
        index >= 0,
    ensures
        ({
            let t = step(s, EventView::BlockStart { index, block }).blocks;
            &&& t.len() == if index < s.blocks.len() {
                s.blocks.len() as int
            } else {
                index + 1
            }
            &&& forall|i: int|
                s.blocks.len() <= i < index ==> #[trigger] t[i] == StateView::Text(Seq::empty())
            &&& match block {
                ResponseBlockView::Text { .. } => t[index] == StateView::Text(Seq::empty()),
                ResponseBlockView::ToolUse { id, name, .. } => t[index] == (StateView::ToolUse {
                    id,
                    name,
                    partial_json: Seq::empty(),
                }),
                ResponseBlockView::ServerToolUse { id, name, .. } => t[index] == (
                StateView::ToolUse { id, name, partial_json: Seq::empty() }),
                ResponseBlockView::Thinking { .. } => t[index] == (StateView::Thinking {
                    text: Seq::empty(),
                    signature: Seq::empty(),
                }),
                _ => t[index] == StateView::Unknown,
            }
        }),
{
}

/// What a block has gathered grows by the delta of its own kind, and a delta
/// of another kind, or for a block that never started, changes nothing.
pub proof fn law_deltas_fit_their_block(s: StreamView, index: int, delta: DeltaView)
    ensures
        ({
            let t = step(s, EventView::BlockDelta { index, delta });
            &&& !(0 <= index < s.blocks.len()) ==> t == s
            &&& 0 <= index < s.blocks.len() ==> {
                &&& t.blocks.len() == s.blocks.len()
                &&& match s.blocks[index] {
                    StateView::Text(x) => t.blocks[index] == StateView::Text(
                        x + (if delta is Text {
                            delta->Text_0
                        } else {
                            Seq::empty()
                        }),
                    ),
                    StateView::ToolUse { id, name, partial_json } => t.blocks[index] == (
                    StateView::ToolUse {
                        id,
                        name,
                        partial_json: partial_json + (if delta is InputJson {
                            delta->InputJson_0
                        } else {
                            Seq::empty()
                        }),
                    }),
                    StateView::Thinking { text, signature } => t.blocks[index] == (
                    StateView::Thinking {
                        text: text + (if delta is Thinking {
                            delta->Thinking_0
                        } else {
                            Seq::empty()
                        }),
                        signature: signature + (if delta is Signature {
                            delta->Signature_0
                        } else {
                            Seq::empty()
                        }),
                    }),
                    StateView::Unknown => t.blocks[index] == StateView::Unknown,
                }
            }
        }),
{
    let none = Seq::<char>::empty();
    if 0 <= index < s.blocks.len() {
        match s.blocks[index] {
            StateView::Text(x) => {
                assert(x + none =~= x);
            },
            StateView::ToolUse { partial_json, .. } => {
                assert(partial_json + none =~= partial_json);
            },
            StateView::Thinking { text, signature } => {
                assert(text + none =~= text);
                assert(signature + none =~= signature);
            },
            StateView::Unknown => {},
        }
    }
}

/// What is handed on: a piece of text for a text block, a piece of thinking
/// for a thinking block, and a call, with all its arguments, where its block
/// ends; nothing else.
pub proof fn law_pieces_are_handed_on(s: StreamView, e: EventView)
    ensures
        ({
            let known = |i: int| 0 <= i < s.blocks.len();
            match e {
                EventView::BlockDelta { index, delta } => {
                    &&& emits(s, e) is Some <==> known(index) && (s.blocks[index] is Text
                        && delta is Text || s.blocks[index] is Thinking && delta is Thinking)
                    &&& emits(s, e) is Some && delta is Text ==> emits(s, e) == Some(
                        EmittedView::Content(delta->Text_0),
                    )
                    &&& emits(s, e) is Some && delta is Thinking ==> emits(s, e) == Some(
                        EmittedView::Thinking(delta->Thinking_0),
                    )
                },
                EventView::BlockStop { index } => {
                    &&& emits(s, e) is Some <==> known(index) && s.blocks[index] is ToolUse
                        && input_of(s.blocks[index]->partial_json) is Some
                    &&& emits(s, e) is Some ==> {
                        &&& emits(s, e)->0 is ToolCall
                        &&& emits(s, e)->0->ToolCall_0.id == s.blocks[index]->id
                        &&& emits(s, e)->0->ToolCall_0.name == s.blocks[index]->name
                        &&& Some(emits(s, e)->0->ToolCall_0.arguments) == input_of(
                            s.blocks[index]->partial_json,
                        )
                    }
                },
                _ => emits(s, e) is None,
            }
        }),
{
}

/// A stream fails on an error event, with its type and its message, and where
/// a call ends whose arguments are not JSON; nowhere else.
pub proof fn law_when_a_stream_fails(s: StreamView, e: EventView)
    ensures
        fails(s, e) is Some <==> e is Error || (e is BlockStop && 0 <= e->BlockStop_index
            < s.blocks.len() && s.blocks[e->BlockStop_index] is ToolUse && input_of(
            s.blocks[e->BlockStop_index]->partial_json,
        ) is None),
        e is Error ==> fails(s, e) == Some(
            ProviderErrorView::Http {
                status: 529,
                body: "Anthropic streaming error ("@ + e->error_type + "): "@ + e->message,
            },
        ),
        e is BlockStop && fails(s, e) is Some ==> fails(s, e) == Some(
            ProviderErrorView::Decode(
                json_failure(s.blocks[e->BlockStop_index]->partial_json),
            ),
        ),
{
}

/// The counts come from the events that carry them, and the end from the stop
/// event: input with the start, output and the stop reason with the message
/// delta.
pub proof fn law_counts_come_from_their_events(s: StreamView, e: EventView)
    ensures
        ({
            let t = step(s, e);
            &&& t.done <==> s.done || e is MessageStop
            &&& !(e is MessageDelta) ==> t.stop_reason == s.stop_reason && t.output_tokens
                == s.output_tokens
            &&& !(e is MessageStart) ==> t.input_tokens == s.input_tokens
                && t.cache_creation_input_tokens == s.cache_creation_input_tokens
                && t.cache_read_input_tokens == s.cache_read_input_tokens
            &&& e is MessageStart && e->MessageStart_usage is Some ==> {
                let u = e->MessageStart_usage->0;
                &&& t.input_tokens == u.input_tokens
                &&& t.cache_creation_input_tokens == u.cache_creation_input_tokens
                &&& t.cache_read_input_tokens == u.cache_read_input_tokens
            }
            &&& e is MessageStart && e->MessageStart_usage is None ==> t == s
            &&& e is MessageDelta ==> t.stop_reason == if e->stop_reason is Some {
                e->stop_reason
            } else {
                s.stop_reason
            }
            &&& e is MessageDelta ==> t.output_tokens == if e->MessageDelta_usage is Some {
                e->MessageDelta_usage->0.output_tokens
            } else {
                s.output_tokens
            }
            &&& e is Ping || e is Error || e is BlockStop ==> t == s
        }),
{
}

/// Whether a block of a response is what a stream gathered.
pub open spec fn closes_as(b: StateView, r: ResponseBlockView) -> bool {
    match b {
        StateView::Text(text) => r == (ResponseBlockView::Text { text }),
        StateView::ToolUse { id, name, partial_json } => r is ToolUse && r->ToolUse_id == id
            && r->ToolUse_name == name && Some(r->ToolUse_input) == input_of(partial_json),
        StateView::Thinking { text, signature } => r == (ResponseBlockView::Thinking {
            thinking: text,
            signature,
        }),
        StateView::Unknown => false,
    }
}

/// Closing a stream gives its blocks one for one and in order, but for those
/// of an unknown kind. It fails exactly where the arguments of a call are not
/// JSON, with what is wrong with the first such.
pub proof fn law_blocks_are_closed_one_for_one(blocks: Seq<StateView>)
    ensures
        match all_closed(blocks) {
            Ok(bs) => {
                let known = blocks.filter(|b: StateView| !(b is Unknown));
                &&& bs.len() == known.len()
                &&& forall|i: int| 0 <= i < bs.len() ==> closes_as(known[i], #[trigger] bs[i])
            },
            Err(why) => exists|i: int|
                {
                    &&& 0 <= i < blocks.len()
                    &&& #[trigger] blocks[i] is ToolUse
                    &&& input_of(blocks[i]->partial_json) is None
                    &&& why == json_failure(blocks[i]->partial_json)
                    &&& all_closed(blocks.take(i)) is Ok
                },
        },
    decreases blocks.len(),
{
    reveal(Seq::filter);
    if blocks.len() > 0 {
        let f = |b: StateView| !(b is Unknown);
        let front = blocks.drop_last();
        law_blocks_are_closed_one_for_one(front);
        assert(blocks.last() == blocks[blocks.len() - 1]);
        match all_closed(front) {
            Ok(before) => {
                match closed(blocks.last()) {
                    Ok(Some(b)) => {
                        let bs = before.push(b);
                        let known = blocks.filter(f);
                        assert forall|i: int| 0 <= i < bs.len() implies closes_as(
                            known[i],
                            #[trigger] bs[i],
                        ) by {
                            if i < before.len() {
                                assert(bs[i] == before[i]);
                                assert(known[i] == front.filter(f)[i]);
                            }
                        }
                    },
                    Ok(None) => {},
                    Err(_) => {
                        assert(blocks.take(blocks.len() - 1) =~= front);
                    },
                }
            },
            Err(why) => {
                let i = choose|i: int|
                    {
                        &&& 0 <= i < front.len()
                        &&& #[trigger] front[i] is ToolUse
                        &&& input_of(front[i]->partial_json) is None
                        &&& why == json_failure(front[i]->partial_json)
                        &&& all_closed(front.take(i)) is Ok
                    };
                assert(blocks[i] == front[i]);
                assert(blocks.take(i) =~= front.take(i));
            },
        }
    }
}

/// The usage of a stream is known where both the input and the output were
/// counted, and it is what was counted.
pub proof fn law_usage_needs_both_counts(s: StreamView)
    ensures
        stream_usage(s) is Some <==> s.input_tokens is Some && s.output_tokens is Some,
        stream_usage(s) is Some ==> {
            let u = stream_usage(s)->0;
            &&& u.input_tokens == s.input_tokens
            &&& u.output_tokens == s.output_tokens
            &&& u.cache_creation_input_tokens == s.cache_creation_input_tokens
            &&& u.cache_read_input_tokens == s.cache_read_input_tokens
        },
{
}

} // verus!
