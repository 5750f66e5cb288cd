//! Laws of what is read out of a response: each block ends up in its place in
//! the message, and nothing else does.

use vstd::prelude::*;
use crate::anthropic::response::{
    response_message, response_text, usage_fits, ResponseBlockView, Usage,
};
use crate::message::{BlockView, FinishView, Role};
use crate::text::joined;

verus! {

/// The tool calls of the message are exactly the tool-use blocks of the
/// response, the server's own among them: one for each, in order, with the
/// id, the name and the input of the block.
pub proof fn law_calls_are_the_tool_use_blocks(
    bs: Seq<ResponseBlockView>,
    usage: Option<Usage>,
    stop_reason: Option<Seq<char>>,
)
    ensures
        ({
            let uses = bs.filter(
                |b: ResponseBlockView| b is ToolUse || b is ServerToolUse,
            );
            let calls = response_message(bs, usage, stop_reason).tool_calls;
            &&& calls.len() == uses.len()
            &&& forall|i: int|
                #![trigger calls[i]]
                0 <= i < calls.len() ==> match uses[i] {
                    ResponseBlockView::ToolUse { id, name, input } => calls[i].id == id
                        && calls[i].name == name && calls[i].arguments == input,
                    ResponseBlockView::ServerToolUse { id, name, input } => calls[i].id == id
                        && calls[i].name == name && calls[i].arguments == input,
                    _ => false,
                }
        }),
    decreases bs.len(),
{
    reveal(Seq::filter);
    if bs.len() > 0 {
        let f = |b: ResponseBlockView| b is ToolUse || b is ServerToolUse;
        law_calls_are_the_tool_use_blocks(bs.drop_last(), usage, stop_reason);
        let front = response_message(bs.drop_last(), usage, stop_reason).tool_calls;
        let calls = response_message(bs, usage, stop_reason).tool_calls;
        assert forall|i: int| 0 <= i < front.len() implies calls[i] == #[trigger] front[i]
            && bs.filter(f)[i] == bs.drop_last().filter(f)[i] by {}
    }
}

/// The thinking of the message is exactly the thinking blocks of the
/// response, one for each and in order: a readable one with its text and its
/// signature, an encrypted one with its data and no text.
pub proof fn law_thinking_is_the_thinking_blocks(
    bs: Seq<ResponseBlockView>,
    usage: Option<Usage>,
    stop_reason: Option<Seq<char>>,
)
    ensures
        ({
            let blocks = bs.filter(
                |b: ResponseBlockView| b is Thinking || b is RedactedThinking,
            );
            let thinking = response_message(bs, usage, stop_reason).thinking_content;
            &&& thinking.len() == blocks.len()
            &&& forall|i: int|
                #![trigger thinking[i]]
                0 <= i < thinking.len() ==> match blocks[i] {
                    ResponseBlockView::Thinking { thinking: text, signature } => thinking[i].text
                        == text && thinking[i].signature == Some(signature)
                        && thinking[i].redacted_data is None && thinking[i].details is None,
                    ResponseBlockView::RedactedThinking { data } => thinking[i].text.len() == 0
                        && thinking[i].signature is None && thinking[i].redacted_data == Some(data)
                        && thinking[i].details is None,
                    _ => false,
                }
        }),
    decreases bs.len(),
{
    reveal(Seq::filter);
    if bs.len() > 0 {
        let f = |b: ResponseBlockView| b is Thinking || b is RedactedThinking;
        law_thinking_is_the_thinking_blocks(bs.drop_last(), usage, stop_reason);
        let front = response_message(bs.drop_last(), usage, stop_reason).thinking_content;
        let thinking = response_message(bs, usage, stop_reason).thinking_content;
        assert forall|i: int| 0 <= i < front.len() implies thinking[i] == #[trigger] front[i]
            && bs.filter(f)[i] == bs.drop_last().filter(f)[i] by {}
    }
}

/// The texts of the text blocks of a response.
pub open spec fn block_texts(bs: Seq<ResponseBlockView>) -> Seq<Seq<char>> {
    bs.filter_map(
        |b: ResponseBlockView|
            match b {
                ResponseBlockView::Text { text } => Some(text),
                _ => None,
            },
    )
}

/// The message holds one text: the texts of the text blocks from the first
/// that is not empty on, with a line break between each two.
pub proof fn law_text_is_the_text_blocks(
    bs: Seq<ResponseBlockView>,
    usage: Option<Usage>,
    stop_reason: Option<Seq<char>>,
    k: int,
)
    requires
        0 <= k <= block_texts(bs).len(),
        forall|i: int| 0 <= i < k ==> (#[trigger] block_texts(bs)[i]).len() == 0,
        k < block_texts(bs).len() ==> block_texts(bs)[k].len() > 0,
    ensures
        response_message(bs, usage, stop_reason).content == seq![
            BlockView::Text { text: joined(block_texts(bs).skip(k), "\n"@) },
        ],
{
    lemma_text_of_response(bs, k);
}

proof fn lemma_text_of_response(bs: Seq<ResponseBlockView>, k: int)
    requires
        0 <= k <= block_texts(bs).len(),
        forall|i: int| 0 <= i < k ==> (#[trigger] block_texts(bs)[i]).len() == 0,
        k < block_texts(bs).len() ==> block_texts(bs)[k].len() > 0,
    ensures
        response_text(bs) == joined(block_texts(bs).skip(k), "\n"@),
        k < block_texts(bs).len() ==> response_text(bs).len() > 0,
    decreases bs.len(),
{
    reveal_strlit("\n");
    assert("\n"@ =~= seq!['\n']);
    let all = block_texts(bs);
    if bs.len() > 0 {
        let rest = block_texts(bs.drop_last());
        match bs.last() {
            ResponseBlockView::Text { text } => {
                assert(all =~= rest.push(text));
                assert forall|i: int| 0 <= i < rest.len() implies #[trigger] rest[i] == all[i] by {}
                if k >= rest.len() {
                    lemma_text_of_response(bs.drop_last(), rest.len() as int);
                    assert(rest.skip(rest.len() as int) =~= Seq::empty());
                    if k == rest.len() {
                        assert(all.skip(k) =~= seq![text]);
                    } else {
                        assert(all[rest.len() as int] == text);
                        assert(all.skip(k) =~= Seq::empty());
                        assert(text =~= Seq::empty());
                    }
                } else {
                    lemma_text_of_response(bs.drop_last(), k);
                    let front = rest.skip(k);
                    assert(all.skip(k) =~= front.push(text));
                    assert(front.push(text).drop_last() =~= front);
                    assert(response_text(bs.drop_last()).push('\n') + text =~= joined(front, "\n"@)
                        + "\n"@ + text);
                }
            },
            _ => {
                assert(all == rest);
                lemma_text_of_response(bs.drop_last(), k);
            },
        }
    }
}

/// What is said of the usage: the context is all that was read, fresh,
/// written to the cache or out of it, and the tokens are the context and what
/// was written; neither is known without the count of fresh input.
pub proof fn law_usage_is_what_was_counted(
    bs: Seq<ResponseBlockView>,
    usage: Usage,
    stop_reason: Option<Seq<char>>,
)
    requires
        usage_fits(usage),
    ensures
        ({
            let m = response_message(bs, Some(usage), stop_reason);
            let zero = |n: Option<usize>|
                if n is Some {
                    n->0 as int
                } else {
                    0int
                };
            &&& m.context_tokens is Some <==> usage.input_tokens is Some
            &&& m.token_count is Some <==> usage.input_tokens is Some && usage.output_tokens is Some
            &&& m.context_tokens is Some ==> m.context_tokens->0 == usage.input_tokens->0 + zero(
                usage.cache_creation_input_tokens,
            ) + zero(usage.cache_read_input_tokens)
            &&& m.token_count is Some ==> m.token_count->0 == m.context_tokens->0
                + usage.output_tokens->0
        }),
        response_message(bs, None, stop_reason).token_count is None,
        response_message(bs, None, stop_reason).context_tokens is None,
{
}

/// A response is a message of the assistant that answers no call and is not
/// the result of a compaction.
pub proof fn law_response_is_an_assistant_message(
    bs: Seq<ResponseBlockView>,
    usage: Option<Usage>,
    stop_reason: Option<Seq<char>>,
)
    ensures
        response_message(bs, usage, stop_reason).role == Role::Assistant,
        response_message(bs, usage, stop_reason).tool_call_id is None,
        !response_message(bs, usage, stop_reason).compacted,
        response_message(bs, usage, stop_reason).finish_reason is Some <==> stop_reason is Some,
{
}

proof fn lemma_stop_reasons()
    ensures
        "end_turn"@.len() == 8,
        "stop_sequence"@.len() == 13,
        "pause_turn"@.len() == 10 && "pause_turn"@[0] == 'p',
        "max_tokens"@.len() == 10 && "max_tokens"@[0] == 'm',
        "model_context_window_exceeded"@.len() == 29,
        "tool_use"@.len() == 8 && "tool_use"@[0] == 't',
        "end_turn"@[0] == 'e',
        "refusal"@.len() == 7,
{
    reveal_strlit("end_turn");
    reveal_strlit("stop_sequence");
    reveal_strlit("pause_turn");
    reveal_strlit("max_tokens");
    reveal_strlit("model_context_window_exceeded");
    reveal_strlit("tool_use");
    reveal_strlit("refusal");
}

/// Each stop reason has one meaning, and one that is not known is kept as it
/// came.
pub proof fn law_stop_reasons_have_one_meaning(
    bs: Seq<ResponseBlockView>,
    usage: Option<Usage>,
    raw: Seq<char>,
)
    ensures
        ({
            let finish = response_message(bs, usage, Some(raw)).finish_reason;
            &&& finish == Some(FinishView::Stop) <==> raw == "end_turn"@ || raw == "stop_sequence"@
                || raw == "pause_turn"@
            &&& finish == Some(FinishView::Length) <==> raw == "max_tokens"@ || raw
                == "model_context_window_exceeded"@
            &&& finish == Some(FinishView::ToolCalls) <==> raw == "tool_use"@
            &&& finish == Some(FinishView::Refusal) <==> raw == "refusal"@
            &&& finish is Some && finish->0 is Other ==> finish == Some(FinishView::Other(raw))
        }),
{
    lemma_stop_reasons();
}

} // verus!
