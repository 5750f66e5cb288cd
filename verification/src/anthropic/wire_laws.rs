//! Laws of the messages of a request: nothing that a conversation says is
//! lost, doubled or moved on its way to the endpoint.

use vstd::prelude::*;
use crate::anthropic::wire::{
    assistant_blocks, replayed_thinking, result_blocks, tool_message_block, wire_messages,
};
use crate::base64_text::base64_text;
use crate::json::{member, JsonView};
use crate::message::{
    content_text, law_tool_run_is_the_whole_run, lemma_tool_run, tool_run, BlockView, MessageView,
    Role, ThinkingView, ToolCallView,
};

verus! {

proof fn lemma_keys()
    ensures
        "type"@ != "text"@,
        "type"@ != "source"@,
        "type"@ != "media_type"@,
        "type"@ != "data"@,
        "media_type"@ != "data"@,
        "type"@ != "id"@,
        "type"@ != "name"@,
        "type"@ != "input"@,
        "id"@ != "name"@,
        "id"@ != "input"@,
        "name"@ != "input"@,
        "type"@ != "tool_use_id"@,
        "type"@ != "content"@,
        "tool_use_id"@ != "content"@,
        "type"@ != "thinking"@,
        "type"@ != "signature"@,
        "thinking"@ != "signature"@,
        "role"@ != "content"@,
{
    reveal_strlit("type");
    reveal_strlit("text");
    reveal_strlit("source");
    reveal_strlit("media_type");
    reveal_strlit("data");
    reveal_strlit("id");
    reveal_strlit("name");
    reveal_strlit("input");
    reveal_strlit("tool_use_id");
    reveal_strlit("content");
    reveal_strlit("thinking");
    reveal_strlit("signature");
    reveal_strlit("role");
    assert("type"@[0] == 't' && "type"@[1] == 'y' && "text"@[1] == 'e' && "data"@[0] == 'd');
    assert("name"@[0] == 'n' && "type"@.len() == 4 && "data"@.len() == 4 && "name"@.len() == 4);
    assert("source"@.len() == 6 && "media_type"@.len() == 10 && "id"@.len() == 2);
    assert("input"@.len() == 5 && "tool_use_id"@.len() == 11 && "content"@.len() == 7);
    assert("thinking"@.len() == 8 && "signature"@.len() == 9 && "role"@.len() == 4);
}

/// Whether a value is the data of an attachment.
pub open spec fn source_shows(source: Option<JsonView>, media_type: Seq<char>, data: Seq<u8>) -> bool {
    &&& source is Some
    &&& member(source->0, "type"@) == Some(JsonView::Str("base64"@))
    &&& member(source->0, "media_type"@) == Some(JsonView::Str(media_type))
    &&& member(source->0, "data"@) == Some(JsonView::Str(base64_text(data)))
}

/// Whether a value carries a block of a message: its text, or its data and
/// their media type.
pub open spec fn block_shows(j: JsonView, b: BlockView) -> bool {
    match b {
        BlockView::Text { text } => {
            &&& member(j, "type"@) == Some(JsonView::Str("text"@))
            &&& member(j, "text"@) == Some(JsonView::Str(text))
        },
        BlockView::Image { data, media_type } => {
            &&& member(j, "type"@) == Some(JsonView::Str("image"@))
            &&& source_shows(member(j, "source"@), media_type, data)
        },
        BlockView::File { data, media_type, .. } => {
            &&& member(j, "type"@) == Some(JsonView::Str("document"@))
            &&& source_shows(member(j, "source"@), media_type, data)
        },
    }
}

/// A system message is not sent among the messages.
pub proof fn law_system_messages_are_not_sent(m: MessageView)
    requires
        m.role == Role::System,
    ensures
        wire_messages(seq![m]) == Seq::<JsonView>::empty(),
{
    assert(seq![m].skip(1) =~= Seq::empty());
    assert(wire_messages(seq![m].skip(1)) =~= Seq::empty());
}

/// A user message is sent as one message of the user: as a text where it
/// holds text only, else as blocks, one for each of its own and in order.
pub proof fn law_user_message_is_sent_whole(m: MessageView)
    requires
        m.role == Role::User,
    ensures
        ({
            let sent = wire_messages(seq![m]);
            let content = member(sent[0], "content"@);
            let blocks = content->0->Array_0;
            &&& sent.len() == 1
            &&& member(sent[0], "role"@) == Some(JsonView::Str("user"@))
            &&& (forall|i: int| 0 <= i < m.content.len() ==> #[trigger] m.content[i] is Text)
                ==> content == Some(JsonView::Str(content_text(m.content)))
            &&& (exists|i: int| 0 <= i < m.content.len() && !(#[trigger] m.content[i] is Text))
                ==> {
                &&& content == Some(JsonView::Array(blocks))
                &&& blocks.len() == m.content.len()
                &&& forall|i: int|
                    0 <= i < blocks.len() ==> block_shows(#[trigger] blocks[i], m.content[i])
            }
        }),
{
    lemma_keys();
    assert(seq![m].skip(1) =~= Seq::empty());
    assert(wire_messages(seq![m].skip(1)) =~= Seq::empty());
    if exists|i: int| 0 <= i < m.content.len() && !(#[trigger] m.content[i] is Text) {
        let i = choose|i: int| 0 <= i < m.content.len() && !(#[trigger] m.content[i] is Text);
        assert(m.content[i] is Image || m.content[i] is File);
    }
}

/// Whether a value is the result of a tool call: under the id of the call,
/// the text of the message, or, where it holds an image, its texts and images
/// in order.
pub open spec fn result_shows(j: JsonView, m: MessageView) -> bool {
    let content = member(j, "content"@);
    let blocks = content->0->Array_0;
    let shown = m.content.filter(|b: BlockView| !(b is File));
    &&& member(j, "type"@) == Some(JsonView::Str("tool_result"@))
    &&& member(j, "tool_use_id"@) == Some(
        JsonView::Str(
            if m.tool_call_id is Some {
                m.tool_call_id->0
            } else {
                Seq::empty()
            },
        ),
    )
    &&& (forall|i: int| 0 <= i < m.content.len() ==> !(#[trigger] m.content[i] is Image))
        ==> content == Some(JsonView::Str(content_text(m.content)))
    &&& (exists|i: int| 0 <= i < m.content.len() && #[trigger] m.content[i] is Image) ==> {
        &&& content == Some(JsonView::Array(blocks))
        &&& blocks.len() == shown.len()
        &&& forall|i: int| 0 <= i < blocks.len() ==> block_shows(#[trigger] blocks[i], shown[i])
    }
}

/// A run of tool messages is sent as one message of the user, with one result
/// for each of them, in order.
pub proof fn law_tool_results_go_together(run: Seq<MessageView>)
    requires
        run.len() > 0,
        forall|i: int| 0 <= i < run.len() ==> (#[trigger] run[i]).role == Role::Tool,
    ensures
        ({
            let sent = wire_messages(run);
            let results = member(sent[0], "content"@)->0->Array_0;
            &&& sent.len() == 1
            &&& member(sent[0], "role"@) == Some(JsonView::Str("user"@))
            &&& member(sent[0], "content"@) == Some(JsonView::Array(results))
            &&& results.len() == run.len()
            &&& forall|i: int|
                0 <= i < run.len() ==> result_shows(#[trigger] results[i], run[i])
        }),
{
    let n = run.len() as int;
    lemma_tool_run(run, n);
    assert(run.take(n) =~= run);
    assert(run.skip(n) =~= Seq::empty());
    assert(wire_messages(run.skip(n)) =~= Seq::empty());
    lemma_keys();
    let sent = wire_messages(run);
    let results = member(sent[0], "content"@)->0->Array_0;
    assert(results =~= run.map_values(|m: MessageView| tool_message_block(m)));
    assert forall|i: int| 0 <= i < run.len() implies result_shows(
        #[trigger] results[i],
        run[i],
    ) by {
        lemma_result_blocks(run[i].content);
    }
}

proof fn lemma_result_blocks(blocks: Seq<BlockView>)
    ensures
        ({
            let shown = blocks.filter(|b: BlockView| !(b is File));
            &&& result_blocks(blocks).len() == shown.len()
            &&& forall|i: int|
                0 <= i < shown.len() ==> block_shows(#[trigger] result_blocks(blocks)[i], shown[i])
        }),
    decreases blocks.len(),
{
    reveal(Seq::filter);
    lemma_keys();
    if blocks.len() > 0 {
        let f = |b: BlockView| !(b is File);
        let front = blocks.drop_last();
        lemma_result_blocks(front);
        let shown = blocks.filter(f);
        let sent = result_blocks(blocks);
        assert forall|i: int| 0 <= i < shown.len() implies block_shows(
            #[trigger] sent[i],
            shown[i],
        ) by {
            if i < front.filter(f).len() {
                assert(sent[i] == result_blocks(front)[i]);
                assert(shown[i] == front.filter(f)[i]);
            }
        }
    }
}

/// Whether a value replays a thinking block as the endpoint sent it.
pub open spec fn thinking_shows(j: JsonView, t: ThinkingView) -> bool {
    if t.redacted_data is Some {
        &&& member(j, "type"@) == Some(JsonView::Str("redacted_thinking"@))
        &&& member(j, "data"@) == Some(JsonView::Str(t.redacted_data->0))
    } else {
        &&& member(j, "type"@) == Some(JsonView::Str("thinking"@))
        &&& member(j, "thinking"@) == Some(JsonView::Str(t.text))
        &&& t.signature is Some
        &&& member(j, "signature"@) == Some(JsonView::Str(t.signature->0))
    }
}

/// Whether a value is the call of a tool.
pub open spec fn call_shows(j: JsonView, c: ToolCallView) -> bool {
    &&& member(j, "type"@) == Some(JsonView::Str("tool_use"@))
    &&& member(j, "id"@) == Some(JsonView::Str(c.id))
    &&& member(j, "name"@) == Some(JsonView::Str(c.name))
    &&& member(j, "input"@) == Some(c.arguments)
}

/// An assistant message is sent as one message: first the thinking that the
/// endpoint can check, all of it and in order, then the text where there is
/// any, then every call in order; where there is none of these, an empty
/// text.
pub proof fn law_assistant_message_is_sent_whole(m: MessageView)
    requires
        m.role == Role::Assistant,
    ensures
        ({
            let sent = wire_messages(seq![m]);
            let blocks = member(sent[0], "content"@)->0->Array_0;
            let thinking = m.thinking_content.filter(
                |t: ThinkingView| t.redacted_data is Some || t.signature is Some,
            );
            let text = content_text(m.content);
            let n = thinking.len() as int;
            let k = n + if text.len() > 0 {
                1int
            } else {
                0int
            };
            &&& sent.len() == 1
            &&& member(sent[0], "role"@) == Some(JsonView::Str("assistant"@))
            &&& member(sent[0], "content"@) == Some(JsonView::Array(blocks))
            &&& forall|i: int| 0 <= i < n ==> thinking_shows(#[trigger] blocks[i], thinking[i])
            &&& text.len() > 0 ==> block_shows(blocks[n], BlockView::Text { text })
            &&& forall|i: int|
                #![trigger m.tool_calls[i]]
                0 <= i < m.tool_calls.len() ==> call_shows(blocks[k + i], m.tool_calls[i])
            &&& k + m.tool_calls.len() > 0 ==> blocks.len() == k + m.tool_calls.len()
            &&& k + m.tool_calls.len() == 0 ==> blocks.len() == 1 && block_shows(
                blocks[0],
                BlockView::Text { text: Seq::empty() },
            )
        }),
{
    lemma_keys();
    assert(seq![m].skip(1) =~= Seq::empty());
    assert(wire_messages(seq![m].skip(1)) =~= Seq::empty());
    lemma_replayed(m.thinking_content);
    let sent = wire_messages(seq![m]);
    let blocks = member(sent[0], "content"@)->0->Array_0;
    assert(blocks == assistant_blocks(m));
    let replayed = replayed_thinking(m.thinking_content);
    let f = |t: ThinkingView| t.redacted_data is Some || t.signature is Some;
    let thinking = m.thinking_content.filter(f);
    assert forall|i: int| 0 <= i < thinking.len() implies thinking_shows(
        #[trigger] blocks[i],
        thinking[i],
    ) by {
        assert(blocks[i] == replayed[i]);
    }
}

proof fn lemma_replayed(ts: Seq<ThinkingView>)
    ensures
        ({
            let shown = ts.filter(
                |t: ThinkingView| t.redacted_data is Some || t.signature is Some,
            );
            &&& replayed_thinking(ts).len() == shown.len()
            &&& forall|i: int|
                0 <= i < shown.len() ==> thinking_shows(
                    #[trigger] replayed_thinking(ts)[i],
                    shown[i],
                )
        }),
    decreases ts.len(),
{
    reveal(Seq::filter);
    lemma_keys();
    if ts.len() > 0 {
        let f = |t: ThinkingView| t.redacted_data is Some || t.signature is Some;
        let front = ts.drop_last();
        lemma_replayed(front);
        let shown = ts.filter(f);
        let sent = replayed_thinking(ts);
        assert forall|i: int| 0 <= i < shown.len() implies thinking_shows(
            #[trigger] sent[i],
            shown[i],
        ) by {
            if i < front.filter(f).len() {
                assert(sent[i] == replayed_thinking(front)[i]);
                assert(shown[i] == front.filter(f)[i]);
            }
        }
    }
}

/// What is sent for a conversation is what is sent for its parts, one after
/// the other, wherever it is cut outside a run of tool messages. With the
/// laws above this fixes all that is sent.
pub proof fn law_conversation_is_sent_in_order(a: Seq<MessageView>, b: Seq<MessageView>)
    requires
        a.len() == 0 || b.len() == 0 || a.last().role != Role::Tool || b[0].role != Role::Tool,
    ensures
        wire_messages(a + b) == wire_messages(a) + wire_messages(b),
    decreases a.len(),
{
    let all = a + b;
    let tail = wire_messages(b);
    if a.len() == 0 {
        assert(all =~= b);
        assert(wire_messages(a) + tail =~= tail);
    } else if a[0].role == Role::Tool {
        law_tool_run_is_the_whole_run(a);
        let n = tool_run(a);
        assert(n > 0);
        assert forall|i: int| 0 <= i < n implies (#[trigger] all[i]).role == Role::Tool by {
            assert(all[i] == a[i]);
        }
        if n < all.len() {
            if n < a.len() {
                assert(all[n] == a[n]);
            } else {
                assert(all[n] == b[0]);
                assert(a[n - 1] == a.last());
            }
        }
        lemma_tool_run(all, n);
        assert(all.take(n) =~= a.take(n));
        assert(all.skip(n) =~= a.skip(n) + b);
        if a.skip(n).len() > 0 {
            assert(a.skip(n).last() == a.last());
        }
        law_conversation_is_sent_in_order(a.skip(n), b);
        assert(wire_messages(all) =~= wire_messages(a) + tail);
    } else {
        assert(all[0] == a[0]);
        assert(all.skip(1) =~= a.skip(1) + b);
        if a.skip(1).len() > 0 {
            assert(a.skip(1).last() == a.last());
        }
        law_conversation_is_sent_in_order(a.skip(1), b);
        assert(wire_messages(all) =~= wire_messages(a) + tail);
    }
}

} // verus!
