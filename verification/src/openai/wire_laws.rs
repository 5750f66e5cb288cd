//! Laws of the messages of a request: nothing that a conversation says is
//! lost, doubled or moved on its way to the endpoint.

use vstd::prelude::*;
use crate::base64_text::base64_text;
use crate::json::{member, text_of_json, JsonView};
use crate::message::{
    content_text, law_tool_run_is_the_whole_run, lemma_tool_run, tool_run, BlockView, MessageView,
    Role, ThinkingView, ToolCallView,
};
use crate::openai::reasoning::ReasoningHistoryKey;
use crate::openai::wire::{
    all_image_parts, image_part, image_parts, reasoning_details, text_part, tool_images,
    user_parts, wire_call, wire_message, wire_messages, TOOL_IMAGES_NOTE,
};
use crate::text::lemma_flat_map_last;

verus! {

proof fn lemma_message_keys()
    ensures
        "role"@ != "content"@,
        "role"@ != "tool_calls"@,
        "role"@ != "tool_call_id"@,
        "role"@ != "reasoning_content"@,
        "role"@ != "reasoning"@,
        "role"@ != "reasoning_details"@,
        "content"@ != "tool_calls"@,
        "content"@ != "tool_call_id"@,
        "content"@ != "reasoning_content"@,
        "content"@ != "reasoning"@,
        "content"@ != "reasoning_details"@,
        "tool_calls"@ != "tool_call_id"@,
        "tool_calls"@ != "reasoning_content"@,
        "tool_calls"@ != "reasoning"@,
        "tool_calls"@ != "reasoning_details"@,
        "tool_call_id"@ != "reasoning_content"@,
        "tool_call_id"@ != "reasoning"@,
        "tool_call_id"@ != "reasoning_details"@,
        "reasoning_content"@ != "reasoning"@,
        "reasoning_content"@ != "reasoning_details"@,
        "reasoning"@ != "reasoning_details"@,
{
    reveal_strlit("role");
    reveal_strlit("content");
    reveal_strlit("tool_calls");
    reveal_strlit("tool_call_id");
    reveal_strlit("reasoning_content");
    reveal_strlit("reasoning");
    reveal_strlit("reasoning_details");
    assert("role"@.len() == 4 && "content"@.len() == 7 && "tool_calls"@.len() == 10);
    assert("tool_call_id"@.len() == 12 && "reasoning_content"@.len() == 17);
    assert("reasoning"@.len() == 9 && "reasoning_details"@.len() == 17);
    assert("reasoning_content"@[10] == 'c' && "reasoning_details"@[10] == 'd');
}

proof fn lemma_call_keys()
    ensures
        "id"@ != "type"@,
        "id"@ != "function"@,
        "type"@ != "function"@,
        "name"@ != "arguments"@,
{
    reveal_strlit("id");
    reveal_strlit("type");
    reveal_strlit("function");
    reveal_strlit("name");
    reveal_strlit("arguments");
    assert("id"@.len() == 2 && "type"@.len() == 4 && "function"@.len() == 8);
    assert("name"@.len() == 4 && "arguments"@.len() == 9);
}

/// Whether a message goes out as a text: it is no user message, or it holds
/// text blocks only.
pub open spec fn goes_as_text(m: MessageView) -> bool {
    m.role != Role::User || forall|i: int| 0 <= i < m.content.len() ==> #[trigger] m.content[i] is Text
}

/// A message that goes out as a text carries that text as `content`, whatever
/// its role and whether or not it calls tools. `content` is absent only where
/// the text is empty and there are calls.
pub proof fn law_text_is_sent(m: MessageView, include_reasoning: bool, key: ReasoningHistoryKey)
    requires
        goes_as_text(m),
    ensures
        ({
            let sent = member(wire_message(m, include_reasoning, key), "content"@);
            let text = content_text(m.content);
            &&& text.len() > 0 ==> sent == Some(JsonView::Str(text))
            &&& m.tool_calls.len() == 0 ==> sent == Some(JsonView::Str(text))
            &&& sent is None <==> text.len() == 0 && m.tool_calls.len() > 0
        }),
{
    lemma_message_keys();
}

/// A user message with an attachment carries a list of parts: one for each
/// attachment and for each text that is not empty, in the order of the blocks.
pub proof fn law_attachments_are_sent(
    m: MessageView,
    include_reasoning: bool,
    key: ReasoningHistoryKey,
)
    requires
        m.role == Role::User,
        exists|i: int| 0 <= i < m.content.len() && !(#[trigger] m.content[i] is Text),
    ensures
        ({
            let shown = m.content.filter(
                |b: BlockView| b is Text ==> b->Text_text.len() > 0,
            );
            &&& member(wire_message(m, include_reasoning, key), "content"@) == Some(
                JsonView::Array(user_parts(m.content)),
            )
            &&& user_parts(m.content).len() == shown.len()
            &&& forall|i: int|
                0 <= i < shown.len() ==> part_shows(#[trigger] user_parts(m.content)[i], shown[i])
        }),
{
    lemma_message_keys();
    let i = choose|i: int| 0 <= i < m.content.len() && !(#[trigger] m.content[i] is Text);
    assert(m.content[i] is Image || m.content[i] is File);
    lemma_parts_show_blocks(m.content);
}

/// Whether a part of a user message carries a block: the text itself, or the
/// data behind its media type, and the name of a file.
pub open spec fn part_shows(part: JsonView, b: BlockView) -> bool {
    match b {
        BlockView::Text { text } => {
            &&& member(part, "type"@) == Some(JsonView::Str("text"@))
            &&& member(part, "text"@) == Some(JsonView::Str(text))
        },
        BlockView::Image { data, media_type } => {
            &&& member(part, "type"@) == Some(JsonView::Str("image_url"@))
            &&& member(part, "image_url"@) is Some
            &&& member(member(part, "image_url"@)->0, "url"@) == Some(
                JsonView::Str(
                    "data:"@ + media_type + ";base64,"@ + base64_text(data),
                ),
            )
        },
        BlockView::File { data, media_type, filename } => {
            &&& member(part, "type"@) == Some(JsonView::Str("file"@))
            &&& member(part, "file"@) is Some
            &&& member(member(part, "file"@)->0, "filename"@) == Some(JsonView::Str(filename))
            &&& member(member(part, "file"@)->0, "file_data"@) == Some(
                JsonView::Str(
                    "data:"@ + media_type + ";base64,"@ + base64_text(data),
                ),
            )
        },
    }
}

proof fn lemma_parts_show_blocks(blocks: Seq<BlockView>)
    ensures
        ({
            let shown = blocks.filter(|b: BlockView| b is Text ==> b->Text_text.len() > 0);
            &&& user_parts(blocks).len() == shown.len()
            &&& forall|i: int|
                0 <= i < shown.len() ==> part_shows(#[trigger] user_parts(blocks)[i], shown[i])
        }),
    decreases blocks.len(),
{
    reveal(Seq::filter);
    if blocks.len() > 0 {
        let f = |b: BlockView| b is Text ==> b->Text_text.len() > 0;
        let front = blocks.drop_last();
        lemma_parts_show_blocks(front);
        let shown = blocks.filter(f);
        let parts = user_parts(blocks);
        assert forall|i: int| 0 <= i < shown.len() implies part_shows(
            #[trigger] parts[i],
            shown[i],
        ) by {
            if i < front.filter(f).len() {
                assert(parts[i] == user_parts(front)[i]);
                assert(shown[i] == front.filter(f)[i]);
            } else {
                lemma_part_shows(blocks.last());
            }
        }
    }
}

proof fn lemma_part_shows(b: BlockView)
    requires
        b is Text ==> b->Text_text.len() > 0,
    ensures
        user_parts(seq![b]).len() == 1,
        part_shows(user_parts(seq![b])[0], b),
        forall|front: Seq<BlockView>|
            #![trigger user_parts(front.push(b))]
            user_parts(front.push(b)).last() == user_parts(seq![b])[0],
{
    reveal_strlit("type");
    reveal_strlit("text");
    reveal_strlit("image_url");
    reveal_strlit("file");
    reveal_strlit("filename");
    reveal_strlit("file_data");
    assert("type"@[1] == 'y' && "text"@[1] == 'e' && "file"@[1] == 'i');
    assert("image_url"@.len() == 9 && "filename"@.len() == 8 && "file_data"@.len() == 9);
    assert(seq![b].drop_last() =~= Seq::empty());
    assert(user_parts(seq![b].drop_last()) =~= Seq::empty());
    assert forall|front: Seq<BlockView>|
        #![trigger user_parts(front.push(b))]
        user_parts(front.push(b)).last() == user_parts(seq![b])[0] by {
        assert(front.push(b).drop_last() =~= front);
        assert(front.push(b).last() == b);
    }
}

/// A message is sent under the name of its role.
pub proof fn law_role_is_sent(m: MessageView, include_reasoning: bool, key: ReasoningHistoryKey)
    ensures
        ({
            let sent = member(wire_message(m, include_reasoning, key), "role"@);
            &&& m.role == Role::System ==> sent == Some(JsonView::Str("system"@))
            &&& m.role == Role::User ==> sent == Some(JsonView::Str("user"@))
            &&& m.role == Role::Assistant ==> sent == Some(JsonView::Str("assistant"@))
            &&& m.role == Role::Tool ==> sent == Some(JsonView::Str("tool"@))
        }),
{
    lemma_message_keys();
}

/// Every tool call of a message is sent, in order, with its id, its name and
/// its arguments as text; without calls there is no such member. The id of
/// the call that a message answers is sent with it.
pub proof fn law_calls_are_sent(m: MessageView, include_reasoning: bool, key: ReasoningHistoryKey)
    ensures
        ({
            let w = wire_message(m, include_reasoning, key);
            &&& m.tool_calls.len() == 0 ==> member(w, "tool_calls"@) is None
            &&& m.tool_calls.len() > 0 ==> {
                let sent = member(w, "tool_calls"@)->0->Array_0;
                &&& member(w, "tool_calls"@) == Some(JsonView::Array(sent))
                &&& sent.len() == m.tool_calls.len()
                &&& forall|i: int|
                    0 <= i < sent.len() ==> carries_call(#[trigger] sent[i], m.tool_calls[i])
            }
            &&& match m.tool_call_id {
                Some(id) => member(w, "tool_call_id"@) == Some(JsonView::Str(id)),
                None => member(w, "tool_call_id"@) is None,
            }
        }),
{
    lemma_message_keys();
    let sent = m.tool_calls.map_values(|t: ToolCallView| wire_call(t));
    assert forall|i: int| 0 <= i < sent.len() implies carries_call(
        #[trigger] sent[i],
        m.tool_calls[i],
    ) by {
        lemma_call_keys();
    }
}

/// Whether a wire call carries a tool call.
pub open spec fn carries_call(sent: JsonView, c: ToolCallView) -> bool {
    let function = member(sent, "function"@);
    &&& member(sent, "id"@) == Some(JsonView::Str(c.id))
    &&& member(sent, "type"@) == Some(JsonView::Str("function"@))
    &&& function is Some
    &&& member(function->0, "name"@) == Some(JsonView::Str(c.name))
    &&& member(function->0, "arguments"@) == Some(JsonView::Str(text_of_json(c.arguments)))
}

/// Where the reasoning of earlier turns goes: the text of the first thinking
/// block under the chosen key and under no other; without a thinking block an
/// empty text on assistant messages where the backend expects the member, and
/// else nothing. As details, every structured block goes out in order, and
/// nothing where there is none.
pub proof fn law_reasoning_goes_under_its_key(
    m: MessageView,
    include_reasoning: bool,
    key: ReasoningHistoryKey,
)
    ensures
        ({
            let w = wire_message(m, include_reasoning, key);
            let plain = if m.thinking_content.len() > 0 {
                Some(JsonView::Str(m.thinking_content[0].text))
            } else if include_reasoning && m.role == Role::Assistant {
                Some(JsonView::Str(Seq::empty()))
            } else {
                None
            };
            let details = m.thinking_content.filter_map(|t: ThinkingView| t.details);
            &&& member(w, "reasoning_content"@) == if key == ReasoningHistoryKey::ReasoningContent {
                plain
            } else {
                None
            }
            &&& member(w, "reasoning"@) == if key == ReasoningHistoryKey::Reasoning {
                plain
            } else {
                None
            }
            &&& member(w, "reasoning_details"@) == if key == ReasoningHistoryKey::ReasoningDetails
                && details.len() > 0 {
                Some(JsonView::Array(details))
            } else {
                None
            }
        }),
{
    lemma_message_keys();
    lemma_details(m.thinking_content);
}

proof fn lemma_details(ts: Seq<ThinkingView>)
    ensures
        reasoning_details(ts) == ts.filter_map(|t: ThinkingView| t.details),
    decreases ts.len(),
{
    if ts.len() > 0 {
        lemma_details(ts.drop_last());
    }
}

/// A message that is no tool message is sent as one message.
pub proof fn law_one_message_is_one_message(
    m: MessageView,
    include_reasoning: bool,
    key: ReasoningHistoryKey,
)
    requires
        m.role != Role::Tool,
    ensures
        wire_messages(seq![m], include_reasoning, key) == seq![
            wire_message(m, include_reasoning, key),
        ],
{
    assert(seq![m].skip(1) =~= Seq::empty());
    assert(wire_messages(seq![m].skip(1), include_reasoning, key) =~= Seq::empty());
}

/// A run of tool messages is sent one for one; all the images that they hold
/// follow behind in one user message, after a note, where there are any.
pub proof fn law_tool_images_follow_the_run(
    run: Seq<MessageView>,
    include_reasoning: bool,
    key: ReasoningHistoryKey,
)
    requires
        run.len() > 0,
        forall|i: int| 0 <= i < run.len() ==> (#[trigger] run[i]).role == Role::Tool,
    ensures
        ({
            let images = run.flat_map(|m: MessageView| m.content).filter(|b: BlockView| b is Image);
            let sent = wire_messages(run, include_reasoning, key);
            let shown = sent.last();
            &&& sent.len() == run.len() + (if images.len() > 0 {
                1int
            } else {
                0int
            })
            &&& forall|i: int|
                0 <= i < run.len() ==> #[trigger] sent[i] == wire_message(
                    run[i],
                    include_reasoning,
                    key,
                )
            &&& images.len() > 0 ==> {
                let parts = member(shown, "content"@)->0->Array_0;
                &&& member(shown, "role"@) == Some(JsonView::Str("user"@))
                &&& member(shown, "content"@) == Some(JsonView::Array(parts))
                &&& parts.len() == 1 + images.len()
                &&& part_shows(parts[0], BlockView::Text { text: TOOL_IMAGES_NOTE@ })
                &&& forall|i: int|
                    0 <= i < images.len() ==> part_shows(#[trigger] parts[1 + i], images[i])
            }
        }),
{
    let n = run.len() as int;
    lemma_tool_run(run, n);
    assert(run.take(n) =~= run);
    assert(run.skip(n) =~= Seq::empty());
    assert(wire_messages(run.skip(n), include_reasoning, key) =~= Seq::empty());
    lemma_all_images(run);
    lemma_message_keys();
    let blocks = run.flat_map(|m: MessageView| m.content);
    let images = blocks.filter(|b: BlockView| b is Image);
    let sent = wire_messages(run, include_reasoning, key);
    let f = |m: MessageView| wire_message(m, include_reasoning, key);
    assert(sent =~= run.map_values(f) + tool_images(all_image_parts(run)));
    if images.len() > 0 {
        let parts = member(sent.last(), "content"@)->0->Array_0;
        assert(parts =~= seq![text_part(TOOL_IMAGES_NOTE@)] + all_image_parts(
            run,
        ));
        reveal_strlit("type");
        reveal_strlit("text");
        assert("type"@[1] == 'y' && "text"@[1] == 'e');
        assert forall|i: int| 0 <= i < images.len() implies part_shows(
            #[trigger] parts[1 + i],
            images[i],
        ) by {
            assert(parts[1 + i] == all_image_parts(run)[i]);
        }
    }
}

proof fn lemma_image_parts(blocks: Seq<BlockView>)
    ensures
        ({
            let images = blocks.filter(|b: BlockView| b is Image);
            &&& image_parts(blocks).len() == images.len()
            &&& forall|i: int|
                0 <= i < images.len() ==> part_shows(#[trigger] image_parts(blocks)[i], images[i])
        }),
    decreases blocks.len(),
{
    reveal(Seq::filter);
    if blocks.len() > 0 {
        let f = |b: BlockView| b is Image;
        let front = blocks.drop_last();
        lemma_image_parts(front);
        let images = blocks.filter(f);
        let parts = image_parts(blocks);
        assert forall|i: int| 0 <= i < images.len() implies part_shows(
            #[trigger] parts[i],
            images[i],
        ) by {
            if i < front.filter(f).len() {
                assert(parts[i] == image_parts(front)[i]);
                assert(images[i] == front.filter(f)[i]);
            } else {
                let b = blocks.last();
                lemma_part_shows(b);
                assert(parts[i] == image_part(b->Image_media_type, b->Image_data));
                assert(seq![b].drop_last() =~= Seq::empty());
            }
        }
    }
}

proof fn lemma_all_images(ms: Seq<MessageView>)
    ensures
        ({
            let images = ms.flat_map(|m: MessageView| m.content).filter(|b: BlockView| b is Image);
            &&& all_image_parts(ms).len() == images.len()
            &&& forall|i: int|
                0 <= i < images.len() ==> part_shows(#[trigger] all_image_parts(ms)[i], images[i])
        }),
    decreases ms.len(),
{
    let g = |m: MessageView| m.content;
    let f = |b: BlockView| b is Image;
    if ms.len() == 0 {
        assert(ms.flat_map(g) =~= Seq::empty());
        ms.flat_map(g).lemma_filter_len(f);
    } else {
        let front = ms.drop_last();
        lemma_all_images(front);
        lemma_flat_map_last(ms, g);
        Seq::filter_distributes_over_add(front.flat_map(g), ms.last().content, f);
        lemma_image_parts(ms.last().content);
        let images = ms.flat_map(g).filter(f);
        let parts = all_image_parts(ms);
        let cut = all_image_parts(front).len() as int;
        assert forall|i: int| 0 <= i < images.len() implies part_shows(
            #[trigger] parts[i],
            images[i],
        ) by {
            if i < cut {
                assert(parts[i] == all_image_parts(front)[i]);
            } else {
                assert(parts[i] == image_parts(ms.last().content)[i - cut]);
            }
        }
    }
}

/// What is sent for a conversation is what is sent for its parts, one after
/// the other, wherever it is cut outside a run of tool messages. With the two
/// laws above this fixes all that is sent.
pub proof fn law_conversation_is_sent_in_order(
    a: Seq<MessageView>,
    b: Seq<MessageView>,
    include_reasoning: bool,
    key: ReasoningHistoryKey,
)
    requires
        a.len() == 0 || b.len() == 0 || a.last().role != Role::Tool || b[0].role != Role::Tool,
    ensures
        wire_messages(a + b, include_reasoning, key) == wire_messages(a, include_reasoning, key)
            + wire_messages(b, include_reasoning, key),
    decreases a.len(),
{
    let all = a + b;
    if a.len() == 0 {
        assert(all =~= b);
        assert(wire_messages(a, include_reasoning, key) + wire_messages(b, include_reasoning, key)
            =~= wire_messages(b, include_reasoning, key));
    } else if a[0].role == Role::Tool {
        law_tool_run_is_the_whole_run(a);
        let n = tool_run(a);
        assert(n > 0);
        assert forall|i: int| 0 <= i < n implies (#[trigger] all[i]).role == Role::Tool by {
            assert(all[i] == a[i]);
        }
        if n < all.len() {
            if n < a.len() {
                assert(all[n] == a[n]);
            } else {
                assert(all[n] == b[0]);
                assert(a[n - 1] == a.last());
            }
        }
        lemma_tool_run(all, n);
        assert(all.take(n) =~= a.take(n));
        assert(all.skip(n) =~= a.skip(n) + b);
        if a.skip(n).len() > 0 {
            assert(a.skip(n).last() == a.last());
        }
        law_conversation_is_sent_in_order(a.skip(n), b, include_reasoning, key);
        let head = a.take(n).map_values(|m: MessageView| wire_message(m, include_reasoning, key))
            + tool_images(all_image_parts(a.take(n)));
        let rest = wire_messages(a.skip(n), include_reasoning, key);
        let tail = wire_messages(b, include_reasoning, key);
        assert(head + (rest + tail) =~= head + rest + tail);
    } else {
        assert(all[0] == a[0]);
        assert(all.skip(1) =~= a.skip(1) + b);
        if a.skip(1).len() > 0 {
            assert(a.skip(1).last() == a.last());
        }
        law_conversation_is_sent_in_order(a.skip(1), b, include_reasoning, key);
        let head = seq![wire_message(a[0], include_reasoning, key)];
        let rest = wire_messages(a.skip(1), include_reasoning, key);
        let tail = wire_messages(b, include_reasoning, key);
        assert(head + (rest + tail) =~= head + rest + tail);
    }
}

} // verus!
