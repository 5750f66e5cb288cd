//! The message format of Anthropic's `/v1/messages` endpoint: requests out of
//! conversations, and messages out of responses.

use vstd::prelude::*;
use crate::base64_text::{base64_text, encode_base64};
use crate::json::{
    items_view, lemma_items_push, object2, object3, object4, Json, JsonMap, JsonView,
};
use crate::message::{
    call_views, content_text, holds_file, holds_image, lemma_tool_run, message_views,
    system_prompt, system_text, thinking_views, BlockView, ContentBlock, Message, MessageView,
    Role, ThinkingContent, ThinkingView, tool_run, ToolCall, ToolCallView,
};
use crate::text::opt_text;

verus! {

// ---------------------------------------------------------------------------
// Requests
// ---------------------------------------------------------------------------

/// A text block.
pub open spec fn text_block(text: Seq<char>) -> JsonView {
    object2("type"@, JsonView::Str("text"@), "text"@, JsonView::Str(text))
}

/// The source of an attachment.
pub open spec fn base64_source(media_type: Seq<char>, data: Seq<u8>) -> JsonView {
    object3(
        "type"@,
        JsonView::Str("base64"@),
        "media_type"@,
        JsonView::Str(media_type),
        "data"@,
        JsonView::Str(base64_text(data)),
    )
}

/// An image block.
pub open spec fn image_block(media_type: Seq<char>, data: Seq<u8>) -> JsonView {
    object2("type"@, JsonView::Str("image"@), "source"@, base64_source(media_type, data))
}

/// A document block.
pub open spec fn document_block(media_type: Seq<char>, data: Seq<u8>) -> JsonView {
    object2("type"@, JsonView::Str("document"@), "source"@, base64_source(media_type, data))
}

/// A tool-use block.
pub open spec fn tool_use_block(c: ToolCallView) -> JsonView {
    object4(
        "type"@,
        JsonView::Str("tool_use"@),
        "id"@,
        JsonView::Str(c.id),
        "name"@,
        JsonView::Str(c.name),
        "input"@,
        c.arguments,
    )
}

/// A tool-result block.
pub open spec fn tool_result_block(id: Seq<char>, content: JsonView) -> JsonView {
    object3(
        "type"@,
        JsonView::Str("tool_result"@),
        "tool_use_id"@,
        JsonView::Str(id),
        "content"@,
        content,
    )
}

/// A thinking block.
pub open spec fn thinking_block(text: Seq<char>, signature: Seq<char>) -> JsonView {
    object3(
        "type"@,
        JsonView::Str("thinking"@),
        "thinking"@,
        JsonView::Str(text),
        "signature"@,
        JsonView::Str(signature),
    )
}

/// A redacted thinking block.
pub open spec fn redacted_block(data: Seq<char>) -> JsonView {
    object2("type"@, JsonView::Str("redacted_thinking"@), "data"@, JsonView::Str(data))
}

/// A message of a request.
pub open spec fn wire_message(role: Seq<char>, content: JsonView) -> JsonView {
    object2("role"@, JsonView::Str(role), "content"@, content)
}

fn text_json(text: &str) -> (r: Json)
    ensures
        r@ == text_block(text@),
{
    Json::Object(
        JsonMap::new().with("type", Json::text("text")).with("text", Json::text(text)),
    )
}

fn source_json(media_type: &str, data: &Vec<u8>) -> (r: Json)
    ensures
        r@ == base64_source(media_type@, data@),
{
    Json::Object(
        JsonMap::new().with("type", Json::text("base64")).with(
            "media_type",
            Json::text(media_type),
        ).with("data", Json::Str(encode_base64(data))),
    )
}

fn attachment_json(kind: &str, media_type: &str, data: &Vec<u8>) -> (r: Json)
    ensures
        r@ == object2("type"@, JsonView::Str(kind@), "source"@, base64_source(media_type@, data@)),
{
    Json::Object(
        JsonMap::new().with("type", Json::text(kind)).with(
            "source",
            source_json(media_type, data),
        ),
    )
}

fn wire_message_json(role: &str, content: Json) -> (r: Json)
    ensures
        r@ == wire_message(role@, content@),
{
    Json::Object(JsonMap::new().with("role", Json::text(role)).with("content", content))
}

/// The blocks of a tool result: texts and images. A document is not valid
/// there and is left out.
pub open spec fn result_blocks(blocks: Seq<BlockView>) -> Seq<JsonView>
    decreases blocks.len(),
{
    if blocks.len() == 0 {
        Seq::empty()
    } else {
        let front = result_blocks(blocks.drop_last());
        match blocks.last() {
            BlockView::Text { text } => front.push(text_block(text)),
            BlockView::Image { data, media_type } => front.push(image_block(media_type, data)),
            BlockView::File { .. } => front,
        }
    }
}

/// The content of a tool result: an array of blocks where it holds an image,
/// else its text.
pub open spec fn result_content(m: MessageView) -> JsonView {
    if holds_image(m.content) {
        JsonView::Array(result_blocks(m.content))
    } else {
        JsonView::Str(content_text(m.content))
    }
}

/// A tool message as a block.
pub open spec fn tool_message_block(m: MessageView) -> JsonView {
    tool_result_block(
        match m.tool_call_id {
            Some(id) => id,
            None => Seq::empty(),
        },
        result_content(m),
    )
}

/// One block of a user message.
pub open spec fn user_block(b: BlockView) -> JsonView {
    match b {
        BlockView::Text { text } => text_block(text),
        BlockView::Image { data, media_type } => image_block(media_type, data),
        BlockView::File { data, media_type, .. } => document_block(media_type, data),
    }
}

/// A user message: an array of blocks where it has attachments, else its
/// text.
pub open spec fn user_message(m: MessageView) -> JsonView {
    wire_message(
        "user"@,
        if holds_image(m.content) || holds_file(m.content) {
            JsonView::Array(m.content.map_values(|b: BlockView| user_block(b)))
        } else {
            JsonView::Str(content_text(m.content))
        },
    )
}

/// The thinking blocks that are replayed: redacted ones as they came, and
/// those that carry a signature. Others are left out, since the provider
/// refuses them.
pub open spec fn replayed_thinking(ts: Seq<ThinkingView>) -> Seq<JsonView>
    decreases ts.len(),
{
    if ts.len() == 0 {
        Seq::empty()
    } else {
        let front = replayed_thinking(ts.drop_last());
        let t = ts.last();
        match t.redacted_data {
            Some(data) => front.push(redacted_block(data)),
            None => match t.signature {
                Some(signature) => front.push(thinking_block(t.text, signature)),
                None => front,
            },
        }
    }
}

/// The blocks of an assistant message: thinking, text, tool calls; a single
/// empty text where there is none of these.
pub open spec fn assistant_blocks(m: MessageView) -> Seq<JsonView> {
    let text = content_text(m.content);
    let all = replayed_thinking(m.thinking_content) + (if text.len() > 0 {
        seq![text_block(text)]
    } else {
        Seq::empty()
    }) + m.tool_calls.map_values(|c: ToolCallView| tool_use_block(c));
    if all.len() == 0 {
        seq![text_block(Seq::empty())]
    } else {
        all
    }
}

/// The messages of a request. System messages are not among them, and
/// neighbouring tool messages become one user message.
pub open spec fn wire_messages(ms: Seq<MessageView>) -> Seq<JsonView>
    decreases ms.len(),
{
    if ms.len() == 0 {
        Seq::empty()
    } else {
        match ms[0].role {
            Role::System => wire_messages(ms.skip(1)),
            Role::Tool => {
                let n = tool_run(ms);
                if 0 < n <= ms.len() {
                    seq![
                        wire_message(
                            "user"@,
                            JsonView::Array(
                                ms.take(n).map_values(|m: MessageView| tool_message_block(m)),
                            ),
                        ),
                    ] + wire_messages(ms.skip(n))
                } else {
                    Seq::empty()
                }
            },
            Role::User => seq![user_message(ms[0])] + wire_messages(ms.skip(1)),
            Role::Assistant => seq![
                wire_message("assistant"@, JsonView::Array(assistant_blocks(ms[0]))),
            ] + wire_messages(ms.skip(1)),
        }
    }
}

fn result_json(m: &Message) -> (r: Json)
    ensures
        r@ == result_content(m@),
{
    if m.has_images() {
        broadcast use lemma_items_push;

        let mut out: Vec<Json> = Vec::new();
        let mut i: usize = 0;
        assert(items_view(out@) =~= Seq::empty());
        while i < m.content.len()
            invariant
                i <= m.content@.len(),
                items_view(out@) == result_blocks(m@.content.take(i as int)),
            decreases m.content@.len() - i,
        {
            broadcast use lemma_items_push;

            let ghost next = m@.content.take(i + 1);
            assert(next.drop_last() =~= m@.content.take(i as int));
            assert(next.last() == m.content@[i as int]@);
            match &m.content[i] {
                ContentBlock::Text { text } => out.push(text_json(text.as_str())),
                ContentBlock::Image { data, media_type } => out.push(
                    attachment_json("image", media_type.as_str(), data),
                ),
                ContentBlock::File { .. } => {},
            }
            i = i + 1;
        }
        assert(m@.content.take(i as int) =~= m@.content);
        Json::Array(out)
    } else {
        Json::Str(m.text_content())
    }
}

fn tool_message_json(m: &Message) -> (r: Json)
    ensures
        r@ == tool_message_block(m@),
{
    let id = match &m.tool_call_id {
        Some(id) => id.clone(),
        None => String::new(),
    };
    Json::Object(
        JsonMap::new().with("type", Json::text("tool_result")).with("tool_use_id", Json::Str(id)).with(
            "content",
            result_json(m),
        ),
    )
}

fn user_block_json(b: &ContentBlock) -> (r: Json)
    ensures
        r@ == user_block(b@),
{
    match b {
        ContentBlock::Text { text } => text_json(text.as_str()),
        ContentBlock::Image { data, media_type } => attachment_json(
            "image",
            media_type.as_str(),
            data,
        ),
        ContentBlock::File { data, media_type, .. } => attachment_json(
            "document",
            media_type.as_str(),
            data,
        ),
    }
}

fn user_json(m: &Message) -> (r: Json)
    ensures
        r@ == user_message(m@),
{
    if m.has_attachments() {
        let mut out: Vec<Json> = Vec::new();
        let mut i: usize = 0;
        while i < m.content.len()
            invariant
                i <= m.content@.len(),
                out@.len() == i,
                forall|k: int| 0 <= k < i ==> json_of(#[trigger] out@[k]) == user_block(m.content@[k]@),
            decreases m.content@.len() - i,
        {
            out.push(user_block_json(&m.content[i]));
            i = i + 1;
        }
        assert(items_view(out@) =~= m@.content.map_values(|b: BlockView| user_block(b)));
        wire_message_json("user", Json::Array(out))
    } else {
        wire_message_json("user", Json::Str(m.text_content()))
    }
}

spec fn json_of(j: Json) -> JsonView {
    j@
}

fn push_thinking(out: &mut Vec<Json>, ts: &Vec<ThinkingContent>)
    ensures
        items_view(final(out)@) == items_view(old(out)@) + replayed_thinking(thinking_views(ts@)),
{
    let ghost start = items_view(out@);
    let ghost views = thinking_views(ts@);
    let mut i: usize = 0;
    assert(start + replayed_thinking(views.take(0)) =~= start);
    while i < ts.len()
        invariant
            i <= ts@.len(),
            views == thinking_views(ts@),
            items_view(out@) == start + replayed_thinking(views.take(i as int)),
        decreases ts@.len() - i,
    {
        broadcast use lemma_items_push;

        let ghost next = views.take(i + 1);
        let ghost before = replayed_thinking(views.take(i as int));
        assert(next.drop_last() =~= views.take(i as int));
        assert(next.last() == ts@[i as int]@);
        match &ts[i].redacted_data {
            Some(data) => {
                out.push(
                    Json::Object(
                        JsonMap::new().with("type", Json::text("redacted_thinking")).with(
                            "data",
                            Json::text(data.as_str()),
                        ),
                    ),
                );
                assert(items_view(out@) =~= start + before.push(redacted_block(data@)));
            },
            None => match &ts[i].signature {
                Some(signature) => {
                    out.push(
                        Json::Object(
                            JsonMap::new().with("type", Json::text("thinking")).with(
                                "thinking",
                                Json::text(ts[i].text.as_str()),
                            ).with("signature", Json::text(signature.as_str())),
                        ),
                    );
                    assert(items_view(out@) =~= start + before.push(
                        thinking_block(ts@[i as int].text@, signature@),
                    ));
                },
                None => {},
            },
        }
        i = i + 1;
    }
    assert(views.take(i as int) =~= views);
}

fn push_calls(out: &mut Vec<Json>, calls: &Vec<ToolCall>)
    ensures
        items_view(final(out)@) == items_view(old(out)@) + call_views(calls@).map_values(
            |c: ToolCallView| tool_use_block(c),
        ),
{
    let ghost start = items_view(out@);
    let ghost blocks = call_views(calls@).map_values(|c: ToolCallView| tool_use_block(c));
    let mut i: usize = 0;
    assert(start + blocks.take(0) =~= start);
    while i < calls.len()
        invariant
            i <= calls@.len(),
            blocks == call_views(calls@).map_values(|c: ToolCallView| tool_use_block(c)),
            items_view(out@) == start + blocks.take(i as int),
        decreases calls@.len() - i,
    {
        broadcast use lemma_items_push;

        out.push(
            Json::Object(
                JsonMap::new().with("type", Json::text("tool_use")).with(
                    "id",
                    Json::text(calls[i].id.as_str()),
                ).with("name", Json::text(calls[i].name.as_str())).with(
                    "input",
                    calls[i].arguments.copy(),
                ),
            ),
        );
        i = i + 1;
        assert(items_view(out@) =~= start + blocks.take(i as int));
    }
    assert(blocks.take(i as int) =~= blocks);
}

fn assistant_json(m: &Message) -> (r: Json)
    ensures
        r@ == wire_message("assistant"@, JsonView::Array(assistant_blocks(m@))),
{
    broadcast use lemma_items_push;

    let mut out: Vec<Json> = Vec::new();
    assert(items_view(out@) =~= Seq::empty());
    push_thinking(&mut out, &m.thinking_content);
    let ghost thinking = replayed_thinking(m@.thinking_content);
    assert(items_view(out@) =~= thinking);
    let text = m.text_content();
    let ghost t = content_text(m@.content);
    assert(text@.len() == 0 ==> text@ =~= Seq::empty());
    let ghost middle = if t.len() > 0 {
        seq![text_block(t)]
    } else {
        Seq::empty()
    };
    if !text.as_str().is_empty() {
        out.push(text_json(text.as_str()));
    }
    assert(items_view(out@) =~= thinking + middle);
    push_calls(&mut out, &m.tool_calls);
    if out.len() == 0 {
        out.push(text_json(""));
        proof {
            reveal_strlit("");
        }
        assert(""@ =~= Seq::<char>::empty());
        assert(items_view(out@) =~= seq![text_block(Seq::empty())]);
    }
    wire_message_json("assistant", Json::Array(out))
}

/// A conversation as a request carries it: the system prompt, and the
/// messages.
pub fn convert_messages(messages: &Vec<Message>) -> (r: (Option<String>, Vec<Json>))
    ensures
        opt_text(r.0) == system_prompt(message_views(messages@)),
        items_view(r.1@) == wire_messages(message_views(messages@)),
{
    let ghost ms = message_views(messages@);
    let system = system_text(messages);
    let mut out: Vec<Json> = Vec::new();
    let mut i: usize = 0;
    assert(ms.skip(0) =~= ms);
    assert(items_view(out@) + wire_messages(ms) =~= wire_messages(ms));
    while i < messages.len()
        invariant
            i <= messages@.len(),
            ms == message_views(messages@),
            items_view(out@) + wire_messages(ms.skip(i as int)) == wire_messages(ms),
        decreases messages@.len() - i,
    {
        broadcast use lemma_items_push;

        let ghost rest = ms.skip(i as int);
        let ghost before = items_view(out@);
        assert(rest[0] == messages@[i as int]@);
        assert(rest.skip(1) =~= ms.skip(i + 1));
        match messages[i].role {
            Role::System => {
                i = i + 1;
            },
            Role::Tool => {
                let start: usize = i;
                let mut blocks: Vec<Json> = Vec::new();
                while i < messages.len() && messages[i].role == Role::Tool
                    invariant
                        start <= i <= messages@.len(),
                        ms == message_views(messages@),
                        blocks@.len() == i - start,
                        forall|k: int| start <= k < i ==> (#[trigger] messages@[k]).role == Role::Tool,
                        forall|k: int|
                            0 <= k < i - start ==> json_of(#[trigger] blocks@[k]) == tool_message_block(
                                messages@[start + k]@,
                            ),
                    decreases messages@.len() - i,
                {
                    blocks.push(tool_message_json(&messages[i]));
                    i = i + 1;
                }
                let ghost n = i - start;
                assert(n > 0);
                assert forall|k: int| 0 <= k < n implies (#[trigger] rest[k]).role == Role::Tool by {
                    assert(rest[k] == messages@[start + k]@);
                }
                assert(n < rest.len() ==> rest[n] == messages@[i as int]@);
                proof {
                    lemma_tool_run(rest, n);
                }
                assert(items_view(blocks@) =~= rest.take(n).map_values(
                    |m: MessageView| tool_message_block(m),
                ));
                assert(rest.skip(n) =~= ms.skip(i as int));
                out.push(wire_message_json("user", Json::Array(blocks)));
            },
            Role::User => {
                out.push(user_json(&messages[i]));
                i = i + 1;
            },
            Role::Assistant => {
                out.push(assistant_json(&messages[i]));
                i = i + 1;
            },
        }
        assert(items_view(out@) + wire_messages(ms.skip(i as int)) =~= before + wire_messages(rest));
    }
    assert(items_view(out@) + wire_messages(ms.skip(i as int)) =~= items_view(out@));
    (system, out)
}

} // verus!
