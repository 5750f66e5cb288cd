//! The message format of OpenAI's `/v1/chat/completions` endpoint.

use vstd::prelude::*;
use crate::base64_text::{base64_text, encode_base64};
use crate::json::{
    items_view, json_view, lemma_items_push, member, no_members, object1, object2, object3, opt_json,
    opt_str, put, text_of_json, Json, JsonMap, JsonView,
};
use crate::message::{
    content_text, holds_file, holds_image, lemma_tool_run, message_views, tool_run, BlockView,
    ContentBlock, Message, MessageView, Role, ThinkingView, ToolCallView,
};
use crate::openai::reasoning::{reasoning_text, ReasoningContent, ReasoningHistoryKey};
use crate::text::{join2, opt_text};

verus! {

/// The name of a role.
pub open spec fn role_name(r: Role) -> Seq<char> {
    match r {
        Role::System => "system"@,
        Role::User => "user"@,
        Role::Assistant => "assistant"@,
        Role::Tool => "tool"@,
    }
}

/// Binary data as a `data:` address.
pub open spec fn data_url(media_type: Seq<char>, data: Seq<u8>) -> Seq<char> {
    "data:"@ + media_type + ";base64,"@ + base64_text(data)
}

/// A text part.
pub open spec fn text_part(text: Seq<char>) -> JsonView {
    object2("type"@, JsonView::Str("text"@), "text"@, JsonView::Str(text))
}

/// An image part.
pub open spec fn image_part(media_type: Seq<char>, data: Seq<u8>) -> JsonView {
    object2(
        "type"@,
        JsonView::Str("image_url"@),
        "image_url"@,
        object1("url"@, JsonView::Str(data_url(media_type, data))),
    )
}

/// A file part.
pub open spec fn file_part(media_type: Seq<char>, data: Seq<u8>, filename: Seq<char>) -> JsonView {
    object2(
        "type"@,
        JsonView::Str("file"@),
        "file"@,
        object2(
            "file_data"@,
            JsonView::Str(data_url(media_type, data)),
            "filename"@,
            JsonView::Str(filename),
        ),
    )
}

/// The parts of a user message. An empty text is left out.
pub open spec fn user_parts(blocks: Seq<BlockView>) -> Seq<JsonView>
    decreases blocks.len(),
{
    if blocks.len() == 0 {
        Seq::empty()
    } else {
        let front = user_parts(blocks.drop_last());
        match blocks.last() {
            BlockView::Text { text } => if text.len() > 0 {
                front.push(text_part(text))
            } else {
                front
            },
            BlockView::Image { data, media_type } => front.push(image_part(media_type, data)),
            BlockView::File { data, media_type, filename } => front.push(
                file_part(media_type, data, filename),
            ),
        }
    }
}

/// The content of a message: parts for a user message with attachments, else
/// its text; nothing for a message that consists of tool calls alone.
pub open spec fn wire_content(m: MessageView) -> Option<JsonView> {
    if m.role == Role::User && (holds_image(m.content) || holds_file(m.content)) {
        Some(JsonView::Array(user_parts(m.content)))
    } else if content_text(m.content).len() == 0 && m.tool_calls.len() > 0 {
        None
    } else {
        Some(JsonView::Str(content_text(m.content)))
    }
}

/// The reasoning that a message carries on the wire: its own where it has
/// any, and an empty text on assistant messages for a backend that expects
/// the member.
pub open spec fn echoed_reasoning(m: MessageView, include_reasoning: bool) -> Option<Seq<char>> {
    match reasoning_text(m) {
        Some(t) => Some(t),
        None => if include_reasoning && m.role == Role::Assistant {
            Some(Seq::empty())
        } else {
            None
        },
    }
}

/// The structured reasoning blocks of a message, in order.
pub open spec fn reasoning_details(ts: Seq<ThinkingView>) -> Seq<JsonView>
    decreases ts.len(),
{
    if ts.len() == 0 {
        Seq::empty()
    } else {
        let front = reasoning_details(ts.drop_last());
        match ts.last().details {
            Some(d) => front.push(d),
            None => front,
        }
    }
}

/// The members of a message with its reasoning added under the given key.
pub open spec fn with_reasoning_member(
    members: Map<Seq<char>, JsonView>,
    m: MessageView,
    include_reasoning: bool,
    key: ReasoningHistoryKey,
) -> Map<Seq<char>, JsonView> {
    match key {
        ReasoningHistoryKey::ReasoningContent => put(
            members,
            "reasoning_content"@,
            opt_str(echoed_reasoning(m, include_reasoning)),
        ),
        ReasoningHistoryKey::Reasoning => put(
            members,
            "reasoning"@,
            opt_str(echoed_reasoning(m, include_reasoning)),
        ),
        ReasoningHistoryKey::ReasoningDetails => put(
            members,
            "reasoning_details"@,
            if reasoning_details(m.thinking_content).len() == 0 {
                None
            } else {
                Some(JsonView::Array(reasoning_details(m.thinking_content)))
            },
        ),
        ReasoningHistoryKey::Omit => members,
    }
}

/// A tool call of a message. The arguments are sent as JSON text.
pub open spec fn wire_call(c: ToolCallView) -> JsonView {
    object3(
        "id"@,
        JsonView::Str(c.id),
        "type"@,
        JsonView::Str("function"@),
        "function"@,
        object2(
            "name"@,
            JsonView::Str(c.name),
            "arguments"@,
            JsonView::Str(text_of_json(c.arguments)),
        ),
    )
}

/// A message of a request.
pub open spec fn wire_message(
    m: MessageView,
    include_reasoning: bool,
    key: ReasoningHistoryKey,
) -> JsonView {
    let a = no_members().insert("role"@, JsonView::Str(role_name(m.role)));
    let b = put(a, "content"@, wire_content(m));
    let c = with_reasoning_member(b, m, include_reasoning, key);
    let d = put(
        c,
        "tool_calls"@,
        if m.tool_calls.len() == 0 {
            None
        } else {
            Some(JsonView::Array(m.tool_calls.map_values(|t: ToolCallView| wire_call(t))))
        },
    );
    JsonView::Object(put(d, "tool_call_id"@, opt_str(m.tool_call_id)))
}

/// The images among blocks.
pub open spec fn image_parts(blocks: Seq<BlockView>) -> Seq<JsonView>
    decreases blocks.len(),
{
    if blocks.len() == 0 {
        Seq::empty()
    } else {
        let front = image_parts(blocks.drop_last());
        match blocks.last() {
            BlockView::Image { data, media_type } => front.push(image_part(media_type, data)),
            _ => front,
        }
    }
}

/// The images of all messages.
pub open spec fn all_image_parts(ms: Seq<MessageView>) -> Seq<JsonView>
    decreases ms.len(),
{
    if ms.len() == 0 {
        Seq::empty()
    } else {
        all_image_parts(ms.drop_last()) + image_parts(ms.last().content)
    }
}

/// The text in front of the images that tools returned.
pub const TOOL_IMAGES_NOTE: &'static str = "Image(s) returned by the preceding tool call(s):";

/// The user message that shows the images that tools returned, if there are
/// any.
pub open spec fn tool_images(parts: Seq<JsonView>) -> Seq<JsonView> {
    if parts.len() == 0 {
        Seq::empty()
    } else {
        seq![
            object2(
                "role"@,
                JsonView::Str("user"@),
                "content"@,
                JsonView::Array(seq![text_part(TOOL_IMAGES_NOTE@)] + parts),
            ),
        ]
    }
}

/// The messages of a request. Tool messages are sent as text; the images of a
/// run of them follow in one user message behind the whole run.
pub open spec fn wire_messages(
    ms: Seq<MessageView>,
    include_reasoning: bool,
    key: ReasoningHistoryKey,
) -> Seq<JsonView>
    decreases ms.len(),
{
    if ms.len() == 0 {
        Seq::empty()
    } else if ms[0].role == Role::Tool {
        let n = tool_run(ms);
        if 0 < n <= ms.len() {
            ms.take(n).map_values(|m: MessageView| wire_message(m, include_reasoning, key))
                + tool_images(all_image_parts(ms.take(n))) + wire_messages(
                ms.skip(n),
                include_reasoning,
                key,
            )
        } else {
            Seq::empty()
        }
    } else {
        seq![wire_message(ms[0], include_reasoning, key)] + wire_messages(
            ms.skip(1),
            include_reasoning,
            key,
        )
    }
}

/// The name of a role.
pub fn role_text(r: Role) -> (s: &'static str)
    ensures
        s@ == role_name(r),
{
    match r {
        Role::System => "system",
        Role::User => "user",
        Role::Assistant => "assistant",
        Role::Tool => "tool",
    }
}

fn data_url_text(media_type: &str, data: &Vec<u8>) -> (r: String)
    ensures
        r@ == data_url(media_type@, data@),
{
    let head = join2("data:", media_type);
    let head = join2(head.as_str(), ";base64,");
    let code = encode_base64(data);
    join2(head.as_str(), code.as_str())
}

fn text_part_json(text: &str) -> (r: Json)
    ensures
        r@ == text_part(text@),
{
    Json::Object(
        JsonMap::new().with("type", Json::text("text")).with("text", Json::text(text)),
    )
}

fn image_part_json(media_type: &str, data: &Vec<u8>) -> (r: Json)
    ensures
        r@ == image_part(media_type@, data@),
{
    let url = Json::Object(JsonMap::new().with("url", Json::Str(data_url_text(media_type, data))));
    Json::Object(JsonMap::new().with("type", Json::text("image_url")).with("image_url", url))
}

fn file_part_json(media_type: &str, data: &Vec<u8>, filename: &str) -> (r: Json)
    ensures
        r@ == file_part(media_type@, data@, filename@),
{
    let file = Json::Object(
        JsonMap::new().with("file_data", Json::Str(data_url_text(media_type, data))).with(
            "filename",
            Json::text(filename),
        ),
    );
    Json::Object(JsonMap::new().with("type", Json::text("file")).with("file", file))
}

fn user_parts_json(m: &Message) -> (r: Vec<Json>)
    ensures
        items_view(r@) == user_parts(m@.content),
{
    let mut out: Vec<Json> = Vec::new();
    let mut i: usize = 0;
    assert(items_view(out@) =~= Seq::empty());
    while i < m.content.len()
        invariant
            i <= m.content@.len(),
            items_view(out@) == user_parts(m@.content.take(i as int)),
        decreases m.content@.len() - i,
    {
        broadcast use lemma_items_push;

        let ghost next = m@.content.take(i + 1);
        assert(next.drop_last() =~= m@.content.take(i as int));
        assert(next.last() == m.content@[i as int]@);
        match &m.content[i] {
            ContentBlock::Text { text } => {
                if !text.as_str().is_empty() {
                    out.push(text_part_json(text.as_str()));
                }
            },
            ContentBlock::Image { data, media_type } => {
                out.push(image_part_json(media_type.as_str(), data));
            },
            ContentBlock::File { data, media_type, filename } => {
                out.push(file_part_json(media_type.as_str(), data, filename.as_str()));
            },
        }
        i = i + 1;
    }
    assert(m@.content.take(i as int) =~= m@.content);
    out
}

fn content_json(m: &Message) -> (r: Option<Json>)
    ensures
        opt_json(r) == wire_content(m@),
{
    if m.role == Role::User && m.has_attachments() {
        Some(Json::Array(user_parts_json(m)))
    } else {
        let text = m.text_content();
        assert(m@.tool_calls.len() == m.tool_calls@.len());
        if text.as_str().is_empty() && m.tool_calls.len() > 0 {
            None
        } else {
            Some(Json::Str(text))
        }
    }
}

fn echoed_json(m: &Message, include_reasoning: bool) -> (r: Option<Json>)
    ensures
        opt_json(r) == opt_str(echoed_reasoning(m@, include_reasoning)),
{
    match m.reasoning_content() {
        Some(t) => Some(Json::text(t)),
        None => if include_reasoning && m.role == Role::Assistant {
            let empty = String::new();
            assert(empty@ =~= Seq::empty());
            Some(Json::Str(empty))
        } else {
            None
        },
    }
}

fn details_json(m: &Message) -> (r: Option<Json>)
    ensures
        opt_json(r) == (if reasoning_details(m@.thinking_content).len() == 0 {
            None::<JsonView>
        } else {
            Some(JsonView::Array(reasoning_details(m@.thinking_content)))
        }),
{
    let ghost ts = m@.thinking_content;
    let mut out: Vec<Json> = Vec::new();
    let mut i: usize = 0;
    assert(items_view(out@) =~= Seq::empty());
    while i < m.thinking_content.len()
        invariant
            i <= m.thinking_content@.len(),
            ts == m@.thinking_content,
            items_view(out@) == reasoning_details(ts.take(i as int)),
        decreases m.thinking_content@.len() - i,
    {
        broadcast use lemma_items_push;

        let ghost next = ts.take(i + 1);
        assert(next.drop_last() =~= ts.take(i as int));
        assert(next.last() == m.thinking_content@[i as int]@);
        match &m.thinking_content[i].details {
            Some(d) => out.push(d.copy()),
            None => {},
        }
        i = i + 1;
    }
    assert(ts.take(i as int) =~= ts);
    assert(items_view(out@).len() == out@.len());
    if out.len() == 0 {
        None
    } else {
        Some(Json::Array(out))
    }
}

fn calls_json(m: &Message) -> (r: Option<Json>)
    ensures
        opt_json(r) == (if m@.tool_calls.len() == 0 {
            None::<JsonView>
        } else {
            Some(JsonView::Array(m@.tool_calls.map_values(|t: ToolCallView| wire_call(t))))
        }),
{
    assert(m@.tool_calls.len() == m.tool_calls@.len());
    if m.tool_calls.len() == 0 {
        return None;
    }
    let mut out: Vec<Json> = Vec::new();
    let mut i: usize = 0;
    while i < m.tool_calls.len()
        invariant
            i <= m.tool_calls@.len(),
            out@.len() == i,
            forall|k: int| 0 <= k < i ==> json_view(#[trigger] out@[k]) == wire_call(m.tool_calls@[k]@),
        decreases m.tool_calls@.len() - i,
    {
        let c = &m.tool_calls[i];
        let function = Json::Object(
            JsonMap::new().with("name", Json::text(c.name.as_str())).with(
                "arguments",
                Json::Str(c.arguments.to_text()),
            ),
        );
        out.push(
            Json::Object(
                JsonMap::new().with("id", Json::text(c.id.as_str())).with(
                    "type",
                    Json::text("function"),
                ).with("function", function),
            ),
        );
        i = i + 1;
    }
    assert(items_view(out@) =~= m@.tool_calls.map_values(|t: ToolCallView| wire_call(t)));
    Some(Json::Array(out))
}

/// A message as a request carries it.
pub fn wire_message_json(m: &Message, include_reasoning: bool, key: ReasoningHistoryKey) -> (r: Json)
    ensures
        r@ == wire_message(m@, include_reasoning, key),
{
    let mut out = JsonMap::new();
    out.insert("role", Json::text(role_text(m.role)));
    out.put("content", content_json(m));
    match key {
        ReasoningHistoryKey::ReasoningContent => out.put(
            "reasoning_content",
            echoed_json(m, include_reasoning),
        ),
        ReasoningHistoryKey::Reasoning => out.put("reasoning", echoed_json(m, include_reasoning)),
        ReasoningHistoryKey::ReasoningDetails => out.put("reasoning_details", details_json(m)),
        ReasoningHistoryKey::Omit => {},
    }
    out.put("tool_calls", calls_json(m));
    out.put("tool_call_id", Json::opt_text(&m.tool_call_id));
    Json::Object(out)
}

fn push_images(out: &mut Vec<Json>, m: &Message)
    ensures
        items_view(final(out)@) == items_view(old(out)@) + image_parts(m@.content),
{
    let ghost start = items_view(out@);
    let mut i: usize = 0;
    assert(start + image_parts(m@.content.take(0)) =~= start);
    while i < m.content.len()
        invariant
            i <= m.content@.len(),
            items_view(out@) == start + image_parts(m@.content.take(i as int)),
        decreases m.content@.len() - i,
    {
        broadcast use lemma_items_push;

        let ghost next = m@.content.take(i + 1);
        let ghost before = image_parts(m@.content.take(i as int));
        assert(next.drop_last() =~= m@.content.take(i as int));
        assert(next.last() == m.content@[i as int]@);
        match &m.content[i] {
            ContentBlock::Image { data, media_type } => {
                out.push(image_part_json(media_type.as_str(), data));
                assert(items_view(out@) =~= start + before.push(image_part(media_type@, data@)));
            },
            _ => {},
        }
        i = i + 1;
    }
    assert(m@.content.take(i as int) =~= m@.content);
}

fn push_tool_images(out: &mut Vec<Json>, parts: Vec<Json>)
    ensures
        items_view(final(out)@) == items_view(old(out)@) + tool_images(items_view(parts@)),
{
    broadcast use lemma_items_push;

    let ghost images = items_view(parts@);
    assert(images.len() == parts@.len());
    if parts.len() == 0 {
        assert(items_view(out@) + tool_images(images) =~= items_view(out@));
        return;
    }
    let mut all: Vec<Json> = Vec::new();
    all.push(text_part_json(TOOL_IMAGES_NOTE));
    let mut parts = parts;
    let ghost tail = parts@;
    all.append(&mut parts);
    assert(items_view(all@) =~= seq![text_part(TOOL_IMAGES_NOTE@)] + images);
    let ghost before = items_view(out@);
    out.push(
        Json::Object(
            JsonMap::new().with("role", Json::text("user")).with("content", Json::Array(all)),
        ),
    );
    assert(items_view(out@) =~= before + tool_images(images));
}

/// Adds the run of tool messages at `start`, and the images that they hold.
/// Gives the end of the run.
fn push_tool_run(
    out: &mut Vec<Json>,
    messages: &Vec<Message>,
    start: usize,
    include_reasoning: bool,
    key: ReasoningHistoryKey,
) -> (end: usize)
    requires
        start < messages@.len(),
        messages@[start as int].role == Role::Tool,
    ensures
        start < end <= messages@.len(),
        end - start == tool_run(message_views(messages@).skip(start as int)),
        ({
            let run = message_views(messages@).skip(start as int).take(end - start);
            items_view(final(out)@) == items_view(old(out)@) + (run.map_values(
                |m: MessageView| wire_message(m, include_reasoning, key),
            ) + tool_images(all_image_parts(run)))
        }),
{
    let ghost ms = message_views(messages@);
    let ghost rest = ms.skip(start as int);
    let ghost f = |m: MessageView| wire_message(m, include_reasoning, key);
    let ghost before = items_view(out@);
    let mut i: usize = start;
    let mut parts: Vec<Json> = Vec::new();
    assert(items_view(parts@) =~= all_image_parts(rest.take(0)));
    assert(before + rest.take(0).map_values(f) =~= before);
    while i < messages.len() && messages[i].role == Role::Tool
        invariant
            start <= i <= messages@.len(),
            ms == message_views(messages@),
            rest == ms.skip(start as int),
            f == (|m: MessageView| wire_message(m, include_reasoning, key)),
            forall|k: int| start <= k < i ==> (#[trigger] messages@[k]).role == Role::Tool,
            items_view(parts@) == all_image_parts(rest.take(i - start)),
            items_view(out@) == before + rest.take(i - start).map_values(f),
        decreases messages@.len() - i,
    {
        broadcast use lemma_items_push;

        let ghost k = i - start;
        let ghost next = rest.take(k + 1);
        let ghost done = items_view(out@);
        assert(next.drop_last() =~= rest.take(k));
        assert(next.last() == messages@[i as int]@);
        push_images(&mut parts, &messages[i]);
        out.push(wire_message_json(&messages[i], include_reasoning, key));
        assert(items_view(out@) =~= done.push(f(next.last())));
        assert(next.map_values(f) =~= rest.take(k).map_values(f).push(f(next.last())));
        assert(items_view(out@) =~= before + next.map_values(f));
        i = i + 1;
    }
    let ghost n = i - start;
    assert forall|k: int| 0 <= k < n implies (#[trigger] rest[k]).role == Role::Tool by {
        assert(rest[k] == messages@[start + k]@);
    }
    assert(n < rest.len() ==> rest[n] == messages@[i as int]@);
    proof {
        lemma_tool_run(rest, n);
    }
    let ghost done = items_view(out@);
    push_tool_images(out, parts);
    assert(items_view(out@) =~= before + (rest.take(n).map_values(f) + tool_images(
        all_image_parts(rest.take(n)),
    )));
    i
}

/// The messages of a conversation as a request carries them.
pub fn wire_messages_json(
    messages: &Vec<Message>,
    include_reasoning: bool,
    key: ReasoningHistoryKey,
) -> (r: Vec<Json>)
    ensures
        items_view(r@) == wire_messages(message_views(messages@), include_reasoning, key),
{
    let ghost ms = message_views(messages@);
    let ghost all = wire_messages(ms, include_reasoning, key);
    let mut out: Vec<Json> = Vec::new();
    let mut i: usize = 0;
    assert(ms.skip(0) =~= ms);
    assert(items_view(out@) + all =~= all);
    while i < messages.len()
        invariant
            i <= messages@.len(),
            ms == message_views(messages@),
            items_view(out@) + wire_messages(ms.skip(i as int), include_reasoning, key) == all,
        decreases messages@.len() - i,
    {
        broadcast use lemma_items_push;

        let ghost rest = ms.skip(i as int);
        let ghost before = items_view(out@);
        let ghost start = i;
        assert(rest[0] == messages@[i as int]@);
        if messages[i].role != Role::Tool {
            out.push(wire_message_json(&messages[i], include_reasoning, key));
            i = i + 1;
            assert(rest.skip(1) =~= ms.skip(i as int));
        } else {
            i = push_tool_run(&mut out, messages, i, include_reasoning, key);
            assert(rest.skip(i - start) =~= ms.skip(i as int));
        }
        assert(items_view(out@) + wire_messages(ms.skip(i as int), include_reasoning, key)
            =~= before + wire_messages(rest, include_reasoning, key));
    }
    assert(items_view(out@) + wire_messages(ms.skip(i as int), include_reasoning, key)
        =~= items_view(out@));
    out
}

/// Every message of a conversation is among those of the request.
pub proof fn law_every_message_is_sent(
    ms: Seq<MessageView>,
    include_reasoning: bool,
    key: ReasoningHistoryKey,
    i: int,
)
    requires
        0 <= i < ms.len(),
    ensures
        wire_messages(ms, include_reasoning, key).contains(
            wire_message(ms[i], include_reasoning, key),
        ),
    decreases ms.len(),
{
    let all = wire_messages(ms, include_reasoning, key);
    let sent = wire_message(ms[i], include_reasoning, key);
    if ms[0].role == Role::Tool {
        let n = tool_run(ms);
        lemma_tool_run_bounds(ms);
        let run = ms.take(n).map_values(
            |m: MessageView| wire_message(m, include_reasoning, key),
        );
        let images = tool_images(all_image_parts(ms.take(n)));
        let rest = wire_messages(ms.skip(n), include_reasoning, key);
        assert(all == run + images + rest);
        if i < n {
            assert(run[i] == sent);
            assert(all[i] == sent);
        } else {
            law_every_message_is_sent(ms.skip(n), include_reasoning, key, i - n);
            assert(ms.skip(n)[i - n] == ms[i]);
            let j = choose|j: int| 0 <= j < rest.len() && rest[j] == sent;
            assert(all[run.len() + images.len() + j] == sent);
        }
    } else if i == 0 {
        assert(all[0] == sent);
    } else {
        let rest = wire_messages(ms.skip(1), include_reasoning, key);
        law_every_message_is_sent(ms.skip(1), include_reasoning, key, i - 1);
        assert(ms.skip(1)[i - 1] == ms[i]);
        let j = choose|j: int| 0 <= j < rest.len() && rest[j] == sent;
        assert(all[1 + j] == sent);
    }
}

proof fn lemma_tool_run_bounds(ms: Seq<MessageView>)
    ensures
        0 <= tool_run(ms) <= ms.len(),
        ms.len() > 0 && ms[0].role == Role::Tool ==> tool_run(ms) > 0,
    decreases ms.len(),
{
    if ms.len() > 0 {
        lemma_tool_run_bounds(ms.skip(1));
    }
}

/// Under `ReasoningContent`, a message that has reasoning carries it, whether
/// or not the backend expects the member.
pub proof fn law_reasoning_is_replayed(m: MessageView, include_reasoning: bool, text: Seq<char>)
    requires
        reasoning_text(m) == Some(text),
    ensures
        member(
            wire_message(m, include_reasoning, ReasoningHistoryKey::ReasoningContent),
            "reasoning_content"@,
        ) == Some(JsonView::Str(text)),
{
    reveal_strlit("tool_calls");
    reveal_strlit("tool_call_id");
    reveal_strlit("reasoning_content");
    assert("tool_calls"@.len() == 10 && "tool_call_id"@.len() == 12);
    assert("reasoning_content"@.len() == 17);
}

/// With `Omit`, no message carries reasoning under any of the three keys.
pub proof fn law_omit_replays_nothing(m: MessageView, include_reasoning: bool)
    ensures
        ({
            let w = wire_message(m, include_reasoning, ReasoningHistoryKey::Omit)->Object_0;
            &&& !w.dom().contains("reasoning_content"@)
            &&& !w.dom().contains("reasoning"@)
            &&& !w.dom().contains("reasoning_details"@)
        }),
{
    reveal_strlit("role");
    reveal_strlit("content");
    reveal_strlit("tool_calls");
    reveal_strlit("tool_call_id");
    reveal_strlit("reasoning_content");
    reveal_strlit("reasoning");
    reveal_strlit("reasoning_details");
    assert("role"@.len() == 4 && "content"@.len() == 7 && "tool_calls"@.len() == 10);
    assert("tool_call_id"@.len() == 12 && "reasoning_content"@.len() == 17);
    assert("reasoning"@.len() == 9 && "reasoning_details"@.len() == 17);
}

} // verus!
