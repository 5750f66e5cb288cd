//! The content format of Gemini's `generateContent` endpoint.

use vstd::prelude::*;
use crate::base64_text::{base64_text, encode_base64};
use crate::json::{
    items_view, json_view, lemma_items_push, no_members, object1, object2, object3, opt_json,
    opt_str, put, Json, JsonMap, JsonView,
};
use crate::message::{
    content_text, lemma_tool_run, message_views, system_prompt, system_text, tool_run, BlockView,
    ContentBlock, Message, MessageView, Role, ToolCall, ToolCallView,
};
use crate::text::opt_text;
use crate::text_map::{lemma_map_values_insert, text_under, text_values, TextMap};

verus! {

/// What is remembered of the tool calls of a conversation: the signature that
/// has to be echoed with a call, and the name that its result has to carry.
#[derive(Debug)]
pub struct CallMeta {
    pub thought_signatures: TextMap<String>,
    pub tool_names: TextMap<String>,
}

/// The model of what is remembered of tool calls.
pub ghost struct CallMetaView {
    pub thought_signatures: Map<Seq<char>, Seq<char>>,
    pub tool_names: Map<Seq<char>, Seq<char>>,
}

impl View for CallMeta {
    type V = CallMetaView;

    open spec fn view(&self) -> CallMetaView {
        CallMetaView {
            thought_signatures: text_values(self.thought_signatures@),
            tool_names: text_values(self.tool_names@),
        }
    }
}

/// A map with pairs put in one after the other.
pub open spec fn with_pairs(
    m: Map<Seq<char>, Seq<char>>,
    pairs: Seq<(Seq<char>, Seq<char>)>,
) -> Map<Seq<char>, Seq<char>>
    decreases pairs.len(),
{
    if pairs.len() == 0 {
        m
    } else {
        with_pairs(m, pairs.drop_last()).insert(pairs.last().0, pairs.last().1)
    }
}

/// The texts of pairs.
pub open spec fn pair_views(s: Seq<(String, String)>) -> Seq<(Seq<char>, Seq<char>)> {
    s.map_values(|p: (String, String)| (p.0@, p.1@))
}

fn put_pairs(m: &mut TextMap<String>, pairs: &Vec<(String, String)>)
    ensures
        text_values(final(m)@) == with_pairs(text_values(old(m)@), pair_views(pairs@)),
{
    let ghost ps = pair_views(pairs@);
    let mut i: usize = 0;
    while i < pairs.len()
        invariant
            i <= pairs@.len(),
            ps == pair_views(pairs@),
            text_values(m@) == with_pairs(text_values(old(m)@), ps.take(i as int)),
        decreases pairs@.len() - i,
    {
        let ghost next = ps.take(i + 1);
        assert(next.drop_last() =~= ps.take(i as int));
        assert(next.last() == ps[i as int]);
        proof {
            lemma_map_values_insert(
                m@,
                pairs@[i as int].0@,
                pairs@[i as int].1,
                |t: String| t@,
            );
        }
        m.insert(pairs[i].0.as_str(), pairs[i].1.clone());
        i = i + 1;
    }
    assert(ps.take(i as int) =~= ps);
}

impl CallMeta {
    /// Nothing remembered.
    pub fn new() -> (r: CallMeta)
        ensures
            r@.thought_signatures == Map::<Seq<char>, Seq<char>>::empty(),
            r@.tool_names == Map::<Seq<char>, Seq<char>>::empty(),
    {
        let r = CallMeta { thought_signatures: TextMap::new(), tool_names: TextMap::new() };
        assert(r@.thought_signatures =~= Map::<Seq<char>, Seq<char>>::empty());
        assert(r@.tool_names =~= Map::<Seq<char>, Seq<char>>::empty());
        r
    }

    /// Remembers the signatures and the names of tool calls, by their ids.
    pub fn save(&mut self, thought_signatures: &Vec<(String, String)>, tool_names: &Vec<
        (String, String),
    >)
        ensures
            final(self)@ == (CallMetaView {
                thought_signatures: with_pairs(
                    old(self)@.thought_signatures,
                    pair_views(thought_signatures@),
                ),
                tool_names: with_pairs(old(self)@.tool_names, pair_views(tool_names@)),
            }),
    {
        put_pairs(&mut self.thought_signatures, thought_signatures);
        put_pairs(&mut self.tool_names, tool_names);
    }
}

/// A text part.
pub open spec fn text_part(text: Seq<char>) -> JsonView {
    object1("text"@, JsonView::Str(text))
}

/// A part of inline data.
pub open spec fn data_part(media_type: Seq<char>, data: Seq<u8>) -> JsonView {
    object1(
        "inlineData"@,
        object2(
            "mimeType"@,
            JsonView::Str(media_type),
            "data"@,
            JsonView::Str(base64_text(data)),
        ),
    )
}

/// A block of a user message as a part.
pub open spec fn user_part(b: BlockView) -> JsonView {
    match b {
        BlockView::Text { text } => text_part(text),
        BlockView::Image { data, media_type } => data_part(media_type, data),
        BlockView::File { data, media_type, .. } => data_part(media_type, data),
    }
}

/// A function call, with the signature that was given with it.
pub open spec fn call_part(c: ToolCallView, signature: Option<Seq<char>>) -> JsonView {
    JsonView::Object(
        put(
            no_members().insert(
                "functionCall"@,
                object3(
                    "name"@,
                    JsonView::Str(c.name),
                    "args"@,
                    c.arguments,
                    "id"@,
                    JsonView::Str(c.id),
                ),
            ),
            "thoughtSignature"@,
            opt_str(signature),
        ),
    )
}

/// The result of a function call, under the name of the function.
pub open spec fn result_part(name: Seq<char>, text: Seq<char>) -> JsonView {
    object1(
        "functionResponse"@,
        object2(
            "name"@,
            JsonView::Str(name),
            "response"@,
            object1("result"@, JsonView::Str(text)),
        ),
    )
}

/// A content of a request.
pub open spec fn wire_content(role: Seq<char>, parts: Seq<JsonView>) -> JsonView {
    object2("role"@, JsonView::Str(role), "parts"@, JsonView::Array(parts))
}

/// The parts of an assistant message: its text, then its function calls; a
/// single empty text where there is neither.
pub open spec fn model_parts(m: MessageView, meta: CallMetaView) -> Seq<JsonView> {
    let text = content_text(m.content);
    let all = (if text.len() > 0 {
        seq![text_part(text)]
    } else {
        Seq::empty()
    }) + m.tool_calls.map_values(
        |c: ToolCallView| call_part(c, text_under(meta.thought_signatures, c.id)),
    );
    if all.len() == 0 {
        seq![text_part(Seq::empty())]
    } else {
        all
    }
}

/// A tool message as a part.
pub open spec fn tool_part(m: MessageView, meta: CallMetaView) -> JsonView {
    let id = match m.tool_call_id {
        Some(id) => id,
        None => Seq::empty(),
    };
    result_part(
        match text_under(meta.tool_names, id) {
            Some(name) => name,
            None => Seq::empty(),
        },
        content_text(m.content),
    )
}

/// The contents of a request. System messages are not among them, and
/// neighbouring tool messages become one content.
pub open spec fn wire_contents(ms: Seq<MessageView>, meta: CallMetaView) -> Seq<JsonView>
    decreases ms.len(),
{
    if ms.len() == 0 {
        Seq::empty()
    } else {
        match ms[0].role {
            Role::System => wire_contents(ms.skip(1), meta),
            Role::Tool => {
                let n = tool_run(ms);
                if 0 < n <= ms.len() {
                    seq![
                        wire_content(
                            "user"@,
                            ms.take(n).map_values(|m: MessageView| tool_part(m, meta)),
                        ),
                    ] + wire_contents(ms.skip(n), meta)
                } else {
                    Seq::empty()
                }
            },
            Role::User => seq![
                wire_content("user"@, ms[0].content.map_values(|b: BlockView| user_part(b))),
            ] + wire_contents(ms.skip(1), meta),
            Role::Assistant => seq![wire_content("model"@, model_parts(ms[0], meta))]
                + wire_contents(ms.skip(1), meta),
        }
    }
}

/// The system instruction.
pub open spec fn system_instruction(ms: Seq<MessageView>) -> Option<JsonView> {
    match system_prompt(ms) {
        Some(text) => Some(object1("parts"@, JsonView::Array(seq![text_part(text)]))),
        None => None,
    }
}

fn text_part_json(text: &str) -> (r: Json)
    ensures
        r@ == text_part(text@),
{
    Json::Object(JsonMap::new().with("text", Json::text(text)))
}

fn data_part_json(media_type: &str, data: &Vec<u8>) -> (r: Json)
    ensures
        r@ == data_part(media_type@, data@),
{
    let inner = Json::Object(
        JsonMap::new().with("mimeType", Json::text(media_type)).with(
            "data",
            Json::Str(encode_base64(data)),
        ),
    );
    Json::Object(JsonMap::new().with("inlineData", inner))
}

fn content_json(role: &str, parts: Vec<Json>) -> (r: Json)
    ensures
        r@ == wire_content(role@, items_view(parts@)),
{
    Json::Object(
        JsonMap::new().with("role", Json::text(role)).with("parts", Json::Array(parts)),
    )
}

fn user_json(m: &Message) -> (r: Json)
    ensures
        r@ == wire_content("user"@, m@.content.map_values(|b: BlockView| user_part(b))),
{
    let mut out: Vec<Json> = Vec::new();
    let mut i: usize = 0;
    while i < m.content.len()
        invariant
            i <= m.content@.len(),
            out@.len() == i,
            forall|k: int| 0 <= k < i ==> json_view(#[trigger] out@[k]) == user_part(m.content@[k]@),
        decreases m.content@.len() - i,
    {
        out.push(
            match &m.content[i] {
                ContentBlock::Text { text } => text_part_json(text.as_str()),
                ContentBlock::Image { data, media_type } => data_part_json(
                    media_type.as_str(),
                    data,
                ),
                ContentBlock::File { data, media_type, .. } => data_part_json(
                    media_type.as_str(),
                    data,
                ),
            },
        );
        i = i + 1;
    }
    assert(items_view(out@) =~= m@.content.map_values(|b: BlockView| user_part(b)));
    content_json("user", out)
}

fn remembered(m: &TextMap<String>, key: &str) -> (r: Option<String>)
    ensures
        opt_text(r) == text_under(text_values(m@), key@),
{
    match m.get(key) {
        Some(v) => Some(v.clone()),
        None => None,
    }
}

fn call_json(c: &ToolCall, meta: &CallMeta) -> (r: Json)
    ensures
        r@ == call_part(c@, text_under(meta@.thought_signatures, c@.id)),
{
    let call = Json::Object(
        JsonMap::new().with("name", Json::text(c.name.as_str())).with(
            "args",
            c.arguments.copy(),
        ).with("id", Json::text(c.id.as_str())),
    );
    let signature = remembered(&meta.thought_signatures, c.id.as_str());
    let mut m = JsonMap::new();
    m.insert("functionCall", call);
    m.put("thoughtSignature", Json::opt_text(&signature));
    Json::Object(m)
}

fn model_json(m: &Message, meta: &CallMeta) -> (r: Json)
    ensures
        r@ == wire_content("model"@, model_parts(m@, meta@)),
{
    broadcast use lemma_items_push;

    let text = m.text_content();
    let ghost t = content_text(m@.content);
    let ghost head = if t.len() > 0 {
        seq![text_part(t)]
    } else {
        Seq::empty()
    };
    let ghost calls = m@.tool_calls.map_values(
        |c: ToolCallView| call_part(c, text_under(meta@.thought_signatures, c.id)),
    );
    let mut out: Vec<Json> = Vec::new();
    assert(items_view(out@) =~= Seq::empty());
    if !text.as_str().is_empty() {
        out.push(text_part_json(text.as_str()));
    }
    assert(items_view(out@) =~= head);
    let mut i: usize = 0;
    assert(head + calls.take(0) =~= head);
    while i < m.tool_calls.len()
        invariant
            i <= m.tool_calls@.len(),
            calls == m@.tool_calls.map_values(
                |c: ToolCallView| call_part(c, text_under(meta@.thought_signatures, c.id)),
            ),
            items_view(out@) == head + calls.take(i as int),
        decreases m.tool_calls@.len() - i,
    {
        broadcast use lemma_items_push;

        assert(m@.tool_calls[i as int] == m.tool_calls@[i as int]@);
        out.push(call_json(&m.tool_calls[i], meta));
        i = i + 1;
        assert(items_view(out@) =~= head + calls.take(i as int));
    }
    assert(calls.take(i as int) =~= calls);
    assert(items_view(out@).len() == out@.len());
    if out.len() == 0 {
        out.push(text_part_json(""));
        proof {
            reveal_strlit("");
        }
        assert(""@ =~= Seq::<char>::empty());
        assert(items_view(out@) =~= seq![text_part(Seq::empty())]);
    }
    content_json("model", out)
}

fn tool_json(m: &Message, meta: &CallMeta) -> (r: Json)
    ensures
        r@ == tool_part(m@, meta@),
{
    let id = match &m.tool_call_id {
        Some(id) => id.clone(),
        None => String::new(),
    };
    assert(m@.tool_call_id is None ==> id@ =~= Seq::empty());
    let name = match remembered(&meta.tool_names, id.as_str()) {
        Some(n) => n,
        None => {
            let empty = String::new();
            assert(empty@ =~= Seq::empty());
            empty
        },
    };
    let response = Json::Object(JsonMap::new().with("result", Json::Str(m.text_content())));
    let inner = Json::Object(
        JsonMap::new().with("name", Json::Str(name)).with("response", response),
    );
    Json::Object(JsonMap::new().with("functionResponse", inner))
}

fn system_json(messages: &Vec<Message>) -> (r: Option<Json>)
    ensures
        opt_json(r) == system_instruction(message_views(messages@)),
{
    match system_text(messages) {
        Some(text) => {
            let items: Vec<Json> = vec![text_part_json(text.as_str())];
            assert(items_view(items@) =~= seq![text_part(text@)]);
            Some(Json::Object(JsonMap::new().with("parts", Json::Array(items))))
        },
        None => None,
    }
}

/// A conversation as a request carries it: the system instruction, and the
/// contents.
pub fn convert_messages(messages: &Vec<Message>, meta: &CallMeta) -> (r: (Option<Json>, Vec<Json>))
    ensures
        opt_json(r.0) == system_instruction(message_views(messages@)),
        items_view(r.1@) == wire_contents(message_views(messages@), meta@),
{
    let ghost ms = message_views(messages@);
    let system = system_json(messages);
    let mut out: Vec<Json> = Vec::new();
    let mut i: usize = 0;
    assert(ms.skip(0) =~= ms);
    assert(items_view(out@) + wire_contents(ms, meta@) =~= wire_contents(ms, meta@));
    while i < messages.len()
        invariant
            i <= messages@.len(),
            ms == message_views(messages@),
            items_view(out@) + wire_contents(ms.skip(i as int), meta@) == wire_contents(ms, meta@),
        decreases messages@.len() - i,
    {
        broadcast use lemma_items_push;

        let ghost rest = ms.skip(i as int);
        let ghost before = items_view(out@);
        assert(rest[0] == messages@[i as int]@);
        assert(rest.skip(1) =~= ms.skip(i + 1));
        match messages[i].role {
            Role::System => {
                i = i + 1;
            },
            Role::Tool => {
                let start: usize = i;
                let mut parts: Vec<Json> = Vec::new();
                while i < messages.len() && messages[i].role == Role::Tool
                    invariant
                        start <= i <= messages@.len(),
                        ms == message_views(messages@),
                        parts@.len() == i - start,
                        forall|k: int| start <= k < i ==> (#[trigger] messages@[k]).role == Role::Tool,
                        forall|k: int|
                            0 <= k < i - start ==> json_view(#[trigger] parts@[k]) == tool_part(
                                messages@[start + k]@,
                                meta@,
                            ),
                    decreases messages@.len() - i,
                {
                    parts.push(tool_json(&messages[i], meta));
                    i = i + 1;
                }
                let ghost n = i - start;
                assert(n > 0);
                assert forall|k: int| 0 <= k < n implies (#[trigger] rest[k]).role == Role::Tool by {
                    assert(rest[k] == messages@[start + k]@);
                }
                assert(n < rest.len() ==> rest[n] == messages@[i as int]@);
                proof {
                    lemma_tool_run(rest, n);
                }
                assert(items_view(parts@) =~= rest.take(n).map_values(
                    |m: MessageView| tool_part(m, meta@),
                ));
                assert(rest.skip(n) =~= ms.skip(i as int));
                out.push(content_json("user", parts));
            },
            Role::User => {
                out.push(user_json(&messages[i]));
                i = i + 1;
            },
            Role::Assistant => {
                out.push(model_json(&messages[i], meta));
                i = i + 1;
            },
        }
        assert(items_view(out@) + wire_contents(ms.skip(i as int), meta@) =~= before
            + wire_contents(rest, meta@));
    }
    assert(items_view(out@) + wire_contents(ms.skip(i as int), meta@) =~= items_view(out@));
    (system, out)
}

} // verus!
