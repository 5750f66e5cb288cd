//! Prompt caching: breakpoints up to which Anthropic keeps a request's
//! prefix.

use vstd::prelude::*;
use crate::json::{
    items_view, json_view, lemma_items_push, member, object1, object3, Json, JsonMap, JsonView,
};
use crate::text::text_eq;

verus! {

/// The marker of a breakpoint.
pub open spec fn cache_control() -> JsonView {
    object1("type"@, JsonView::Str("ephemeral"@))
}

/// A text block that is a breakpoint.
pub open spec fn cached_text(text: Seq<char>) -> JsonView {
    object3(
        "type"@,
        JsonView::Str("text"@),
        "text"@,
        JsonView::Str(text),
        "cache_control"@,
        cache_control(),
    )
}

/// A value made a breakpoint, where it is an object.
pub open spec fn marked(j: JsonView) -> JsonView {
    match j {
        JsonView::Object(m) => JsonView::Object(m.insert("cache_control"@, cache_control())),
        _ => j,
    }
}

/// The items with the last one made a breakpoint.
pub open spec fn marked_last(items: Seq<JsonView>) -> Seq<JsonView> {
    if items.len() == 0 {
        items
    } else {
        items.drop_last().push(marked(items.last()))
    }
}

/// A content made a breakpoint: a plain text becomes a text block, and of an
/// array the last block is marked.
pub open spec fn cached_content(j: JsonView) -> JsonView {
    match j {
        JsonView::Str(text) => JsonView::Array(seq![cached_text(text)]),
        JsonView::Array(items) => JsonView::Array(marked_last(items)),
        _ => j,
    }
}

/// The object with the member `key` changed by `cached_content`, where it has
/// one.
pub open spec fn with_cached(m: Map<Seq<char>, JsonView>, key: Seq<char>) -> Map<
    Seq<char>,
    JsonView,
> {
    if m.dom().contains(key) {
        m.insert(key, cached_content(m[key]))
    } else {
        m
    }
}

/// The object with the last element of the array `tools` marked.
pub open spec fn with_cached_tools(m: Map<Seq<char>, JsonView>) -> Map<Seq<char>, JsonView> {
    if m.dom().contains("tools"@) && m["tools"@] is Array {
        m.insert("tools"@, JsonView::Array(marked_last(m["tools"@]->Array_0)))
    } else {
        m
    }
}

/// Whether a message's blocks can be breakpoints: an assistant message may end
/// in a thinking block, on which the provider refuses a marker.
pub open spec fn cacheable(message: Map<Seq<char>, JsonView>) -> bool {
    message.dom().contains("role"@) && (message["role"@] == JsonView::Str("user"@)
        || message["role"@] == JsonView::Str("tool"@))
}

/// A message made a breakpoint, where it can be one.
pub open spec fn cached_message(j: JsonView) -> JsonView {
    match j {
        JsonView::Object(m) => if cacheable(m) {
            JsonView::Object(with_cached(m, "content"@))
        } else {
            j
        },
        _ => j,
    }
}

/// The object with the last of its messages made a breakpoint.
pub open spec fn with_cached_message(m: Map<Seq<char>, JsonView>) -> Map<Seq<char>, JsonView> {
    if m.dom().contains("messages"@) && m["messages"@] is Array && m["messages"@]->Array_0.len()
        > 0 {
        let items = m["messages"@]->Array_0;
        m.insert(
            "messages"@,
            JsonView::Array(items.drop_last().push(cached_message(items.last()))),
        )
    } else {
        m
    }
}

/// A request body with breakpoints on the system prompt, on the last tool and
/// on the last message.
pub open spec fn cached_body(j: JsonView) -> JsonView {
    match j {
        JsonView::Object(m) => JsonView::Object(
            with_cached_message(with_cached_tools(with_cached(m, "system"@))),
        ),
        _ => j,
    }
}

fn cache_control_json() -> (r: Json)
    ensures
        r@ == cache_control(),
{
    Json::Object(JsonMap::new().with("type", Json::text("ephemeral")))
}

fn copy_items(items: &Vec<Json>) -> (r: Vec<Json>)
    ensures
        items_view(r@) == items_view(items@),
        r@.len() == items@.len(),
{
    let mut out: Vec<Json> = Vec::new();
    let mut i: usize = 0;
    while i < items.len()
        invariant
            i <= items@.len(),
            out@.len() == i,
            forall|k: int| 0 <= k < i ==> json_view(#[trigger] out@[k]) == json_view(items@[k]),
        decreases items@.len() - i,
    {
        out.push(items[i].copy());
        i = i + 1;
    }
    assert(items_view(out@) =~= items_view(items@));
    out
}

fn set_cache_control_on_last(items: &Vec<Json>) -> (r: Vec<Json>)
    ensures
        items_view(r@) == marked_last(items_view(items@)),
{
    broadcast use lemma_items_push;

    let mut out = copy_items(items);
    let ghost all = out@;
    match out.pop() {
        Some(last) => {
            assert(items_view(out@) =~= items_view(all).drop_last());
            assert(items_view(all).last() == last@);
            match last {
                Json::Object(m) => {
                    let mut m = m;
                    m.insert("cache_control", cache_control_json());
                    out.push(Json::Object(m));
                },
                other => {
                    out.push(other);
                },
            }
        },
        None => {},
    }
    out
}

fn cached_content_json(j: &Json) -> (r: Json)
    ensures
        r@ == cached_content(j@),
{
    match j {
        Json::Str(text) => {
            let block = Json::Object(
                JsonMap::new().with("type", Json::text("text")).with(
                    "text",
                    Json::text(text.as_str()),
                ).with("cache_control", cache_control_json()),
            );
            let items: Vec<Json> = vec![block];
            assert(items_view(items@) =~= seq![cached_text(text@)]);
            Json::Array(items)
        },
        Json::Array(items) => Json::Array(set_cache_control_on_last(items)),
        other => other.copy(),
    }
}

fn cache_member(m: &mut JsonMap, key: &str)
    ensures
        final(m)@ == with_cached(old(m)@, key@),
{
    let value = match m.get(key) {
        Some(v) => Some(cached_content_json(v)),
        None => None,
    };
    match value {
        Some(v) => m.insert(key, v),
        None => {},
    }
}

fn is_text(j: Option<&Json>, text: &str) -> (r: bool)
    ensures
        r == (j is Some && j->0@ == JsonView::Str(text@)),
{
    match j {
        Some(Json::Str(s)) => text_eq(s.as_str(), text),
        _ => false,
    }
}

fn cached_message_json(j: Json) -> (r: Json)
    ensures
        r@ == cached_message(j@),
{
    match j {
        Json::Object(m) => {
            let mut m = m;
            if is_text(m.get("role"), "user") || is_text(m.get("role"), "tool") {
                cache_member(&mut m, "content");
            }
            Json::Object(m)
        },
        other => other,
    }
}

fn cache_tools(m: &mut JsonMap)
    ensures
        final(m)@ == with_cached_tools(old(m)@),
{
    let tools = match m.get("tools") {
        Some(Json::Array(items)) => Some(set_cache_control_on_last(items)),
        _ => None,
    };
    match tools {
        Some(items) => m.insert("tools", Json::Array(items)),
        None => {},
    }
}

fn cache_last_message(m: &mut JsonMap)
    ensures
        final(m)@ == with_cached_message(old(m)@),
{
    broadcast use lemma_items_push;

    let copied = match m.get("messages") {
        Some(Json::Array(items)) => Some(copy_items(items)),
        _ => None,
    };
    match copied {
        Some(items) => {
            let mut out = items;
            let ghost all = out@;
            assert(items_view(all) == old(m)@["messages"@]->Array_0);
            assert(items_view(all).len() == all.len());
            match out.pop() {
                Some(last) => {
                    assert(items_view(out@) =~= items_view(all).drop_last());
                    assert(items_view(all).last() == last@);
                    out.push(cached_message_json(last));
                    assert(items_view(out@) == items_view(all).drop_last().push(
                        cached_message(items_view(all).last()),
                    ));
                    m.insert("messages", Json::Array(out));
                    assert(m@ == with_cached_message(old(m)@));
                },
                None => {
                    assert(m@ == with_cached_message(old(m)@));
                },
            }
        },
        None => {
            assert(m@ == with_cached_message(old(m)@));
        },
    }
}

/// Marks the breakpoints in a request body, so that the provider caches the
/// stable prefix: the tool definitions, the system prompt and the last
/// message.
pub fn apply_prompt_caching(body: &mut Json)
    ensures
        final(body)@ == cached_body(old(body)@),
{
    let mut taken = Json::Null;
    std::mem::swap(body, &mut taken);
    match taken {
        Json::Object(m) => {
            let mut m = m;
            cache_member(&mut m, "system");
            cache_tools(&mut m);
            cache_last_message(&mut m);
            *body = Json::Object(m);
        },
        other => {
            *body = other;
        },
    }
}

/// Every message but the last stays as it is, and so does the last one unless
/// it is from the user or a tool.
pub proof fn law_only_the_last_message_is_marked(m: Map<Seq<char>, JsonView>, i: int)
    requires
        m.dom().contains("messages"@),
        m["messages"@] is Array,
        0 <= i < m["messages"@]->Array_0.len(),
    ensures
        ({
            let before = m["messages"@]->Array_0;
            let after = cached_body(JsonView::Object(m))->Object_0["messages"@]->Array_0;
            &&& after.len() == before.len()
            &&& i < before.len() - 1 ==> after[i] == before[i]
            &&& before[i] is Object && !cacheable(before[i]->Object_0) ==> after[i] == before[i]
        }),
{
    reveal_strlit("messages");
    reveal_strlit("system");
    reveal_strlit("tools");
    assert("messages"@.len() != "system"@.len());
    assert("messages"@.len() != "tools"@.len());
}

/// Marking a body that is marked already changes nothing.
pub proof fn law_caching_is_idempotent(j: JsonView)
    ensures
        cached_body(cached_body(j)) == cached_body(j),
{
    reveal_strlit("messages");
    reveal_strlit("system");
    reveal_strlit("tools");
    reveal_strlit("role");
    reveal_strlit("content");
    reveal_strlit("type");
    reveal_strlit("text");
    reveal_strlit("cache_control");
    assert("messages"@.len() == 8 && "system"@.len() == 6 && "tools"@.len() == 5);
    assert("role"@.len() == 4 && "content"@.len() == 7 && "cache_control"@.len() == 13);
    match j {
        JsonView::Object(m) => {
            let a = with_cached(m, "system"@);
            let b = with_cached_tools(a);
            let c = with_cached_message(b);
            lemma_cached_content_twice(m["system"@]);
            assert(with_cached(c, "system"@) =~= c);
            lemma_marked_last_twice(a["tools"@]->Array_0);
            assert(with_cached_tools(c) =~= c);
            let last = b["messages"@]->Array_0.last();
            lemma_cached_message_twice(last);
            let items = b["messages"@]->Array_0;
            if b.dom().contains("messages"@) && b["messages"@] is Array && items.len() > 0 {
                let after = c["messages"@]->Array_0;
                assert(after.drop_last() =~= items.drop_last());
                assert(after.drop_last().push(cached_message(after.last())) =~= after);
            }
            assert(with_cached_message(c) =~= c);
        },
        _ => {},
    }
}

proof fn lemma_marked_twice(j: JsonView)
    ensures
        marked(marked(j)) == marked(j),
{
    if j is Object {
        let m = j->Object_0;
        let once = m.insert("cache_control"@, cache_control());
        assert(once.insert("cache_control"@, cache_control()) =~= once);
    }
}

proof fn lemma_marked_last_twice(items: Seq<JsonView>)
    ensures
        marked_last(marked_last(items)) == marked_last(items),
{
    if items.len() > 0 {
        lemma_marked_twice(items.last());
        assert(marked_last(items).drop_last() =~= items.drop_last());
        assert(marked_last(marked_last(items)) =~= marked_last(items));
    }
}

proof fn lemma_cached_content_twice(j: JsonView)
    ensures
        cached_content(cached_content(j)) == cached_content(j),
{
    match j {
        JsonView::Str(text) => {
            let t = cached_text(text);
            let m = t->Object_0;
            assert(m.insert("cache_control"@, cache_control()) =~= m);
            assert(marked_last(seq![t]) =~= seq![t]);
        },
        JsonView::Array(items) => {
            lemma_marked_last_twice(items);
        },
        _ => {},
    }
}

proof fn lemma_cached_message_twice(j: JsonView)
    ensures
        cached_message(cached_message(j)) == cached_message(j),
{
    reveal_strlit("role");
    reveal_strlit("content");
    assert("role"@.len() != "content"@.len());
    match j {
        JsonView::Object(m) => {
            if cacheable(m) {
                lemma_cached_content_twice(m["content"@]);
                let once = with_cached(m, "content"@);
                assert(with_cached(once, "content"@) =~= once);
            }
        },
        _ => {},
    }
}

proof fn lemma_marked_keys()
    ensures
        "system"@ != "tools"@,
        "system"@ != "messages"@,
        "tools"@ != "messages"@,
        "type"@ != "text"@,
        "type"@ != "cache_control"@,
        "text"@ != "cache_control"@,
        "role"@ != "content"@,
        "user"@ != "tool"@,
{
    reveal_strlit("system");
    reveal_strlit("tools");
    reveal_strlit("messages");
    reveal_strlit("type");
    reveal_strlit("text");
    reveal_strlit("cache_control");
    reveal_strlit("role");
    reveal_strlit("content");
    reveal_strlit("user");
    reveal_strlit("tool");
    assert("system"@.len() == 6 && "tools"@.len() == 5 && "messages"@.len() == 8);
    assert("type"@[1] == 'y' && "text"@[1] == 'e' && "cache_control"@.len() == 13);
    assert("type"@.len() == 4 && "text"@.len() == 4);
    assert("role"@.len() == 4 && "content"@.len() == 7);
    assert("user"@[0] == 'u' && "tool"@[0] == 't');
}

/// Whether a value is another with a cache mark on it: the same members, and
/// the mark.
pub open spec fn is_marked(after: JsonView, before: JsonView) -> bool {
    match before {
        JsonView::Object(m) => after == JsonView::Object(
            m.insert("cache_control"@, object1("type"@, JsonView::Str("ephemeral"@))),
        ),
        _ => after == before,
    }
}

/// Whether a list is another with a cache mark on its last item and nothing
/// else changed.
pub open spec fn last_is_marked(after: Seq<JsonView>, before: Seq<JsonView>) -> bool {
    &&& after.len() == before.len()
    &&& forall|i: int| 0 <= i < before.len() - 1 ==> #[trigger] after[i] == before[i]
    &&& before.len() > 0 ==> is_marked(after.last(), before.last())
}

/// Whether content is other content with a cache mark at its end: a text
/// becomes one marked text block, a list is marked on its last item.
pub open spec fn end_is_marked(after: JsonView, before: JsonView) -> bool {
    match before {
        JsonView::Str(text) => {
            &&& after is Array
            &&& after->Array_0.len() == 1
            &&& member(after->Array_0[0], "type"@) == Some(JsonView::Str("text"@))
            &&& member(after->Array_0[0], "text"@) == Some(JsonView::Str(text))
            &&& member(after->Array_0[0], "cache_control"@) == Some(
                object1("type"@, JsonView::Str("ephemeral"@)),
            )
        },
        JsonView::Array(items) => after is Array && last_is_marked(after->Array_0, items),
        _ => after == before,
    }
}

/// What caching marks: the end of the system prompt, the last tool, and the
/// end of the last message where the user or a tool speaks in it. The body
/// keeps its members, and every other one is as it was.
pub proof fn law_what_caching_marks(m: Map<Seq<char>, JsonView>)
    ensures
        ({
            let after = cached_body(JsonView::Object(m))->Object_0;
            let last = m["messages"@]->Array_0.last();
            let marked_one = after["messages"@]->Array_0.last();
            &&& cached_body(JsonView::Object(m)) is Object
            &&& after.dom() == m.dom()
            &&& forall|k: Seq<char>|
                k != "system"@ && k != "tools"@ && k != "messages"@ ==> #[trigger] after[k] == m[k]
            &&& m.dom().contains("system"@) ==> end_is_marked(after["system"@], m["system"@])
            &&& m.dom().contains("tools"@) && m["tools"@] is Array ==> after["tools"@] is Array
                && last_is_marked(after["tools"@]->Array_0, m["tools"@]->Array_0)
            &&& m.dom().contains("messages"@) && m["messages"@] is Array
                && m["messages"@]->Array_0.len() > 0 && last is Object && (member(
                last,
                "role"@,
            ) == Some(JsonView::Str("user"@)) || member(last, "role"@) == Some(
                JsonView::Str("tool"@),
            )) && member(last, "content"@) is Some ==> {
                &&& marked_one is Object
                &&& marked_one->Object_0.dom() == last->Object_0.dom()
                &&& end_is_marked(marked_one->Object_0["content"@], last->Object_0["content"@])
                &&& forall|k: Seq<char>|
                    k != "content"@ ==> #[trigger] marked_one->Object_0[k] == last->Object_0[k]
            }
        }),
{
    lemma_marked_keys();
    let after = cached_body(JsonView::Object(m))->Object_0;
    assert(after.dom() =~= m.dom());
    if m.dom().contains("messages"@) && m["messages"@] is Array && m["messages"@]->Array_0.len()
        > 0 {
        let last = m["messages"@]->Array_0.last();
        let marked_one = after["messages"@]->Array_0.last();
        assert(marked_one == cached_message(last));
        if last is Object && cacheable(last->Object_0) {
            assert(marked_one->Object_0.dom() =~= last->Object_0.dom());
        }
    }
}

} // verus!
