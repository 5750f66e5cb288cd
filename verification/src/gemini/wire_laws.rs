//! Laws of the contents of a request: nothing that a conversation says is
//! lost, doubled or moved on its way to the endpoint.

use vstd::prelude::*;
use crate::base64_text::base64_text;
use crate::gemini::wire::{
    model_parts, system_instruction, tool_part, user_part, wire_contents, CallMetaView,
};
use crate::json::{member, JsonView};
use crate::message::{
    content_text, law_tool_run_is_the_whole_run, lemma_tool_run, system_prompt, tool_run, BlockView,
    MessageView, Role, ToolCallView,
};

verus! {

proof fn lemma_keys()
    ensures
        "mimeType"@ != "data"@,
        "functionCall"@ != "thoughtSignature"@,
        "name"@ != "args"@,
        "name"@ != "id"@,
        "args"@ != "id"@,
        "name"@ != "response"@,
        "role"@ != "parts"@,
{
    reveal_strlit("mimeType");
    reveal_strlit("data");
    reveal_strlit("functionCall");
    reveal_strlit("thoughtSignature");
    reveal_strlit("name");
    reveal_strlit("args");
    reveal_strlit("id");
    reveal_strlit("response");
    reveal_strlit("role");
    reveal_strlit("parts");
    assert("mimeType"@.len() == 8 && "data"@.len() == 4 && "functionCall"@.len() == 12);
    assert("thoughtSignature"@.len() == 16 && "name"@[0] == 'n' && "args"@[0] == 'a');
    assert("name"@.len() == 4 && "args"@.len() == 4 && "id"@.len() == 2);
    assert("response"@.len() == 8 && "role"@.len() == 4 && "parts"@.len() == 5);
}

/// Whether a part carries a block of a message: its text, or its data and
/// their media type.
pub open spec fn part_shows(part: JsonView, b: BlockView) -> bool {
    let inline = member(part, "inlineData"@);
    match b {
        BlockView::Text { text } => member(part, "text"@) == Some(JsonView::Str(text)),
        BlockView::Image { data, media_type } => {
            &&& inline is Some
            &&& member(inline->0, "mimeType"@) == Some(JsonView::Str(media_type))
            &&& member(inline->0, "data"@) == Some(JsonView::Str(base64_text(data)))
        },
        BlockView::File { data, media_type, .. } => {
            &&& inline is Some
            &&& member(inline->0, "mimeType"@) == Some(JsonView::Str(media_type))
            &&& member(inline->0, "data"@) == Some(JsonView::Str(base64_text(data)))
        },
    }
}

/// A system message is not sent among the contents, but every system message
/// is in the instruction, and there is one exactly where there is a prompt.
pub proof fn law_system_messages_go_apart(
    m: MessageView,
    ms: Seq<MessageView>,
    meta: CallMetaView,
)
    requires
        m.role == Role::System,
    ensures
        wire_contents(seq![m], meta) == Seq::<JsonView>::empty(),
        match system_prompt(ms) {
            Some(text) => {
                let parts = member(system_instruction(ms)->0, "parts"@);
                &&& system_instruction(ms) is Some
                &&& parts is Some && parts->0 is Array && parts->0->Array_0.len() == 1
                &&& part_shows(parts->0->Array_0[0], BlockView::Text { text })
            },
            None => system_instruction(ms) is None,
        },
{
    assert(seq![m].skip(1) =~= Seq::empty());
    assert(wire_contents(seq![m].skip(1), meta) =~= Seq::empty());
}

/// A user message is sent as one content of the user, with one part for each
/// block and in order.
pub proof fn law_user_message_is_sent_whole(m: MessageView, meta: CallMetaView)
    requires
        m.role == Role::User,
    ensures
        ({
            let sent = wire_contents(seq![m], meta);
            let parts = member(sent[0], "parts"@)->0->Array_0;
            &&& sent.len() == 1
            &&& member(sent[0], "role"@) == Some(JsonView::Str("user"@))
            &&& member(sent[0], "parts"@) == Some(JsonView::Array(parts))
            &&& parts.len() == m.content.len()
            &&& forall|i: int|
                0 <= i < parts.len() ==> part_shows(#[trigger] parts[i], m.content[i])
        }),
{
    lemma_keys();
    assert(seq![m].skip(1) =~= Seq::empty());
    assert(wire_contents(seq![m].skip(1), meta) =~= Seq::empty());
    let parts = m.content.map_values(|b: BlockView| user_part(b));
    let sent = wire_contents(seq![m], meta);
    assert(member(sent[0], "parts"@)->0->Array_0 =~= parts);
}

/// Whether a part is the call of a tool, under the signature that is kept for
/// its id.
pub open spec fn call_shows(part: JsonView, c: ToolCallView, meta: CallMetaView) -> bool {
    let call = member(part, "functionCall"@);
    &&& call is Some
    &&& member(call->0, "id"@) == Some(JsonView::Str(c.id))
    &&& member(call->0, "name"@) == Some(JsonView::Str(c.name))
    &&& member(call->0, "args"@) == Some(c.arguments)
    &&& member(part, "thoughtSignature"@) == if meta.thought_signatures.dom().contains(c.id) {
        Some(JsonView::Str(meta.thought_signatures[c.id]))
    } else {
        None
    }
}

/// An assistant message is sent as one content of the model: its text where
/// there is any, then every call in order, each with its signature; where
/// there is neither, an empty text.
pub proof fn law_model_message_is_sent_whole(m: MessageView, meta: CallMetaView)
    requires
        m.role == Role::Assistant,
    ensures
        ({
            let sent = wire_contents(seq![m], meta);
            let parts = member(sent[0], "parts"@)->0->Array_0;
            let text = content_text(m.content);
            let k = if text.len() > 0 {
                1int
            } else {
                0int
            };
            &&& sent.len() == 1
            &&& member(sent[0], "role"@) == Some(JsonView::Str("model"@))
            &&& member(sent[0], "parts"@) == Some(JsonView::Array(parts))
            &&& text.len() > 0 ==> part_shows(parts[0], BlockView::Text { text })
            &&& forall|i: int|
                #![trigger m.tool_calls[i]]
                0 <= i < m.tool_calls.len() ==> call_shows(parts[k + i], m.tool_calls[i], meta)
            &&& k + m.tool_calls.len() > 0 ==> parts.len() == k + m.tool_calls.len()
            &&& k + m.tool_calls.len() == 0 ==> parts.len() == 1 && part_shows(
                parts[0],
                BlockView::Text { text: Seq::empty() },
            )
        }),
{
    lemma_keys();
    assert(seq![m].skip(1) =~= Seq::empty());
    assert(wire_contents(seq![m].skip(1), meta) =~= Seq::empty());
    let sent = wire_contents(seq![m], meta);
    assert(member(sent[0], "parts"@)->0->Array_0 == model_parts(m, meta));
}

/// Whether a part is the result of a tool call: the text of the message,
/// under the name that is kept for the id of the call, or under none.
pub open spec fn result_shows(part: JsonView, m: MessageView, meta: CallMetaView) -> bool {
    let r = member(part, "functionResponse"@);
    let id = if m.tool_call_id is Some {
        m.tool_call_id->0
    } else {
        Seq::empty()
    };
    &&& r is Some
    &&& member(r->0, "name"@) == Some(
        JsonView::Str(
            if meta.tool_names.dom().contains(id) {
                meta.tool_names[id]
            } else {
                Seq::empty()
            },
        ),
    )
    &&& member(r->0, "response"@) is Some
    &&& member(member(r->0, "response"@)->0, "result"@) == Some(
        JsonView::Str(content_text(m.content)),
    )
}

/// A run of tool messages is sent as one content of the user, with one result
/// for each of them, in order.
pub proof fn law_tool_results_go_together(run: Seq<MessageView>, meta: CallMetaView)
    requires
        run.len() > 0,
        forall|i: int| 0 <= i < run.len() ==> (#[trigger] run[i]).role == Role::Tool,
    ensures
        ({
            let sent = wire_contents(run, meta);
            let parts = member(sent[0], "parts"@)->0->Array_0;
            &&& sent.len() == 1
            &&& member(sent[0], "role"@) == Some(JsonView::Str("user"@))
            &&& member(sent[0], "parts"@) == Some(JsonView::Array(parts))
            &&& parts.len() == run.len()
            &&& forall|i: int|
                0 <= i < run.len() ==> result_shows(#[trigger] parts[i], run[i], meta)
        }),
{
    let n = run.len() as int;
    lemma_tool_run(run, n);
    assert(run.take(n) =~= run);
    assert(run.skip(n) =~= Seq::empty());
    assert(wire_contents(run.skip(n), meta) =~= Seq::empty());
    lemma_keys();
    let sent = wire_contents(run, meta);
    assert(member(sent[0], "parts"@)->0->Array_0 =~= run.map_values(
        |m: MessageView| tool_part(m, meta),
    ));
}

/// What is sent for a conversation is what is sent for its parts, one after
/// the other, wherever it is cut outside a run of tool messages. With the
/// laws above this fixes all that is sent.
pub proof fn law_conversation_is_sent_in_order(
    a: Seq<MessageView>,
    b: Seq<MessageView>,
    meta: CallMetaView,
)
    requires
        a.len() == 0 || b.len() == 0 || a.last().role != Role::Tool || b[0].role != Role::Tool,
    ensures
        wire_contents(a + b, meta) == wire_contents(a, meta) + wire_contents(b, meta),
    decreases a.len(),
{
    let all = a + b;
    let tail = wire_contents(b, meta);
    if a.len() == 0 {
        assert(all =~= b);
        assert(wire_contents(a, meta) + tail =~= tail);
    } else if a[0].role == Role::Tool {
        law_tool_run_is_the_whole_run(a);
        let n = tool_run(a);
        assert(n > 0);
        assert forall|i: int| 0 <= i < n implies (#[trigger] all[i]).role == Role::Tool by {
            assert(all[i] == a[i]);
        }
        if n < all.len() {
            if n < a.len() {
                assert(all[n] == a[n]);
            } else {
                assert(all[n] == b[0]);
                assert(a[n - 1] == a.last());
            }
        }
        lemma_tool_run(all, n);
        assert(all.take(n) =~= a.take(n));
        assert(all.skip(n) =~= a.skip(n) + b);
        if a.skip(n).len() > 0 {
            assert(a.skip(n).last() == a.last());
        }
        law_conversation_is_sent_in_order(a.skip(n), b, meta);
        assert(wire_contents(all, meta) =~= wire_contents(a, meta) + tail);
    } else {
        assert(all[0] == a[0]);
        assert(all.skip(1) =~= a.skip(1) + b);
        if a.skip(1).len() > 0 {
            assert(a.skip(1).last() == a.last());
        }
        law_conversation_is_sent_in_order(a.skip(1), b, meta);
        assert(wire_contents(all, meta) =~= wire_contents(a, meta) + tail);
    }
}

} // verus!
