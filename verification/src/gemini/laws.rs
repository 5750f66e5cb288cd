//! Laws of Gemini's tool calls across turns, and of streaming.

use vstd::prelude::*;
use crate::emitted::EmittedView;
use crate::gemini::response::{
    arrived_message, candidates_emit, candidates_step, names, parts_emit, plain_calls, signatures,
    CandidateView, ContentStreamView, SignedCallView,
};
use crate::gemini::wire::{
    call_part, model_parts, result_part, tool_part, with_pairs, CallMetaView,
};
use crate::message::{content_text, MessageView};
use crate::text_map::text_under;

verus! {

proof fn lemma_with_pairs_keeps(
    m: Map<Seq<char>, Seq<char>>,
    pairs: Seq<(Seq<char>, Seq<char>)>,
    i: int,
)
    requires
        0 <= i < pairs.len(),
        forall|a: int, b: int|
            #![trigger pairs[a], pairs[b]]
            0 <= a < b < pairs.len() ==> pairs[a].0 != pairs[b].0,
    ensures
        with_pairs(m, pairs).dom().contains(pairs[i].0),
        with_pairs(m, pairs)[pairs[i].0] == pairs[i].1,
    decreases pairs.len(),
{
    let front = pairs.drop_last();
    if i < front.len() {
        assert(front[i] == pairs[i]);
        assert forall|a: int, b: int|
            #![trigger front[a], front[b]]
            0 <= a < b < front.len() implies front[a].0 != front[b].0 by {
            assert(front[a] == pairs[a] && front[b] == pairs[b]);
        }
        lemma_with_pairs_keeps(m, front, i);
        assert(pairs[i].0 != pairs[pairs.len() - 1].0);
    }
}

proof fn lemma_with_pairs_other(
    m: Map<Seq<char>, Seq<char>>,
    pairs: Seq<(Seq<char>, Seq<char>)>,
    k: Seq<char>,
)
    requires
        forall|a: int| 0 <= a < pairs.len() ==> (#[trigger] pairs[a]).0 != k,
    ensures
        with_pairs(m, pairs).dom().contains(k) == m.dom().contains(k),
        with_pairs(m, pairs)[k] == m[k],
    decreases pairs.len(),
{
    if pairs.len() > 0 {
        let front = pairs.drop_last();
        assert forall|a: int| 0 <= a < front.len() implies (#[trigger] front[a]).0 != k by {
            assert(front[a] == pairs[a]);
        }
        assert(pairs[pairs.len() - 1].0 != k);
        lemma_with_pairs_other(m, front, k);
    }
}

/// Whether no two calls share an id.
pub open spec fn distinct_ids(cs: Seq<SignedCallView>) -> bool {
    forall|a: int, b: int|
        #![trigger cs[a], cs[b]]
        0 <= a < b < cs.len() ==> cs[a].call.id != cs[b].call.id
}

/// Every pair of signatures is that of some call.
proof fn lemma_signature_source(cs: Seq<SignedCallView>, j: int) -> (i: int)
    requires
        0 <= j < signatures(cs).len(),
    ensures
        0 <= i < cs.len(),
        signatures(cs)[j].0 == cs[i].call.id,
        cs[i].signature == Some(signatures(cs)[j].1),
    decreases cs.len(),
{
    let front = signatures(cs.drop_last());
    if j < front.len() {
        let i = lemma_signature_source(cs.drop_last(), j);
        assert(cs.drop_last()[i] == cs[i]);
        i
    } else {
        cs.len() - 1
    }
}

proof fn lemma_signature_there(cs: Seq<SignedCallView>, i: int) -> (j: int)
    requires
        0 <= i < cs.len(),
        cs[i].signature is Some,
    ensures
        0 <= j < signatures(cs).len(),
        signatures(cs)[j] == (cs[i].call.id, cs[i].signature->0),
    decreases cs.len(),
{
    if i == cs.len() - 1 {
        signatures(cs).len() - 1
    } else {
        assert(cs.drop_last()[i] == cs[i]);
        let j = lemma_signature_there(cs.drop_last(), i);
        j
    }
}

proof fn lemma_signatures_distinct(cs: Seq<SignedCallView>)
    requires
        distinct_ids(cs),
    ensures
        forall|a: int, b: int|
            #![trigger signatures(cs)[a], signatures(cs)[b]]
            0 <= a < b < signatures(cs).len() ==> signatures(cs)[a].0 != signatures(cs)[b].0,
    decreases cs.len(),
{
    if cs.len() > 0 {
        let front = cs.drop_last();
        assert(distinct_ids(front)) by {
            assert forall|a: int, b: int|
                #![trigger front[a], front[b]]
                0 <= a < b < front.len() implies front[a].call.id != front[b].call.id by {
                assert(front[a] == cs[a] && front[b] == cs[b]);
            }
        }
        lemma_signatures_distinct(front);
        let sf = signatures(front);
        let s = signatures(cs);
        assert forall|a: int, b: int|
            #![trigger s[a], s[b]]
            0 <= a < b < s.len() implies s[a].0 != s[b].0 by {
            if b < sf.len() {
                assert(s[a] == sf[a] && s[b] == sf[b]);
            } else {
                let i = lemma_signature_source(front, a);
                assert(front[i] == cs[i]);
                assert(s[a] == sf[a]);
                assert(cs[i].call.id != cs[cs.len() - 1].call.id);
            }
        }
    }
}

/// What is remembered after the calls of a reply have been saved.
pub open spec fn after_reply(meta: CallMetaView, cs: Seq<SignedCallView>) -> CallMetaView {
    CallMetaView {
        thought_signatures: with_pairs(meta.thought_signatures, signatures(cs)),
        tool_names: with_pairs(meta.tool_names, names(cs)),
    }
}

/// A function call goes back, in the next request, with the signature that it
/// came with; one that came without gets none, unless an earlier call of the
/// same id had one.
pub proof fn law_signature_is_echoed(s: ContentStreamView, meta: CallMetaView, i: int)
    requires
        0 <= i < s.calls.len(),
        distinct_ids(s.calls),
        s.calls[i].signature is None ==> !meta.thought_signatures.dom().contains(
            s.calls[i].call.id,
        ),
    ensures
        ({
            let parts = model_parts(arrived_message(s), after_reply(meta, s.calls));
            let from = parts.len() - s.calls.len();
            &&& from == (if s.text.len() > 0 {
                1int
            } else {
                0int
            })
            &&& parts[from + i] == call_part(s.calls[i].call, s.calls[i].signature)
        }),
{
    let cs = s.calls;
    let m = arrived_message(s);
    reveal_with_fuel(content_text, 2);
    assert(m.content.drop_last() =~= Seq::empty());
    assert(content_text(m.content) =~= s.text);
    let sigs = signatures(cs);
    let after = with_pairs(meta.thought_signatures, sigs);
    lemma_signatures_distinct(cs);
    if cs[i].signature is Some {
        let j = lemma_signature_there(cs, i);
        lemma_with_pairs_keeps(meta.thought_signatures, sigs, j);
    } else {
        assert forall|a: int| 0 <= a < sigs.len() implies (#[trigger] sigs[a]).0
            != cs[i].call.id by {
            let k = lemma_signature_source(cs, a);
            if k < i {
                assert(cs[k].call.id != cs[i].call.id);
            }
            if i < k {
                assert(cs[i].call.id != cs[k].call.id);
            }
        }
        lemma_with_pairs_other(meta.thought_signatures, sigs, cs[i].call.id);
    }
    assert(text_under(after, cs[i].call.id) == cs[i].signature);
    assert(plain_calls(cs)[i] == cs[i].call);
}

/// The result of a function call goes back under the name of the function.
pub proof fn law_result_carries_the_name(
    cs: Seq<SignedCallView>,
    meta: CallMetaView,
    i: int,
    result: MessageView,
)
    requires
        0 <= i < cs.len(),
        distinct_ids(cs),
        result.tool_call_id == Some(cs[i].call.id),
    ensures
        tool_part(result, after_reply(meta, cs)) == result_part(
            cs[i].call.name,
            content_text(result.content),
        ),
{
    let ns = names(cs);
    assert forall|a: int, b: int|
        #![trigger ns[a], ns[b]]
        0 <= a < b < ns.len() implies ns[a].0 != ns[b].0 by {
        assert(cs[a].call.id != cs[b].call.id);
    }
    lemma_with_pairs_keeps(meta.tool_names, ns, i);
    assert(ns[i] == (cs[i].call.id, cs[i].call.name));
}

/// Cutting a response into chunks does not matter: answers that arrive in two
/// chunks give what they give in one.
pub proof fn law_chunks_do_not_matter(
    s: ContentStreamView,
    a: Seq<CandidateView>,
    b: Seq<CandidateView>,
)
    ensures
        candidates_step(s, a + b) == candidates_step(candidates_step(s, a), b),
        candidates_emit(a + b) == candidates_emit(a) + candidates_emit(b),
    decreases b.len(),
{
    if b.len() == 0 {
        assert(a + b =~= a);
        assert(candidates_emit(a) + Seq::<EmittedView>::empty() =~= candidates_emit(a));
    } else {
        assert((a + b).drop_last() =~= a + b.drop_last());
        law_chunks_do_not_matter(s, a, b.drop_last());
        assert(candidates_emit(a) + candidates_emit(b.drop_last()) + parts_emit(b.last().parts)
            =~= candidates_emit(a) + (candidates_emit(b.drop_last()) + parts_emit(
            b.last().parts,
        )));
    }
}

/// What is recorded for an id is the last that was given for it, else what
/// was there before; nothing else is recorded.
pub proof fn law_last_pair_is_recorded(
    m: Map<Seq<char>, Seq<char>>,
    pairs: Seq<(Seq<char>, Seq<char>)>,
    id: Seq<char>,
)
    ensures
        ({
            let given = pairs.filter(|p: (Seq<char>, Seq<char>)| p.0 == id);
            text_under(with_pairs(m, pairs), id) == if given.len() > 0 {
                Some(given.last().1)
            } else {
                text_under(m, id)
            }
        }),
    decreases pairs.len(),
{
    reveal(Seq::filter);
    if pairs.len() > 0 {
        law_last_pair_is_recorded(m, pairs.drop_last(), id);
    }
}

} // verus!
