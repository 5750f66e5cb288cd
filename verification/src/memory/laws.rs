//! Laws of searching and listing: what is returned is what was asked for, and
//! nothing that was asked for is lost.

use vstd::prelude::*;
use crate::memory::fts::{doubled, match_expr, quoted};
use crate::memory::ranking::{
    at_most, law_hits_are_candidates, passing_keyed, ranked_hits, searched_text, with_id,
    CANDIDATE_LIMIT,
};
use crate::memory::record::{
    passes, passing, record_views, shown, updated_record, MemoryRecord, QueryView, RecordView,
    ScopeView,
};
use crate::memory::statements::{
    law_two_values_for_each_scope, scope_clause, scope_params, SCOPE_CONDITION,
};
use crate::memory::tools::{search_answer, visible, ToolsetView};
use crate::order::{bare, by_key, law_order_is_a_sorted_permutation, Keyed};
use crate::text::{
    is_space, joined, law_joined_lists_join, law_space_separates_words, lemma_flat_map_last, words,
};
use crate::tool::ToolErrorView;

verus! {

/// Whether a record carries every one of the tags.
pub open spec fn carries_all(r: RecordView, tags: Seq<Seq<char>>) -> bool {
    forall|tag: Seq<char>| #[trigger] tags.contains(tag) ==> r.tags.contains(tag)
}

/// Whether a record is in one of the scopes, where there are any.
pub open spec fn in_scope(r: RecordView, scopes: Seq<ScopeView>) -> bool {
    scopes.len() > 0 ==> exists|i: int| 0 <= i < scopes.len() && #[trigger] scopes[i] == r.scope
}

proof fn lemma_passes(r: RecordView, q: QueryView)
    ensures
        passes(r, q) <==> carries_all(r, q.tags) && in_scope(r, q.scopes),
{
    if passes(r, q) {
        assert forall|tag: Seq<char>| #[trigger] q.tags.contains(tag) implies r.tags.contains(
            tag,
        ) by {
            let i = choose|i: int| 0 <= i < q.tags.len() && q.tags[i] == tag;
            assert(r.tags.contains(q.tags[i]));
        }
    }
    if carries_all(r, q.tags) && in_scope(r, q.scopes) {
        assert forall|i: int| 0 <= i < q.tags.len() implies r.tags.contains(
            #[trigger] q.tags[i],
        ) by {
            assert(q.tags.contains(q.tags[i]));
        }
    }
}

/// Every record of a listing carries each tag of the query and is in one of
/// its scopes, and there are no more than the limit.
pub proof fn law_listing_carries_every_tag(rs: Seq<RecordView>, q: QueryView, i: int, tag: Seq<char>)
    requires
        0 <= i < at_most(passing(rs, q), q.limit as int).len(),
    ensures
        ({
            let listed = at_most(passing(rs, q), q.limit as int);
            &&& rs.contains(listed[i])
            &&& q.tags.contains(tag) ==> listed[i].tags.contains(tag)
            &&& q.scopes.len() > 0 ==> q.scopes.contains(listed[i].scope)
            &&& listed.len() <= q.limit
        }),
{
    let f = |r: RecordView| passes(r, q);
    let all = passing(rs, q);
    let listed = at_most(all, q.limit as int);
    assert(listed[i] == all[i]);
    rs.lemma_filter_pred(f, i);
    assert(rs.filter(f).contains(all[i]));
    rs.lemma_filter_contains_rev(f, all[i]);
    lemma_passes(listed[i], q);
    if q.scopes.len() > 0 {
        let k = choose|k: int| 0 <= k < q.scopes.len() && #[trigger] q.scopes[k] == listed[i].scope;
        assert(q.scopes.contains(q.scopes[k]));
    }
}

/// A listing leaves out nothing that it has room for: it is the records that
/// carry every tag and are in scope, in the order given, as far as the limit
/// goes. A listing within the limit holds all of them.
pub proof fn law_listing_leaves_nothing_out(rs: Seq<RecordView>, q: QueryView)
    ensures
        ({
            let wanted = rs.filter(
                |r: RecordView| carries_all(r, q.tags) && in_scope(r, q.scopes),
            );
            let listed = at_most(passing(rs, q), q.limit as int);
            &&& listed.is_prefix_of(wanted)
            &&& listed.len() == q.limit || listed == wanted
        }),
{
    lemma_passing(rs, q);
}

proof fn lemma_passing(rs: Seq<RecordView>, q: QueryView)
    ensures
        passing(rs, q) == rs.filter(
            |r: RecordView| carries_all(r, q.tags) && in_scope(r, q.scopes),
        ),
    decreases rs.len(),
{
    reveal(Seq::filter);
    if rs.len() > 0 {
        lemma_passing(rs.drop_last(), q);
        lemma_passes(rs.last(), q);
    }
}

/// The semantic candidates of a query.
pub open spec fn candidates(scored: Seq<Keyed<MemoryRecord>>, q: QueryView) -> Seq<MemoryRecord> {
    at_most(bare(by_key(passing_keyed(scored, q))), CANDIDATE_LIMIT as int)
}

proof fn lemma_keyed_passes(s: Seq<Keyed<MemoryRecord>>, q: QueryView)
    ensures
        passing_keyed(s, q) == s.filter(
            |x: Keyed<MemoryRecord>| carries_all(x.item@, q.tags) && in_scope(x.item@, q.scopes),
        ),
    decreases s.len(),
{
    reveal(Seq::filter);
    if s.len() > 0 {
        lemma_keyed_passes(s.drop_last(), q);
        lemma_passes(s.last().item@, q);
    }
}

/// Every semantic candidate carries each tag of the query, is in one of its
/// scopes, and is one of the records that were scored.
pub proof fn law_candidates_carry_every_tag(
    scored: Seq<Keyed<MemoryRecord>>,
    q: QueryView,
    i: int,
)
    requires
        0 <= i < candidates(scored, q).len(),
    ensures
        ({
            let c = candidates(scored, q)[i];
            &&& carries_all(c@, q.tags)
            &&& in_scope(c@, q.scopes)
            &&& exists|k: int| 0 <= k < scored.len() && (#[trigger] scored[k]).item == c
        }),
{
    broadcast use vstd::seq_lib::group_to_multiset_ensures;

    let f = |x: Keyed<MemoryRecord>|
        carries_all(x.item@, q.tags) && in_scope(x.item@, q.scopes);
    let kept = passing_keyed(scored, q);
    let sorted = by_key(kept);
    lemma_keyed_passes(scored, q);
    law_order_is_a_sorted_permutation(kept);
    assert(candidates(scored, q)[i] == sorted[i].item);
    assert(sorted.contains(sorted[i]));
    assert(sorted.to_multiset().contains(sorted[i]));
    assert(kept.contains(sorted[i]));
    let j = choose|j: int| 0 <= j < kept.len() && kept[j] == sorted[i];
    scored.lemma_filter_pred(f, j);
    scored.lemma_filter_contains_rev(f, kept[j]);
    let k = choose|k: int| 0 <= k < scored.len() && scored[k] == kept[j];
    assert(scored[k].item == candidates(scored, q)[i]);
}

/// The candidates are the most similar of the records that carry every tag
/// and are in scope: as many as there are, up to the limit, no candidate after
/// a less similar one, and none in place of a more similar record.
pub proof fn law_candidates_are_the_most_similar(scored: Seq<Keyed<MemoryRecord>>, q: QueryView)
    ensures
        ({
            let wanted = scored.filter(
                |x: Keyed<MemoryRecord>|
                    carries_all(x.item@, q.tags) && in_scope(x.item@, q.scopes),
            );
            exists|order: Seq<Keyed<MemoryRecord>>|
                {
                    &&& #[trigger] order.to_multiset() == wanted.to_multiset()
                    &&& forall|i: int, j: int|
                        0 <= i <= j < order.len() ==> (#[trigger] order[i]).key <= (
                        #[trigger] order[j]).key
                    &&& candidates(scored, q).len() == if wanted.len() <= CANDIDATE_LIMIT {
                        wanted.len()
                    } else {
                        CANDIDATE_LIMIT as nat
                    }
                    &&& forall|i: int|
                        0 <= i < candidates(scored, q).len() ==> #[trigger] candidates(
                            scored,
                            q,
                        )[i] == order[i].item
                }
        }),
{
    lemma_keyed_passes(scored, q);
    let kept = passing_keyed(scored, q);
    law_order_is_a_sorted_permutation(kept);
    let order = by_key(kept);
    assert(order.to_multiset() == kept.to_multiset());
}

/// Every hit of a search carries each tag of the query and is in one of its
/// scopes, whatever the ranking says.
pub proof fn law_hits_carry_every_tag<S>(
    matched: Seq<RecordView>,
    scored: Seq<Keyed<MemoryRecord>>,
    q: QueryView,
    fused: Seq<(Seq<char>, S)>,
    limit: int,
    i: int,
    tag: Seq<char>,
)
    requires
        limit >= 0,
        0 <= i < ranked_hits(
            passing(matched, q) + record_views(candidates(scored, q)),
            fused,
            limit,
        ).len(),
        q.tags.contains(tag),
    ensures
        ({
            let hits = ranked_hits(
                passing(matched, q) + record_views(candidates(scored, q)),
                fused,
                limit,
            );
            &&& hits[i].0.tags.contains(tag)
            &&& in_scope(hits[i].0, q.scopes)
        }),
{
    let rs = passing(matched, q) + record_views(candidates(scored, q));
    let hits = ranked_hits(rs, fused, limit);
    law_hits_are_candidates(rs, fused, limit);
    let k = choose|k: int| 0 <= k < rs.len() && rs[k] == hits[i].0;
    let n = passing(matched, q).len() as int;
    if k < n {
        let f = |r: RecordView| passes(r, q);
        matched.lemma_filter_pred(f, k);
        lemma_passes(rs[k], q);
    } else {
        law_candidates_carry_every_tag(scored, q, k - n);
        assert(rs[k] == candidates(scored, q)[k - n]@);
    }
}

/// A record is found under its id, and the first where several have it;
/// nothing is found where none has it.
pub proof fn law_first_record_of_an_id(rs: Seq<RecordView>, id: Seq<char>, k: int)
    requires
        0 <= k <= rs.len(),
        forall|i: int| 0 <= i < k ==> (#[trigger] rs[i]).id != id,
        k < rs.len() ==> rs[k].id == id,
    ensures
        with_id(rs, id) == if k < rs.len() {
            Some(rs[k])
        } else {
            None
        },
    decreases rs.len(),
{
    if k > 0 {
        assert(rs[0].id != id);
        let rest = rs.skip(1);
        assert forall|i: int| 0 <= i < k - 1 implies (#[trigger] rest[i]).id != id by {
            assert(rest[i] == rs[i + 1]);
        }
        law_first_record_of_an_id(rest, id, k - 1);
    }
}

/// The hits are the first entries of the ranking, as many as the limit
/// allows, in their order and with their scores, each with the record of its
/// id; an entry whose id no candidate has is passed over.
pub proof fn law_hits_follow_the_ranking<S>(
    rs: Seq<RecordView>,
    fused: Seq<(Seq<char>, S)>,
    limit: int,
)
    requires
        limit >= 0,
    ensures
        ranked_hits(rs, fused, limit) == (if fused.len() <= limit {
            fused
        } else {
            fused.take(limit)
        }).filter_map(
            |f: (Seq<char>, S)|
                match with_id(rs, f.0) {
                    Some(r) => Some((r, f.1)),
                    None => None,
                },
        ),
    decreases fused.len(),
{
    if fused.len() > 0 {
        law_hits_follow_the_ranking(rs, fused.drop_last(), limit);
        if fused.len() > limit {
            if fused.len() - 1 > limit {
                assert(fused.drop_last().take(limit) =~= fused.take(limit));
            } else {
                assert(fused.drop_last() =~= fused.take(limit));
            }
        }
    }
}

/// A query searches exactly where its text holds something besides white
/// space, and then for the text as it is.
pub proof fn law_blank_queries_list(q: QueryView)
    ensures
        searched_text(q) is Some <==> q.text is Some && exists|i: int|
            0 <= i < q.text->0.len() && !is_space(#[trigger] q.text->0[i]),
        searched_text(q) is Some ==> searched_text(q) == q.text,
{
}

/// An update changes what it gives and the time of the change, and nothing
/// else: the id, the scope, the source and the time of creation stay.
pub proof fn law_update_changes_what_it_gives(
    r: RecordView,
    content: Option<Seq<char>>,
    tags: Option<Seq<Seq<char>>>,
    now: i64,
)
    ensures
        ({
            let u = updated_record(r, content, tags, now);
            &&& u.id == r.id
            &&& u.scope == r.scope
            &&& u.source_session == r.source_session
            &&& u.created_at == r.created_at
            &&& u.updated_at == now
            &&& content is None ==> u.content == r.content
            &&& content is Some ==> u.content == content->0
            &&& tags is None ==> u.tags == r.tags
            &&& tags is Some ==> u.tags == tags->0
        }),
{
}

/// A record is shown on one line that begins with its id and ends in its
/// content, with all its tags between them where it has any.
pub proof fn law_record_is_shown_whole(r: RecordView)
    ensures
        ("- ("@ + r.id + ")"@).is_prefix_of(shown(r)),
        (" "@ + r.content).is_suffix_of(shown(r)),
        r.tags.len() == 0 ==> shown(r) == "- ("@ + r.id + ") "@ + r.content,
        r.tags.len() > 0 ==> shown(r) == "- ("@ + r.id + ") [tags: "@ + joined(r.tags, ", "@)
            + "] "@ + r.content,
{
    reveal_strlit(")");
    reveal_strlit(" ");
    reveal_strlit(") ");
    reveal_strlit(" [tags: ");
    reveal_strlit(") [tags: ");
    reveal_strlit("]");
    reveal_strlit("] ");
    assert(")"@ + " "@ =~= ") "@);
    assert("]"@ + " "@ =~= "] "@);
    assert(")"@ + " [tags: "@ =~= ") [tags: "@);
    if r.tags.len() == 0 {
        assert(shown(r) =~= "- ("@ + r.id + (")"@ + " "@) + r.content);
    } else {
        assert(shown(r) =~= "- ("@ + r.id + (")"@ + " [tags: "@) + joined(r.tags, ", "@) + ("]"@
            + " "@) + r.content);
    }
}

/// A record is seen exactly where it was found and its scope is searchable,
/// and then it is the record that was found; otherwise the answer is that
/// there is none with the id.
pub proof fn law_visible_is_found_and_in_scope(
    t: ToolsetView,
    id: Seq<char>,
    found: Option<RecordView>,
)
    ensures
        match visible(t, id, found) {
            Ok(r) => found == Some(r) && t.searchable_scopes.contains(r.scope),
            Err(e) => e == ToolErrorView::Execution("no memory with id "@ + id),
        },
        found is Some && t.searchable_scopes.contains(found->0.scope) ==> visible(t, id, found)
            == Ok::<RecordView, ToolErrorView>(found->0),
{
}

/// Every hit is shown, on a line of its own and in order: one hit is shown as
/// it is, and the answer to two lists is the two answers, one below the other.
pub proof fn law_every_hit_is_shown(r: RecordView, a: Seq<RecordView>, b: Seq<RecordView>)
    ensures
        search_answer(Seq::empty()) == "No matching memories."@,
        search_answer(seq![r]) == shown(r),
        a.len() > 0 && b.len() > 0 ==> search_answer(a + b) == search_answer(a) + "\n"@
            + search_answer(b),
{
    let f = |x: RecordView| shown(x);
    law_joined_lists_join(seq![r].map_values(f), Seq::empty(), "\n"@);
    law_joined_lists_join(a.map_values(f), b.map_values(f), "\n"@);
    assert((a + b).map_values(f) =~= a.map_values(f) + b.map_values(f));
}

/// A clause names one condition for each scope, as alternatives, and there is
/// none without scopes.
pub proof fn law_one_condition_for_each_scope(n: nat)
    ensures
        scope_clause(0) == Seq::<char>::empty(),
        scope_clause(1) == " AND ("@ + SCOPE_CONDITION@ + ")"@,
        n > 0 ==> scope_clause(n + 1) == scope_clause(n).drop_last() + " OR "@ + SCOPE_CONDITION@
            + ")"@,
{
    reveal_strlit(")");
    let one = Seq::new(1nat, |i: int| SCOPE_CONDITION@);
    let all = Seq::new(n, |i: int| SCOPE_CONDITION@);
    let more = Seq::new((n + 1) as nat, |i: int| SCOPE_CONDITION@);
    assert(more =~= all + one);
    law_joined_lists_join(one, Seq::empty(), " OR "@);
    law_joined_lists_join(all, one, " OR "@);
    if n > 0 {
        assert(scope_clause(n).drop_last() =~= " AND ("@ + joined(all, " OR "@));
        assert(scope_clause(n + 1) =~= " AND ("@ + joined(all, " OR "@) + " OR "@
            + SCOPE_CONDITION@ + ")"@);
    }
}

/// The values of a clause are the kind and the key of each scope, in order.
pub proof fn law_values_are_kind_and_key(scopes: Seq<ScopeView>, i: int)
    requires
        0 <= i < scopes.len(),
    ensures
        scope_params(scopes).len() == 2 * scopes.len(),
        match scopes[i] {
            ScopeView::User(key) => scope_params(scopes)[2 * i] == "user"@ && scope_params(
                scopes,
            )[2 * i + 1] == key,
            ScopeView::Project(key) => scope_params(scopes)[2 * i] == "project"@ && scope_params(
                scopes,
            )[2 * i + 1] == key,
        },
    decreases scopes.len(),
{
    law_two_values_for_each_scope(scopes);
    law_two_values_for_each_scope(scopes.drop_last());
    if i < scopes.len() - 1 {
        law_values_are_kind_and_key(scopes.drop_last(), i);
        assert(scopes.drop_last()[i] == scopes[i]);
    }
}

/// A search matches every word of its text: one word is matched as a quoted
/// phrase, and around white space the words of both sides are matched.
pub proof fn law_every_word_is_matched(a: Seq<char>, c: char, b: Seq<char>)
    requires
        is_space(c),
    ensures
        a.len() > 0 && (forall|i: int| 0 <= i < a.len() ==> !is_space(#[trigger] a[i]))
            ==> match_expr(a) == quoted(a),
        words(a).len() > 0 && words(b).len() > 0 ==> match_expr(a.push(c) + b) == match_expr(a)
            + " "@ + match_expr(b),
        words(a).len() == 0 ==> match_expr(a.push(c) + b) == match_expr(b),
        words(b).len() == 0 ==> match_expr(a.push(c) + b) == match_expr(a),
{
    let f = |w: Seq<char>| quoted(w);
    law_space_separates_words(a, c, b);
    law_joined_lists_join(words(a).map_values(f), words(b).map_values(f), " "@);
    assert((words(a) + words(b)).map_values(f) =~= words(a).map_values(f) + words(b).map_values(f));
    if words(a).len() == 0 {
        assert(words(a) + words(b) =~= words(b));
    }
    if words(b).len() == 0 {
        assert(words(a) + words(b) =~= words(a));
    }
    if a.len() > 0 && (forall|i: int| 0 <= i < a.len() ==> !is_space(#[trigger] a[i])) {
        assert(words(a) == seq![a]);
        assert(words(a).map_values(f)[0] == quoted(a));
    }
}

/// A word without quotes is quoted as it is; each quote in a word is doubled.
pub proof fn law_quotes_are_doubled(w: Seq<char>)
    ensures
        !w.contains('"') ==> quoted(w) == seq!['"'] + w + seq!['"'],
        doubled(w) == w.flat_map(
            |c: char|
                if c == '"' {
                    seq!['"', '"']
                } else {
                    seq![c]
                },
        ),
    decreases w.len(),
{
    let f = |c: char|
        if c == '"' {
            seq!['"', '"']
        } else {
            seq![c]
        };
    if w.len() > 0 {
        law_quotes_are_doubled(w.drop_last());
        lemma_flat_map_last(w, f);
        assert(doubled(w) =~= doubled(w.drop_last()) + f(w.last()));
    }
    if !w.contains('"') {
        lemma_plain_word(w);
    }
}

proof fn lemma_plain_word(w: Seq<char>)
    requires
        !w.contains('"'),
    ensures
        doubled(w) == w,
    decreases w.len(),
{
    if w.len() > 0 {
        let front = w.drop_last();
        assert(w.contains(w.last())) by {
            assert(w[w.len() - 1] == w.last());
        }
        assert(!front.contains('"')) by {
            if front.contains('"') {
                let i = choose|i: int| 0 <= i < front.len() && front[i] == '"';
                assert(w[i] == '"');
            }
        }
        lemma_plain_word(front);
        assert(front.push(w.last()) =~= w);
    }
}

} // verus!
