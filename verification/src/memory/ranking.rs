//! Candidates, and the fusion of their rankings.

use vstd::prelude::*;
use crate::memory::laws::{law_candidates_carry_every_tag, law_listing_carries_every_tag};
use crate::memory::record::{
    collect_records, passes, passing, record_passes, record_views, MemoryQuery, MemoryRecord,
    QueryView, RecordView,
};
use crate::order::{bare, by_key, sort_by_key, Keyed};
use crate::text::{blank, is_blank, text_eq};

verus! {

/// How many candidates each ranking contributes to the fusion.
pub const CANDIDATE_LIMIT: usize = 50;

/// A record that was found, with its relevance.
#[derive(Debug)]
pub struct MemoryHit<S> {
    pub record: MemoryRecord,
    pub score: S,
}

/// The model of records that were found.
pub open spec fn hit_views<S>(s: Seq<MemoryHit<S>>) -> Seq<(RecordView, S)> {
    s.map_values(|h: MemoryHit<S>| (h.record@, h.score))
}

/// The text that a query searches for: none where it has no text or a blank
/// one, and then the records are listed.
pub open spec fn searched_text(q: QueryView) -> Option<Seq<char>> {
    match q.text {
        Some(t) => if is_blank(t) {
            None
        } else {
            Some(t)
        },
        None => None,
    }
}

/// The text that a query searches for.
pub fn search_text<'a>(query: &'a MemoryQuery) -> (r: Option<&'a str>)
    ensures
        match r {
            Some(t) => searched_text(query@) == Some(t@),
            None => searched_text(query@) is None,
        },
{
    match &query.text {
        Some(t) => if blank(t.as_str()) {
            None
        } else {
            Some(t.as_str())
        },
        None => None,
    }
}

/// The first `n` of a sequence, or all of it.
pub open spec fn at_most<A>(s: Seq<A>, n: int) -> Seq<A> {
    if s.len() <= n {
        s
    } else {
        s.take(n)
    }
}

/// The records of a listing: those that pass the filters, in the order given,
/// no more than the limit.
pub fn list_records(records: Vec<MemoryRecord>, query: &MemoryQuery) -> (r: Vec<MemoryRecord>)
    ensures
        record_views(r@) == at_most(passing(record_views(records@), query@), query@.limit as int),
        forall|i: int, tag: Seq<char>|
            0 <= i < r@.len() && query@.tags.contains(tag) ==> #[trigger] r@[i]@.tags.contains(tag),
{
    let mut kept = collect_records(records, query);
    let ghost all = kept@;
    if kept.len() > query.limit {
        kept.truncate(query.limit);
    }
    assert(record_views(kept@) =~= at_most(record_views(all), query@.limit as int));
    proof {
        let rs = record_views(records@);
        assert forall|i: int, tag: Seq<char>|
            0 <= i < kept@.len() && query@.tags.contains(
                tag,
            ) implies #[trigger] kept@[i]@.tags.contains(tag) by {
            law_listing_carries_every_tag(rs, query@, i, tag);
            assert(record_views(kept@)[i] == kept@[i]@);
        }
    }
    kept
}

/// Those of keyed records that pass the filters of a query, in order.
pub open spec fn passing_keyed(s: Seq<Keyed<MemoryRecord>>, q: QueryView) -> Seq<
    Keyed<MemoryRecord>,
>
    decreases s.len(),
{
    if s.len() == 0 {
        Seq::empty()
    } else {
        let front = passing_keyed(s.drop_last(), q);
        if passes(s.last().item@, q) {
            front.push(s.last())
        } else {
            front
        }
    }
}

/// The semantic candidates: the records that pass the filters, those with the
/// smallest key first, no more than the limit of candidates. The key of a
/// record is the smaller the more similar it is to the query.
pub fn semantic_candidates(scored: Vec<Keyed<MemoryRecord>>, query: &MemoryQuery) -> (r: Vec<
    MemoryRecord,
>)
    ensures
        r@ == at_most(
            bare(by_key(passing_keyed(scored@, query@))),
            CANDIDATE_LIMIT as int,
        ),
        forall|i: int, tag: Seq<char>|
            0 <= i < r@.len() && query@.tags.contains(tag) ==> #[trigger] r@[i]@.tags.contains(tag),
{
    let n: usize = scored.len();
    let mut rest = scored;
    let mut kept: Vec<Keyed<MemoryRecord>> = Vec::new();
    let mut i: usize = 0;
    while i < n
        invariant
            i <= n,
            n == scored@.len(),
            rest@ == scored@.skip(i as int),
            kept@ == passing_keyed(scored@.take(i as int), query@),
        decreases n - i,
    {
        let ghost next = scored@.take(i + 1);
        assert(next.drop_last() =~= scored@.take(i as int));
        let k = rest.remove(0);
        assert(k == next.last());
        if record_passes(&k.item, query) {
            kept.push(k);
        }
        i = i + 1;
        assert(rest@ =~= scored@.skip(i as int));
    }
    assert(scored@.take(i as int) =~= scored@);
    let mut sorted = sort_by_key(kept);
    let ghost all = sorted@;
    if sorted.len() > CANDIDATE_LIMIT {
        sorted.truncate(CANDIDATE_LIMIT);
    }
    assert(sorted@ =~= at_most(all, CANDIDATE_LIMIT as int));
    proof {
        assert forall|i: int, tag: Seq<char>|
            0 <= i < sorted@.len() && query@.tags.contains(
                tag,
            ) implies #[trigger] sorted@[i]@.tags.contains(tag) by {
            law_candidates_carry_every_tag(scored@, query@, i);
        }
    }
    sorted
}

/// The first record with an id.
pub open spec fn with_id(rs: Seq<RecordView>, id: Seq<char>) -> Option<RecordView>
    decreases rs.len(),
{
    if rs.len() == 0 {
        None
    } else if rs[0].id == id {
        Some(rs[0])
    } else {
        with_id(rs.skip(1), id)
    }
}

/// The hits of a ranking: its first entries, up to the limit, each with the
/// record of its id. An entry without a record is left out.
pub open spec fn ranked_hits<S>(
    rs: Seq<RecordView>,
    fused: Seq<(Seq<char>, S)>,
    limit: int,
) -> Seq<(RecordView, S)>
    decreases fused.len(),
{
    if fused.len() == 0 {
        Seq::empty()
    } else {
        let front = ranked_hits(rs, fused.drop_last(), limit);
        if fused.len() > limit {
            front
        } else {
            match with_id(rs, fused.last().0) {
                Some(r) => front.push((r, fused.last().1)),
                None => front,
            }
        }
    }
}

fn find_by_id<'a>(keyword: &'a Vec<MemoryRecord>, vector: &'a Vec<MemoryRecord>, id: &str) -> (r:
    Option<&'a MemoryRecord>)
    ensures
        match r {
            Some(x) => with_id(record_views(keyword@) + record_views(vector@), id@) == Some(x@),
            None => with_id(record_views(keyword@) + record_views(vector@), id@) is None,
        },
{
    let ghost rs = record_views(keyword@) + record_views(vector@);
    let mut i: usize = 0;
    assert(rs.skip(0) =~= rs);
    while i < keyword.len()
        invariant
            i <= keyword@.len(),
            rs == record_views(keyword@) + record_views(vector@),
            with_id(rs, id@) == with_id(rs.skip(i as int), id@),
        decreases keyword@.len() - i,
    {
        assert(rs.skip(i as int)[0] == keyword@[i as int]@);
        assert(rs.skip(i as int).skip(1) =~= rs.skip(i + 1));
        if text_eq(keyword[i].id.as_str(), id) {
            return Some(&keyword[i]);
        }
        i = i + 1;
    }
    let mut k: usize = 0;
    while k < vector.len()
        invariant
            i == keyword@.len(),
            k <= vector@.len(),
            rs == record_views(keyword@) + record_views(vector@),
            with_id(rs, id@) == with_id(rs.skip(i + k), id@),
        decreases vector@.len() - k,
    {
        assert(rs.skip(i + k)[0] == vector@[k as int]@);
        assert(rs.skip(i + k).skip(1) =~= rs.skip(i + k + 1));
        if text_eq(vector[k].id.as_str(), id) {
            return Some(&vector[k]);
        }
        k = k + 1;
    }
    None
}

/// The texts of the ids of a ranking.
pub open spec fn fused_views<S>(s: Seq<(String, S)>) -> Seq<(Seq<char>, S)> {
    s.map_values(|f: (String, S)| (f.0@, f.1))
}

/// The hits of a fused ranking of keyword and semantic candidates, up to the
/// limit. The keyword candidate stands for a record that is in both.
pub fn fuse_hits<S>(
    keyword: &Vec<MemoryRecord>,
    vector: &Vec<MemoryRecord>,
    fused: Vec<(String, S)>,
    limit: usize,
) -> (r: Vec<MemoryHit<S>>)
    ensures
        hit_views(r@) == ranked_hits(
            record_views(keyword@) + record_views(vector@),
            fused_views(fused@),
            limit as int,
        ),
{
    let ghost rs = record_views(keyword@) + record_views(vector@);
    let ghost fs = fused_views(fused@);
    let n: usize = fused.len();
    let mut rest = fused;
    let mut out: Vec<MemoryHit<S>> = Vec::new();
    let mut i: usize = 0;
    assert(hit_views(out@) =~= ranked_hits(rs, fs.take(0), limit as int));
    while i < n && i < limit
        invariant
            i <= n,
            i <= limit,
            n == fs.len(),
            fs == fused_views(fused@),
            rs == record_views(keyword@) + record_views(vector@),
            rest@ == fused@.skip(i as int),
            hit_views(out@) == ranked_hits(rs, fs.take(i as int), limit as int),
        decreases n - i,
    {
        let ghost next = fs.take(i + 1);
        let ghost before = hit_views(out@);
        assert(next.drop_last() =~= fs.take(i as int));
        let (id, score) = rest.remove(0);
        assert((id, score) == fused@[i as int]);
        assert(next.last() == (id@, score));
        match find_by_id(keyword, vector, id.as_str()) {
            Some(record) => {
                out.push(MemoryHit { record: record.copy(), score });
                assert(hit_views(out@) =~= before.push((out@.last().record@, score)));
            },
            None => {},
        }
        i = i + 1;
        assert(rest@ =~= fused@.skip(i as int));
    }
    proof {
        lemma_beyond_limit(rs, fs, i as int, limit as int);
    }
    out
}

proof fn lemma_beyond_limit<S>(
    rs: Seq<RecordView>,
    fused: Seq<(Seq<char>, S)>,
    n: int,
    limit: int,
)
    requires
        0 <= n <= fused.len(),
        n == fused.len() || n >= limit,
    ensures
        ranked_hits(rs, fused, limit) == ranked_hits(rs, fused.take(n), limit),
    decreases fused.len(),
{
    if n == fused.len() {
        assert(fused.take(n) =~= fused);
    } else {
        assert(fused.drop_last().take(n) =~= fused.take(n));
        lemma_beyond_limit(rs, fused.drop_last(), n, limit);
    }
}

proof fn lemma_with_id(rs: Seq<RecordView>, id: Seq<char>)
    ensures
        with_id(rs, id) is Some ==> rs.contains(with_id(rs, id)->0) && with_id(rs, id)->0.id == id,
    decreases rs.len(),
{
    if rs.len() > 0 {
        if rs[0].id == id {
            assert(rs.contains(rs[0]));
        } else {
            lemma_with_id(rs.skip(1), id);
            if with_id(rs.skip(1), id) is Some {
                let r = with_id(rs.skip(1), id)->0;
                let i = choose|i: int| 0 <= i < rs.skip(1).len() && rs.skip(1)[i] == r;
                assert(rs[i + 1] == r);
            }
        }
    }
}

/// Nothing is found that is not a candidate, and no more than the limit.
pub proof fn law_hits_are_candidates<S>(
    rs: Seq<RecordView>,
    fused: Seq<(Seq<char>, S)>,
    limit: int,
)
    requires
        limit >= 0,
    ensures
        ranked_hits(rs, fused, limit).len() <= limit,
        ranked_hits(rs, fused, limit).len() <= fused.len(),
        forall|i: int|
            0 <= i < ranked_hits(rs, fused, limit).len() ==> rs.contains(
                (#[trigger] ranked_hits(rs, fused, limit)[i]).0,
            ),
    decreases fused.len(),
{
    if fused.len() > 0 {
        law_hits_are_candidates(rs, fused.drop_last(), limit);
        lemma_with_id(rs, fused.last().0);
    }
}

/// Where a ranking names no id twice, no two hits have the same id.
pub proof fn law_hits_have_distinct_ids<S>(
    rs: Seq<RecordView>,
    fused: Seq<(Seq<char>, S)>,
    limit: int,
)
    requires
        forall|i: int, j: int|
            #![trigger fused[i], fused[j]]
            0 <= i < j < fused.len() ==> fused[i].0 != fused[j].0,
    ensures
        forall|i: int, j: int|
            #![trigger ranked_hits(rs, fused, limit)[i], ranked_hits(rs, fused, limit)[j]]
            0 <= i < j < ranked_hits(rs, fused, limit).len() ==> ranked_hits(rs, fused, limit)[i].0.id
                != ranked_hits(rs, fused, limit)[j].0.id,
    decreases fused.len(),
{
    if fused.len() > 0 {
        let front = fused.drop_last();
        let before = ranked_hits(rs, front, limit);
        let hits = ranked_hits(rs, fused, limit);
        assert forall|i: int, j: int|
            #![trigger front[i], front[j]]
            0 <= i < j < front.len() implies front[i].0 != front[j].0 by {
            assert(fused[i] == front[i] && fused[j] == front[j]);
        }
        law_hits_have_distinct_ids(rs, front, limit);
        lemma_with_id(rs, fused.last().0);
        lemma_hits_are_ranked(rs, front, limit);
        assert forall|i: int, j: int|
            #![trigger hits[i], hits[j]]
            0 <= i < j < hits.len() implies hits[i].0.id != hits[j].0.id by {
            if j < before.len() {
                assert(hits[i] == before[i] && hits[j] == before[j]);
            } else {
                assert(hits[i] == before[i]);
                let k = choose|k: int| 0 <= k < front.len() && front[k].0 == before[i].0.id;
                assert(fused[k] == front[k]);
                assert(fused[k].0 != fused[fused.len() - 1].0);
            }
        }
    }
}

/// The id of every hit is one of the ranking.
proof fn lemma_hits_are_ranked<S>(rs: Seq<RecordView>, fused: Seq<(Seq<char>, S)>, limit: int)
    ensures
        forall|i: int|
            0 <= i < ranked_hits(rs, fused, limit).len() ==> exists|k: int|
                0 <= k < fused.len() && fused[k].0 == (#[trigger] ranked_hits(
                    rs,
                    fused,
                    limit,
                )[i]).0.id,
    decreases fused.len(),
{
    if fused.len() > 0 {
        let front = fused.drop_last();
        let before = ranked_hits(rs, front, limit);
        let hits = ranked_hits(rs, fused, limit);
        lemma_hits_are_ranked(rs, front, limit);
        lemma_with_id(rs, fused.last().0);
        assert forall|i: int| 0 <= i < hits.len() implies exists|k: int|
            0 <= k < fused.len() && fused[k].0 == (#[trigger] hits[i]).0.id by {
            if i < before.len() {
                assert(hits[i] == before[i]);
                let k = choose|k: int| 0 <= k < front.len() && front[k].0 == before[i].0.id;
                assert(fused[k] == front[k]);
            } else {
                assert(fused[fused.len() - 1].0 == hits[i].0.id);
            }
        }
    }
}

} // verus!
