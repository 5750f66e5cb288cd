//! The order of embeddings.

use vstd::prelude::*;
use crate::error::{ProviderError, ProviderErrorView};
use crate::order::{
    bare, by_key, law_order_is_a_sorted_permutation, ordered, sort_by_key, Keyed,
};

verus! {

/// An embedding with the position of the text that it is of.
#[derive(Debug)]
pub struct EmbeddingObject<T> {
    pub embedding: T,
    pub index: usize,
}

/// The embeddings, keyed by their positions.
pub open spec fn keyed<T>(data: Seq<EmbeddingObject<T>>) -> Seq<Keyed<T>> {
    data.map_values(|d: EmbeddingObject<T>| Keyed { key: d.index as u64, item: d.embedding })
}

/// The embeddings of `expected` texts, in the order of the texts. An answer of
/// another number of embeddings is refused.
pub fn in_order<T>(data: Vec<EmbeddingObject<T>>, expected: usize) -> (r: Result<
    Vec<T>,
    ProviderError,
>)
    ensures
        match r {
            Ok(v) => data@.len() == expected && v@ == bare(by_key(keyed(data@))),
            Err(e) => data@.len() != expected && e@ == ProviderErrorView::EmptyResponse,
        },
{
    if data.len() != expected {
        return Err(ProviderError::EmptyResponse);
    }
    let n: usize = data.len();
    let mut rest = data;
    let mut all: Vec<Keyed<T>> = Vec::new();
    let mut i: usize = 0;
    while i < n
        invariant
            i <= n,
            n == data@.len(),
            rest@ == data@.skip(i as int),
            all@ == keyed(data@).take(i as int),
        decreases n - i,
    {
        let d = rest.remove(0);
        assert(d == data@[i as int]);
        all.push(Keyed { key: d.index as u64, item: d.embedding });
        i = i + 1;
        assert(rest@ =~= data@.skip(i as int));
        assert(all@ =~= keyed(data@).take(i as int));
    }
    assert(all@ =~= keyed(data@));
    Ok(sort_by_key(all))
}

/// Keys that are all different, below the length and in order are the
/// positions.
proof fn lemma_keys_are_positions<T>(t: Seq<Keyed<T>>, i: int)
    requires
        ordered(t),
        0 <= i < t.len(),
        forall|a: int, b: int|
            0 <= a < b < t.len() ==> (#[trigger] t[a]).key != (#[trigger] t[b]).key,
        forall|a: int| 0 <= a < t.len() ==> (#[trigger] t[a]).key < t.len(),
    ensures
        t[i].key == i,
{
    lemma_key_from_below(t, i);
    lemma_key_from_above(t, i);
}

proof fn lemma_key_from_below<T>(t: Seq<Keyed<T>>, i: int)
    requires
        ordered(t),
        0 <= i < t.len(),
        forall|a: int, b: int|
            0 <= a < b < t.len() ==> (#[trigger] t[a]).key != (#[trigger] t[b]).key,
    ensures
        t[i].key >= i,
    decreases i,
{
    if i > 0 {
        lemma_key_from_below(t, i - 1);
        assert(t[i - 1].key <= t[i].key && t[i - 1].key != t[i].key);
    }
}

proof fn lemma_key_from_above<T>(t: Seq<Keyed<T>>, i: int)
    requires
        ordered(t),
        0 <= i < t.len(),
        forall|a: int, b: int|
            0 <= a < b < t.len() ==> (#[trigger] t[a]).key != (#[trigger] t[b]).key,
        forall|a: int| 0 <= a < t.len() ==> (#[trigger] t[a]).key < t.len(),
    ensures
        t[i].key <= i,
    decreases t.len() - i,
{
    if i < t.len() - 1 {
        lemma_key_from_above(t, i + 1);
        assert(t[i].key <= t[i + 1].key && t[i].key != t[i + 1].key);
    }
}

/// Where the positions are those of the texts, each once, the embedding of a
/// text stands at the position of the text, in whatever order the embeddings
/// came.
pub proof fn law_embeddings_match_their_texts<T>(data: Seq<EmbeddingObject<T>>, j: int)
    requires
        0 <= j < data.len() <= u64::MAX,
        forall|a: int| 0 <= a < data.len() ==> (#[trigger] data[a]).index < data.len(),
        forall|a: int, b: int|
            0 <= a < b < data.len() ==> (#[trigger] data[a]).index != (#[trigger] data[b]).index,
    ensures
        bare(by_key(keyed(data))).len() == data.len(),
        bare(by_key(keyed(data)))[data[j].index as int] == data[j].embedding,
{
    broadcast use vstd::seq_lib::group_to_multiset_ensures;

    let s = keyed(data);
    let t = by_key(s);
    law_order_is_a_sorted_permutation(s);
    assert forall|a: int, b: int| 0 <= a < b < s.len() implies s[a] != s[b] by {
        assert(s[a].key == data[a].index && s[b].key == data[b].index);
    }
    s.lemma_multiset_has_no_duplicates();
    t.lemma_multiset_has_no_duplicates_conv();
    assert forall|a: int| 0 <= a < t.len() implies (exists|k: int|
        0 <= k < s.len() && s[k] == #[trigger] t[a]) by {
        assert(t.contains(t[a]));
        assert(t.to_multiset().count(t[a]) > 0);
        assert(s.to_multiset().count(t[a]) > 0);
        assert(s.contains(t[a]));
    }
    assert forall|a: int| 0 <= a < t.len() implies (#[trigger] t[a]).key < t.len() by {
        let k = choose|k: int| 0 <= k < s.len() && s[k] == t[a];
        assert(data[k].index < data.len());
    }
    assert forall|a: int, b: int| 0 <= a < b < t.len() implies (#[trigger] t[a]).key != (
    #[trigger] t[b]).key by {
        let k = choose|k: int| 0 <= k < s.len() && s[k] == t[a];
        let l = choose|l: int| 0 <= l < s.len() && s[l] == t[b];
        if t[a].key == t[b].key {
            assert(data[k].index == data[l].index);
            assert(k == l);
            assert(t[a] == t[b]);
        }
    }
    assert(s.contains(s[j]));
    assert(s.to_multiset().count(s[j]) > 0);
    assert(t.to_multiset().count(s[j]) > 0);
    assert(t.contains(s[j]));
    let i = choose|i: int| 0 <= i < t.len() && t[i] == s[j];
    lemma_keys_are_positions(t, i);
}

} // verus!
