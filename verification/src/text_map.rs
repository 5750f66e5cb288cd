//! Maps keyed by text.

use vstd::prelude::*;
use crate::text::text_eq;

verus! {

/// A map from texts to values. A later entry for a key shadows an earlier
/// one.
#[derive(Debug)]
pub struct TextMap<V> {
    pub entries: Vec<(String, V)>,
}

/// The map that a list of entries stands for.
pub open spec fn entry_map<V>(s: Seq<(String, V)>) -> Map<Seq<char>, V>
    decreases s.len(),
{
    if s.len() == 0 {
        Map::empty()
    } else {
        entry_map(s.drop_last()).insert(s.last().0@, s.last().1)
    }
}

impl<V> View for TextMap<V> {
    type V = Map<Seq<char>, V>;

    open spec fn view(&self) -> Map<Seq<char>, V> {
        entry_map(self.entries@)
    }
}

/// A map of texts, each value taken as what it holds.
pub open spec fn text_values(m: Map<Seq<char>, String>) -> Map<Seq<char>, Seq<char>> {
    m.map_values(|s: String| s@)
}

/// What a map of texts holds under a key.
pub open spec fn text_under(m: Map<Seq<char>, Seq<char>>, key: Seq<char>) -> Option<Seq<char>> {
    if m.dom().contains(key) {
        Some(m[key])
    } else {
        None
    }
}

/// Mapping the values of a map commutes with an insertion.
pub proof fn lemma_map_values_insert<V, W>(
    m: Map<Seq<char>, V>,
    k: Seq<char>,
    v: V,
    f: spec_fn(V) -> W,
)
    ensures
        m.insert(k, v).map_values(f) == m.map_values(f).insert(k, f(v)),
{
    assert(m.insert(k, v).map_values(f) =~= m.map_values(f).insert(k, f(v)));
}

impl<V> TextMap<V> {
    /// The empty map.
    pub fn new() -> (r: TextMap<V>)
        ensures
            r@ == Map::<Seq<char>, V>::empty(),
    {
        TextMap { entries: Vec::new() }
    }

    /// Puts `value` under `key`.
    pub fn insert(&mut self, key: &str, value: V)
        ensures
            final(self)@ == old(self)@.insert(key@, value),
    {
        self.entries.push((key.to_owned(), value));
        assert(self.entries@.drop_last() =~= old(self).entries@);
    }

    /// The value under `key`, if there is one.
    pub fn get(&self, key: &str) -> (r: Option<&V>)
        ensures
            match r {
                Some(v) => self@.dom().contains(key@) && *v == self@[key@],
                None => !self@.dom().contains(key@),
            },
    {
        let mut i: usize = self.entries.len();
        assert(self.entries@.take(i as int) =~= self.entries@);
        while i > 0
            invariant
                i <= self.entries@.len(),
                self@.dom().contains(key@) == entry_map(self.entries@.take(i as int)).dom().contains(
                    key@,
                ),
                self@.dom().contains(key@) ==> self@[key@] == entry_map(
                    self.entries@.take(i as int),
                )[key@],
            decreases i,
        {
            i = i - 1;
            let ghost head = self.entries@.take(i + 1);
            assert(head.drop_last() =~= self.entries@.take(i as int));
            assert(head.last() == self.entries@[i as int]);
            if text_eq(self.entries[i].0.as_str(), key) {
                return Some(&self.entries[i].1);
            }
        }
        None
    }
}

/// The last entry for a key counts, and a key without an entry is not in the
/// map.
pub proof fn law_last_entry_counts<V>(s: Seq<(String, V)>, key: Seq<char>)
    ensures
        ({
            let given = s.filter(|e: (String, V)| e.0@ == key);
            &&& entry_map(s).dom().contains(key) <==> given.len() > 0
            &&& given.len() > 0 ==> entry_map(s)[key] == given.last().1
        }),
    decreases s.len(),
{
    reveal(Seq::filter);
    if s.len() > 0 {
        law_last_entry_counts(s.drop_last(), key);
    }
}

} // verus!
