//! Stable ordering by an integer key.

use vstd::prelude::*;

verus! {

/// An item with the key that it is ordered by.
#[derive(Debug)]
pub struct Keyed<T> {
    pub key: u64,
    pub item: T,
}

/// The sequence with `x` put behind everything whose key is not larger.
pub open spec fn placed<T>(s: Seq<Keyed<T>>, x: Keyed<T>) -> Seq<
    Keyed<T>,
>
    decreases s.len(),
{
    if s.len() == 0 || s.last().key <= x.key {
        s.push(x)
    } else {
        placed(s.drop_last(), x).push(s.last())
    }
}

/// The items in the order of their keys. Items of one key keep their order.
pub open spec fn by_key<T>(s: Seq<Keyed<T>>) -> Seq<Keyed<T>>
    decreases s.len(),
{
    if s.len() == 0 {
        s
    } else {
        placed(by_key(s.drop_last()), s.last())
    }
}

/// Whether keys never fall.
pub open spec fn ordered<T>(s: Seq<Keyed<T>>) -> bool {
    forall|i: int, j: int| 0 <= i <= j < s.len() ==> (#[trigger] s[i]).key <= (#[trigger] s[j]).key
}

proof fn lemma_placed<T>(s: Seq<Keyed<T>>, x: Keyed<T>)
    ensures
        placed(s, x).len() == s.len() + 1,
        placed(s, x).to_multiset() == s.to_multiset().insert(x),
        ordered(s) ==> ordered(placed(s, x)),
        ordered(s) && s.len() > 0 && x.key <= s.last().key ==> placed(s, x).last().key
            == s.last().key,
        ordered(s) && (s.len() == 0 || s.last().key <= x.key) ==> placed(s, x).last() == x,
    decreases s.len(),
{
    broadcast use vstd::seq_lib::group_to_multiset_ensures;

    if s.len() == 0 || s.last().key <= x.key {
        assert(s.push(x).to_multiset() =~= s.to_multiset().insert(x));
    } else {
        let front = s.drop_last();
        lemma_placed(front, x);
        assert(front.push(s.last()) =~= s);
        assert(placed(s, x).to_multiset() =~= s.to_multiset().insert(x));
        if ordered(s) {
            assert(ordered(front)) by {
                assert forall|i: int, j: int| 0 <= i <= j < front.len() implies (#[trigger] front[i]).key
                    <= (#[trigger] front[j]).key by {
                    assert(front[i] == s[i] && front[j] == s[j]);
                }
            }
            let p = placed(front, x);
            assert(p.last().key <= s.last().key) by {
                if front.len() > 0 {
                    assert(front.last() == s[s.len() - 2]);
                    assert(s[s.len() - 2].key <= s[s.len() - 1].key);
                }
            }
            assert forall|i: int, j: int|
                0 <= i <= j < placed(s, x).len() implies (#[trigger] placed(s, x)[i]).key <= (
            #[trigger] placed(s, x)[j]).key by {
                if j == p.len() {
                    if i < p.len() {
                        assert(p[i].key <= p[p.len() - 1].key);
                    }
                } else {
                    assert(p[i].key <= p[j].key);
                }
            }
        }
    }
}

/// The order loses nothing and adds nothing, and its keys never fall.
pub proof fn law_order_is_a_sorted_permutation<T>(s: Seq<Keyed<T>>)
    ensures
        ordered(by_key(s)),
        by_key(s).to_multiset() == s.to_multiset(),
        by_key(s).len() == s.len(),
    decreases s.len(),
{
    broadcast use vstd::seq_lib::group_to_multiset_ensures;

    if s.len() > 0 {
        let front = s.drop_last();
        law_order_is_a_sorted_permutation(front);
        lemma_placed(by_key(front), s.last());
        assert(front.push(s.last()) =~= s);
        assert(s.to_multiset() =~= front.to_multiset().insert(s.last()));
    }
}

/// Items that come in order stay as they are.
pub proof fn law_order_keeps_what_is_ordered<T>(s: Seq<Keyed<T>>)
    requires
        ordered(s),
    ensures
        by_key(s) == s,
    decreases s.len(),
{
    if s.len() > 0 {
        let front = s.drop_last();
        assert(ordered(front)) by {
            assert forall|i: int, j: int| 0 <= i <= j < front.len() implies (#[trigger] front[i]).key <= (
            #[trigger] front[j]).key by {
                assert(front[i] == s[i] && front[j] == s[j]);
            }
        }
        law_order_keeps_what_is_ordered(front);
        if front.len() > 0 {
            assert(front.last() == s[s.len() - 2]);
            assert(s[s.len() - 2].key <= s[s.len() - 1].key);
        }
        assert(front.push(s.last()) =~= s);
    }
}

/// The bare items.
pub open spec fn bare<T>(s: Seq<Keyed<T>>) -> Seq<T> {
    s.map_values(|d: Keyed<T>| d.item)
}

fn place<T>(sorted: &mut Vec<Keyed<T>>, x: Keyed<T>)
    ensures
        final(sorted)@ == placed(old(sorted)@, x),
{
    let ghost s = sorted@;
    let mut k: usize = sorted.len();
    assert(s.take(k as int) =~= s);
    assert(s.skip(k as int) =~= Seq::empty());
    assert(placed(s, x) + s.skip(k as int) =~= placed(s, x));
    while k > 0 && sorted[k - 1].key > x.key
        invariant
            k <= sorted@.len(),
            sorted@ == s,
            placed(s, x) == placed(s.take(k as int), x) + s.skip(k as int),
        decreases k,
    {
        let ghost head = s.take(k as int);
        assert(head.drop_last() =~= s.take(k - 1));
        assert(head.last() == s[k - 1]);
        assert(placed(s.take(k - 1), x).push(s[k - 1]) + s.skip(k as int) =~= placed(
            s.take(k - 1),
            x,
        ) + s.skip(k - 1));
        k = k - 1;
    }
    let ghost head = s.take(k as int);
    assert(k > 0 ==> head.last() == s[k - 1]);
    sorted.insert(k, x);
    assert(sorted@ =~= head.push(x) + s.skip(k as int));
}

/// The items in the order of their keys.
pub fn sort_by_key<T>(data: Vec<Keyed<T>>) -> (r: Vec<T>)
    ensures
        r@ == bare(by_key(data@)),
{
    let n: usize = data.len();
    let mut rest = data;
    let mut sorted: Vec<Keyed<T>> = Vec::new();
    let mut i: usize = 0;
    while i < n
        invariant
            i <= n,
            n == data@.len(),
            rest@ == data@.skip(i as int),
            sorted@ == by_key(data@.take(i as int)),
        decreases n - i,
    {
        let ghost next = data@.take(i + 1);
        assert(next.drop_last() =~= data@.take(i as int));
        let x = rest.remove(0);
        assert(x == next.last());
        place(&mut sorted, x);
        i = i + 1;
        assert(rest@ =~= data@.skip(i as int));
    }
    assert(data@.take(i as int) =~= data@);
    let ghost all = sorted@;
    proof {
        law_order_is_a_sorted_permutation(data@);
    }
    let mut out: Vec<T> = Vec::new();
    let mut k: usize = 0;
    while k < n
        invariant
            k <= n,
            n == all.len(),
            sorted@ == all.skip(k as int),
            out@ == bare(all).take(k as int),
        decreases n - k,
    {
        let d = sorted.remove(0);
        assert(d == all[k as int]);
        out.push(d.item);
        k = k + 1;
        assert(sorted@ =~= all.skip(k as int));
        assert(out@ =~= bare(all).take(k as int));
    }
    assert(out@ =~= bare(all));
    out
}

/// Items of one key keep the order in which they came.
pub proof fn law_order_is_stable<T>(s: Seq<Keyed<T>>, key: u64)
    ensures
        by_key(s).filter(|x: Keyed<T>| x.key == key) == s.filter(|x: Keyed<T>| x.key == key),
    decreases s.len(),
{
    reveal(Seq::filter);
    if s.len() > 0 {
        law_order_is_stable(s.drop_last(), key);
        law_order_is_a_sorted_permutation(s.drop_last());
        lemma_placed_is_stable(by_key(s.drop_last()), s.last(), key);
    }
}

proof fn lemma_placed_is_stable<T>(s: Seq<Keyed<T>>, x: Keyed<T>, key: u64)
    requires
        ordered(s),
    ensures
        placed(s, x).filter(|y: Keyed<T>| y.key == key) == if x.key == key {
            s.filter(|y: Keyed<T>| y.key == key).push(x)
        } else {
            s.filter(|y: Keyed<T>| y.key == key)
        },
    decreases s.len(),
{
    reveal(Seq::filter);
    if s.len() == 0 || s.last().key <= x.key {
        assert(s.push(x).drop_last() =~= s);
    } else {
        let front = s.drop_last();
        assert forall|i: int, j: int| 0 <= i <= j < front.len() implies (#[trigger] front[i]).key
            <= (#[trigger] front[j]).key by {
            assert(front[i] == s[i] && front[j] == s[j]);
        }
        lemma_placed_is_stable(front, x, key);
        assert(placed(front, x).push(s.last()).drop_last() =~= placed(front, x));
    }
}

} // verus!
