//! Server-sent events: cutting a byte stream into events and reading their
//! data lines.

use vstd::prelude::*;
use crate::error::{ProviderError, ProviderErrorView};
use crate::text::{chars_of, find_char, lemma_find_char_is, text_of, texts};

verus! {

/// Whether an event ends just before position `k`: the bytes in front of it
/// are an empty line, ended by `\n\n` or by `\r\n\r\n`.
pub open spec fn boundary(b: Seq<u8>, k: int) -> bool {
    ||| 2 <= k <= b.len() && b[k - 2] == 10 && b[k - 1] == 10
    ||| 4 <= k <= b.len() && b[k - 4] == 13 && b[k - 3] == 10 && b[k - 2] == 13 && b[k - 1] == 10
}

/// Whether `k` is the first boundary.
pub open spec fn first_boundary(b: Seq<u8>, k: int) -> bool {
    boundary(b, k) && forall|j: int| j < k ==> !#[trigger] boundary(b, j)
}

/// Whether there is no boundary.
pub open spec fn no_boundary(b: Seq<u8>) -> bool {
    forall|j: int| !#[trigger] boundary(b, j)
}

/// The end (exclusive) of the first event in `buffer`, or `None` while no
/// event is complete.
pub fn find_event_end(buffer: &[u8]) -> (r: Option<usize>)
    ensures
        match r {
            Some(k) => first_boundary(buffer@, k as int) && k <= buffer@.len(),
            None => no_boundary(buffer@),
        },
{
    let n: usize = buffer.len();
    let mut k: usize = 0;
    while k < n
        invariant
            k <= n,
            n == buffer@.len(),
            forall|j: int| j <= k ==> !#[trigger] boundary(buffer@, j),
        decreases n - k,
    {
        k = k + 1;
        if k >= 2 && buffer[k - 2] == 10 && buffer[k - 1] == 10 {
            return Some(k);
        }
        if k >= 4 && buffer[k - 4] == 13 && buffer[k - 3] == 10 && buffer[k - 2] == 13
            && buffer[k - 1] == 10 {
            return Some(k);
        }
    }
    None
}

/// `String::from_utf8`: the text that the bytes encode, where they are valid
/// UTF-8.
#[verifier::external_body]
fn utf8_text(bytes: Vec<u8>) -> (r: Option<String>)
    ensures
        match r {
            Some(s) => vstd::utf8::valid_utf8(bytes@) && s@ == vstd::utf8::decode_utf8(bytes@),
            None => !vstd::utf8::valid_utf8(bytes@),
        },
{
    String::from_utf8(bytes).ok()
}

/// What is reported of an event that is not valid UTF-8.
pub open spec fn utf8_failure() -> ProviderErrorView {
    ProviderErrorView::Decode("invalid UTF-8 in event stream"@)
}

/// Takes the first complete event out of `buffer`.
pub fn drain_event(buffer: &mut Vec<u8>) -> (r: Option<Result<String, ProviderError>>)
    ensures
        match r {
            None => no_boundary(old(buffer)@) && final(buffer)@ == old(buffer)@,
            Some(event) => {
                let k = old(buffer)@.len() - final(buffer)@.len();
                &&& first_boundary(old(buffer)@, k)
                &&& final(buffer)@ == old(buffer)@.skip(k)
                &&& match event {
                    Ok(s) => vstd::utf8::valid_utf8(old(buffer)@.take(k)) && s@
                        == vstd::utf8::decode_utf8(old(buffer)@.take(k)),
                    Err(e) => !vstd::utf8::valid_utf8(old(buffer)@.take(k)) && e@
                        == utf8_failure(),
                }
            },
        },
{
    match find_event_end(buffer.as_slice()) {
        None => None,
        Some(k) => {
            let rest = buffer.split_off(k);
            let mut event: Vec<u8> = rest;
            std::mem::swap(buffer, &mut event);
            assert(event@ =~= old(buffer)@.take(k as int));
            assert(buffer@ =~= old(buffer)@.skip(k as int));
            match utf8_text(event) {
                Some(s) => Some(Ok(s)),
                None => Some(
                    Err(ProviderError::Decode("invalid UTF-8 in event stream".to_owned())),
                ),
            }
        },
    }
}

/// The complete events at the front of a buffer, and what is left behind them.
pub open spec fn split_events(b: Seq<u8>) -> (Seq<Seq<u8>>, Seq<u8>)
    decreases b.len(),
{
    if exists|k: int| first_boundary(b, k) {
        let k = choose|k: int| first_boundary(b, k);
        if 0 < k <= b.len() {
            let (events, rest) = split_events(b.skip(k));
            (seq![b.take(k)] + events, rest)
        } else {
            (Seq::empty(), b)
        }
    } else {
        (Seq::empty(), b)
    }
}

proof fn lemma_first_boundary_unique(b: Seq<u8>, j: int, k: int)
    requires
        first_boundary(b, j),
        first_boundary(b, k),
    ensures
        j == k,
{
    if j < k {
        assert(!boundary(b, j));
    }
    if k < j {
        assert(!boundary(b, k));
    }
}

proof fn lemma_no_boundary_no_first(b: Seq<u8>)
    requires
        no_boundary(b),
    ensures
        !exists|k: int| first_boundary(b, k),
{
    if exists|k: int| first_boundary(b, k) {
        let k = choose|k: int| first_boundary(b, k);
        assert(boundary(b, k));
    }
}

proof fn lemma_boundary_kept(a: Seq<u8>, b: Seq<u8>, k: int)
    requires
        k <= a.len(),
    ensures
        boundary(a + b, k) == boundary(a, k),
{
}

/// A first boundary stays the first when more bytes arrive: a complete event
/// is never cut differently later.
pub proof fn law_event_end_is_stable(a: Seq<u8>, b: Seq<u8>, k: int)
    requires
        first_boundary(a, k),
    ensures
        first_boundary(a + b, k),
{
    lemma_boundary_kept(a, b, k);
    assert forall|j: int| j < k implies !#[trigger] boundary(a + b, j) by {
        lemma_boundary_kept(a, b, j);
        assert(!boundary(a, j));
    }
}

/// How a stream is cut into chunks does not matter: the events of `a` and
/// then those of what is left of `a` followed by `b` are the events of `a`
/// followed by `b`.
pub proof fn law_events_do_not_depend_on_chunks(a: Seq<u8>, b: Seq<u8>)
    ensures
        split_events(a + b).0 == split_events(a).0 + split_events(split_events(a).1 + b).0,
        split_events(a + b).1 == split_events(split_events(a).1 + b).1,
    decreases a.len(),
{
    if exists|k: int| first_boundary(a, k) {
        let k = choose|k: int| first_boundary(a, k);
        assert(0 < k <= a.len());
        law_event_end_is_stable(a, b, k);
        let j = choose|j: int| first_boundary(a + b, j);
        lemma_first_boundary_unique(a + b, j, k);
        assert((a + b).take(k) =~= a.take(k));
        assert((a + b).skip(k) =~= a.skip(k) + b);
        law_events_do_not_depend_on_chunks(a.skip(k), b);
        let left = split_events(split_events(a).1 + b).0;
        assert(split_events(a + b).0 =~= split_events(a).0 + left);
    } else {
        assert(split_events(a).0 + split_events(a + b).0 =~= split_events(a + b).0);
    }
}

/// Draining a buffer takes its events out in order: each drained event is the
/// first of `split_events`, and the buffer left holds the others.
pub proof fn law_drain_takes_the_first_event(b: Seq<u8>, k: int)
    requires
        first_boundary(b, k),
    ensures
        split_events(b).0.len() > 0,
        split_events(b).0[0] == b.take(k),
        split_events(b.skip(k)).0 == split_events(b).0.skip(1),
        split_events(b.skip(k)).1 == split_events(b).1,
{
    let j = choose|j: int| first_boundary(b, j);
    lemma_first_boundary_unique(b, j, k);
    assert(split_events(b).0.skip(1) =~= split_events(b.skip(k)).0);
}

/// A buffer without a boundary holds no complete event.
pub proof fn law_nothing_drains_without_boundary(b: Seq<u8>)
    requires
        no_boundary(b),
    ensures
        split_events(b).0.len() == 0,
        split_events(b).1 == b,
{
    lemma_no_boundary_no_first(b);
}

/// A line without the carriage return at its end.
pub open spec fn without_cr(line: Seq<char>) -> Seq<char> {
    if line.len() > 0 && line.last() == '\r' {
        line.drop_last()
    } else {
        line
    }
}

/// The lines of a text. A line ends at `\n` or `\r\n`; what stands behind the
/// last end is a line of its own if it is not empty.
pub open spec fn lines(s: Seq<char>) -> Seq<Seq<char>>
    decreases s.len(),
{
    let k = find_char(s, '\n');
    if s.len() == 0 {
        Seq::empty()
    } else if 0 <= k < s.len() {
        seq![without_cr(s.take(k))] + lines(s.skip(k + 1))
    } else {
        seq![s]
    }
}

/// Whether a line carries data.
pub open spec fn is_data(line: Seq<char>) -> bool {
    line.len() >= 5 && line.take(5) == seq!['d', 'a', 't', 'a', ':']
}

/// The data of a line: what follows `data:`, without one leading space.
pub open spec fn data_of(line: Seq<char>) -> Seq<char> {
    if line.len() > 5 && line[5] == ' ' {
        line.skip(6)
    } else {
        line.skip(5)
    }
}

/// The data of the lines that carry any, in order.
pub open spec fn data_of_lines(ls: Seq<Seq<char>>) -> Seq<Seq<char>>
    decreases ls.len(),
{
    if ls.len() == 0 {
        Seq::empty()
    } else if is_data(ls[0]) {
        seq![data_of(ls[0])] + data_of_lines(ls.skip(1))
    } else {
        data_of_lines(ls.skip(1))
    }
}

/// The data lines of an event.
pub fn data_lines(event: &str) -> (r: Vec<String>)
    ensures
        texts(r@) == data_of_lines(lines(event@)),
{
    let chars = chars_of(event);
    let n: usize = chars.len();
    let mut out: Vec<String> = Vec::new();
    let mut i: usize = 0;
    assert(event@.skip(0) =~= event@);
    assert(texts(out@) + data_of_lines(lines(event@.skip(0))) =~= data_of_lines(lines(event@)));
    while i < n
        invariant
            i <= n,
            n == chars@.len(),
            chars@ == event@,
            texts(out@) + data_of_lines(lines(event@.skip(i as int))) == data_of_lines(lines(event@)),
        decreases n - i,
    {
        let ghost s = event@.skip(i as int);
        let ghost before = texts(out@);
        let mut k: usize = i;
        while k < n && chars[k] != '\n'
            invariant
                i <= k <= n,
                n == chars@.len(),
                forall|q: int| i <= q < k ==> chars@[q] != '\n',
            decreases n - k,
        {
            k = k + 1;
        }
        proof {
            lemma_find_char_is(s, '\n', k - i);
        }
        let end: usize = if k < n && k > i && chars[k - 1] == '\r' {
            k - 1
        } else {
            k
        };
        let ghost line = chars@.subrange(i as int, end as int);
        let ghost raw = s.take(k - i);
        assert(raw =~= chars@.subrange(i as int, k as int));
        assert(k > i ==> raw.last() == chars@[k - 1]);
        assert(line =~= if k < n {
            without_cr(raw)
        } else {
            s
        });
        let ghost tail = if k < n {
            event@.skip(k + 1)
        } else {
            Seq::empty()
        };
        assert(k < n ==> s.skip(k - i + 1) =~= tail);
        assert(lines(s) =~= seq![line] + lines(tail));
        assert(lines(s).skip(1) =~= lines(tail));
        if end - i >= 5 && chars[i] == 'd' && chars[i + 1] == 'a' && chars[i + 2] == 't' && chars[i
            + 3] == 'a' && chars[i + 4] == ':' {
            assert(line.take(5) =~= seq!['d', 'a', 't', 'a', ':']);
            let from: usize = if end - i > 5 && chars[i + 5] == ' ' {
                i + 6
            } else {
                i + 5
            };
            let data = text_of(&chars, from, end);
            assert(data@ =~= data_of(line));
            out.push(data);
            assert(texts(out@) =~= before.push(data@));
        } else {
            assert(!is_data(line)) by {
                if is_data(line) {
                    let five = seq!['d', 'a', 't', 'a', ':'];
                    assert(line.take(5)[0] == five[0] && line.take(5)[1] == five[1] && line.take(
                        5,
                    )[2] == five[2] && line.take(5)[3] == five[3] && line.take(5)[4] == five[4]);
                }
            }
        }
        assert(texts(out@) + data_of_lines(lines(tail)) =~= before + data_of_lines(lines(s)));
        i = if k < n {
            k + 1
        } else {
            n
        };
        assert(event@.skip(i as int) =~= tail);
    }
    assert(texts(out@) + data_of_lines(lines(event@.skip(i as int))) =~= texts(out@));
    out
}

/// The last data line of an event, which is the one that counts where only one
/// is wanted.
pub fn last_data_line(event: &str) -> (r: Option<String>)
    ensures
        ({
            let all = data_of_lines(lines(event@));
            match r {
                Some(line) => all.len() > 0 && line@ == all.last(),
                None => all.len() == 0,
            }
        }),
{
    let mut all = data_lines(event);
    assert(texts(all@).len() == all@.len());
    assert(all@.len() > 0 ==> texts(all@).last() == all@.last()@);
    all.pop()
}

/// Nothing of a buffer is lost: its events, one after the other, and what is
/// left are the buffer; every event ends where a blank line ends, and holds
/// none before; in what is left there is no blank line.
pub proof fn law_events_are_the_buffer(b: Seq<u8>)
    ensures
        split_events(b).0.flatten() + split_events(b).1 == b,
        forall|i: int|
            0 <= i < split_events(b).0.len() ==> first_boundary(
                #[trigger] split_events(b).0[i],
                split_events(b).0[i].len() as int,
            ),
        no_boundary(split_events(b).1),
    decreases b.len(),
{
    let (events, rest) = split_events(b);
    if exists|k: int| first_boundary(b, k) {
        let k = choose|k: int| first_boundary(b, k);
        law_events_are_the_buffer(b.skip(k));
        let (more, left) = split_events(b.skip(k));
        assert(events =~= seq![b.take(k)] + more);
        assert(events.drop_first() =~= more);
        assert(events.flatten() + rest =~= b.take(k) + (more.flatten() + left));
        assert(b.take(k) + b.skip(k) =~= b);
        assert(first_boundary(b.take(k), k)) by {
            assert forall|j: int| j < k implies !#[trigger] boundary(b.take(k), j) by {
                assert(!boundary(b, j));
            }
        }
        assert forall|i: int| 0 <= i < events.len() implies first_boundary(
            #[trigger] events[i],
            events[i].len() as int,
        ) by {
            if i > 0 {
                assert(events[i] == more[i - 1]);
            }
        }
    } else {
        assert(events.flatten() + rest =~= b);
        assert(no_boundary(b)) by {
            if exists|j: int| #[trigger] boundary(b, j) {
                let j = choose|j: int| #[trigger] boundary(b, j);
                lemma_some_first(b, j);
            }
        }
    }
}

proof fn lemma_some_first(b: Seq<u8>, j: int)
    requires
        boundary(b, j),
    ensures
        exists|k: int| first_boundary(b, k),
    decreases j,
{
    if exists|i: int| i < j && #[trigger] boundary(b, i) {
        let i = choose|i: int| i < j && #[trigger] boundary(b, i);
        lemma_some_first(b, i);
    } else {
        assert(first_boundary(b, j));
    }
}

/// Lines end at line breaks and nowhere else: around one, the line before it,
/// without a carriage return at its end, comes before the lines behind it. A
/// text without a break is one line as it is, and no text is no line.
pub proof fn law_lines_end_at_breaks(a: Seq<char>, b: Seq<char>)
    requires
        !a.contains('\n'),
    ensures
        lines(Seq::empty()) == Seq::<Seq<char>>::empty(),
        a.len() > 0 ==> lines(a) == seq![a],
        a.len() > 0 && a.last() == '\r' ==> lines(a.push('\n') + b) == seq![a.drop_last()] + lines(
            b,
        ),
        !(a.len() > 0 && a.last() == '\r') ==> lines(a.push('\n') + b) == seq![a] + lines(b),
{
    let s = a.push('\n') + b;
    let n = a.len() as int;
    assert forall|i: int| 0 <= i < n implies a[i] != '\n' && s[i] != '\n' by {
        assert(s[i] == a[i]);
        assert(a.contains(a[i]));
    }
    assert(s[n] == '\n');
    lemma_find_char_is(s, '\n', n);
    lemma_find_char_is(a, '\n', n);
    assert(s.take(n) =~= a);
    assert(s.skip(n + 1) =~= b);
}

/// The data of lines is that of exactly those that begin with `data:`, in
/// order, each without that and without one space behind it.
pub proof fn law_data_lines_are_read(ls: Seq<Seq<char>>)
    ensures
        data_of_lines(ls) == ls.filter(
            |l: Seq<char>| seq!['d', 'a', 't', 'a', ':'].is_prefix_of(l),
        ).map_values(|l: Seq<char>| data_of(l)),
    decreases ls.len(),
{
    let f = |l: Seq<char>| seq!['d', 'a', 't', 'a', ':'].is_prefix_of(l);
    let g = |l: Seq<char>| data_of(l);
    reveal(Seq::filter);
    if ls.len() > 0 {
        let rest = ls.skip(1);
        law_data_lines_are_read(rest);
        assert(ls =~= seq![ls[0]] + rest);
        Seq::filter_distributes_over_add(seq![ls[0]], rest, f);
        assert(seq![ls[0]].drop_last() =~= Seq::empty());
        assert(seq![ls[0]].last() == ls[0]);
        assert(Seq::<Seq<char>>::empty().filter(f) =~= Seq::empty());
        let head = seq!['d', 'a', 't', 'a', ':'];
        if head.is_prefix_of(ls[0]) {
            assert(ls[0].take(5) =~= head);
        }
        if is_data(ls[0]) {
            assert(ls[0].take(5) == head);
            assert(head.is_prefix_of(ls[0]));
        }
        assert(seq![ls[0]].filter(f) =~= (if is_data(ls[0]) {
            seq![ls[0]]
        } else {
            Seq::empty()
        }));
        assert(data_of_lines(ls) =~= ls.filter(f).map_values(g));
    } else {
        assert(data_of_lines(ls) =~= ls.filter(f).map_values(g));
    }
}

/// A line of data gives the data back, whether or not a space stands in front
/// of it; of two spaces one stays.
pub proof fn law_data_reads_back(data: Seq<char>)
    ensures
        data_of("data: "@ + data) == data,
        data.len() == 0 || data[0] != ' ' ==> data_of("data:"@ + data) == data,
{
    reveal_strlit("data: ");
    reveal_strlit("data:");
    assert(("data: "@ + data)[5] == ' ');
    assert(("data: "@ + data).skip(6) =~= data);
    assert(data.len() > 0 ==> ("data:"@ + data)[5] == data[0]);
    assert(("data:"@ + data).skip(5) =~= data);
}

/// An event ends behind a blank line: behind two line feeds, or behind two
/// pairs of carriage return and line feed, and nowhere else.
pub proof fn law_blank_lines_end_events(b: Seq<u8>, k: int)
    ensures
        boundary(b + seq![10u8, 10u8], b.len() as int + 2),
        boundary(b + seq![13u8, 10u8, 13u8, 10u8], b.len() as int + 4),
        boundary(b, k) ==> 0 <= k <= b.len() && (seq![10u8, 10u8].is_suffix_of(b.take(k)) || seq![
            13u8,
            10u8,
            13u8,
            10u8,
        ].is_suffix_of(b.take(k))),
{
    if boundary(b, k) {
        let head = b.take(k);
        if 2 <= k && b[k - 2] == 10 && b[k - 1] == 10 {
            assert(seq![10u8, 10u8] =~= head.subrange(k - 2, k));
        } else {
            assert(seq![13u8, 10u8, 13u8, 10u8] =~= head.subrange(k - 4, k));
        }
    }
}

} // verus!
