//! Session transcripts.
//!
//! A transcript keeps every message that was ever part of the session. What
//! is replaced, by a summary for example, is archived: it stays where it is in
//! the full transcript, and leaves the live view.

use vstd::prelude::*;
use crate::message::{content_text, message_views, Message, MessageView};
use crate::text::{chars_of, text_eq};

verus! {

/// One message of a transcript.
#[derive(Debug)]
pub struct Row {
    pub message: Message,
    pub archived: bool,
}

/// The model of a message of a transcript.
pub ghost struct RowView {
    pub message: MessageView,
    pub archived: bool,
}

impl View for Row {
    type V = RowView;

    open spec fn view(&self) -> RowView {
        RowView { message: self.message@, archived: self.archived }
    }
}

/// The models of the messages of a transcript.
pub open spec fn row_views(s: Seq<Row>) -> Seq<RowView> {
    s.map_values(|r: Row| r@)
}

/// How many messages are live.
pub open spec fn live_count(rows: Seq<RowView>) -> nat
    decreases rows.len(),
{
    if rows.len() == 0 {
        0
    } else {
        live_count(rows.drop_last()) + if rows.last().archived {
            0nat
        } else {
            1nat
        }
    }
}

/// The live messages, in order.
pub open spec fn live(rows: Seq<RowView>) -> Seq<MessageView>
    decreases rows.len(),
{
    if rows.len() == 0 {
        Seq::empty()
    } else {
        let front = live(rows.drop_last());
        if rows.last().archived {
            front
        } else {
            front.push(rows.last().message)
        }
    }
}

/// All messages, in order.
pub open spec fn full(rows: Seq<RowView>) -> Seq<MessageView> {
    rows.map_values(|r: RowView| r.message)
}

/// The position of the live message `n`, or the end.
pub open spec fn live_position(rows: Seq<RowView>, n: int) -> int
    decreases rows.len(),
{
    if rows.len() == 0 {
        0
    } else {
        let front = live_position(rows.drop_last(), n);
        if front < rows.len() - 1 {
            front
        } else if !rows.last().archived && live_count(rows.drop_last()) == n {
            rows.len() - 1
        } else {
            rows.len() as int
        }
    }
}

/// The transcript with the live messages `start..end` archived where they
/// are.
pub open spec fn archived_span(rows: Seq<RowView>, start: int, end: int) -> Seq<RowView> {
    Seq::new(
        rows.len(),
        |i: int|
            RowView {
                message: rows[i].message,
                archived: rows[i].archived || start <= live_count(rows.take(i)) < end,
            },
    )
}

/// Where a replacement of the live messages `start..end` goes: behind the last
/// of them, or, where there is none, in front of the live message `start`.
pub open spec fn insert_position(rows: Seq<RowView>, start: int, end: int) -> int {
    if start < end {
        live_position(rows, end - 1) + 1
    } else {
        live_position(rows, start)
    }
}

/// Messages as live ones of a transcript.
pub open spec fn fresh_rows(ms: Seq<MessageView>) -> Seq<RowView> {
    ms.map_values(|m: MessageView| RowView { message: m, archived: false })
}

/// The transcript after the live messages `start..end` were replaced.
pub open spec fn replaced(
    rows: Seq<RowView>,
    start: int,
    end: int,
    replacement: Seq<MessageView>,
) -> Seq<RowView> {
    let span = archived_span(rows, start, end);
    let p = insert_position(rows, start, end);
    span.take(p) + fresh_rows(replacement) + span.skip(p)
}

/// The tokens that the live messages report together.
pub open spec fn token_sum(rows: Seq<RowView>) -> nat
    decreases rows.len(),
{
    if rows.len() == 0 {
        0
    } else {
        let front = token_sum(rows.drop_last());
        match rows.last().message.token_count {
            Some(n) => if rows.last().archived {
                front
            } else {
                front + n as nat
            },
            None => front,
        }
    }
}

/// An estimate of the tokens of the live messages: a token for four
/// characters of each.
pub open spec fn estimate(rows: Seq<RowView>) -> nat
    decreases rows.len(),
{
    if rows.len() == 0 {
        0
    } else {
        let front = estimate(rows.drop_last());
        if rows.last().archived {
            front
        } else {
            front + content_text(rows.last().message.content).len() / 4
        }
    }
}

proof fn lemma_live_len(rows: Seq<RowView>)
    ensures
        live(rows).len() == live_count(rows),
        live_count(rows) <= rows.len(),
    decreases rows.len(),
{
    if rows.len() > 0 {
        lemma_live_len(rows.drop_last());
    }
}

proof fn lemma_live_append(a: Seq<RowView>, b: Seq<RowView>)
    ensures
        live(a + b) == live(a) + live(b),
        live_count(a + b) == live_count(a) + live_count(b),
        token_sum(a + b) == token_sum(a) + token_sum(b),
    decreases b.len(),
{
    if b.len() == 0 {
        assert(a + b =~= a);
        assert(live(a) + live(b) =~= live(a));
    } else {
        assert((a + b).drop_last() =~= a + b.drop_last());
        lemma_live_append(a, b.drop_last());
        assert(live(a + b) =~= live(a) + live(b));
    }
}

proof fn lemma_live_fresh(ms: Seq<MessageView>)
    ensures
        live(fresh_rows(ms)) == ms,
    decreases ms.len(),
{
    if ms.len() > 0 {
        assert(fresh_rows(ms).drop_last() =~= fresh_rows(ms.drop_last()));
        lemma_live_fresh(ms.drop_last());
        assert(ms.drop_last().push(ms.last()) =~= ms);
    } else {
        assert(ms =~= Seq::empty());
    }
}

/// A position is that of the live message `n` exactly where a live message
/// stands there and `n` live ones stand in front of it.
proof fn lemma_live_position(rows: Seq<RowView>, n: int)
    requires
        n >= 0,
    ensures
        0 <= live_position(rows, n) <= rows.len(),
        n < live_count(rows) ==> live_position(rows, n) < rows.len()
            && !rows[live_position(rows, n)].archived && live_count(
            rows.take(live_position(rows, n)),
        ) == n,
        n >= live_count(rows) ==> live_position(rows, n) == rows.len(),
    decreases rows.len(),
{
    if rows.len() > 0 {
        let front = rows.drop_last();
        lemma_live_position(front, n);
        let p = live_position(rows, n);
        if p < front.len() {
            assert(rows.take(p) =~= front.take(p));
        } else if p < rows.len() {
            assert(rows.take(p) =~= front);
        }
    }
}

proof fn lemma_archived_prefix(rows: Seq<RowView>, start: int, end: int, p: int)
    requires
        0 <= start <= end,
        0 <= p <= rows.len(),
    ensures
        ({
            let n = live_count(rows.take(p)) as int;
            let all = live(rows.take(p));
            live(archived_span(rows, start, end).take(p)) == (if n <= start {
                all
            } else if n <= end {
                all.take(start)
            } else {
                all.take(start) + all.skip(end)
            })
        }),
    decreases p,
{
    let span = archived_span(rows, start, end);
    lemma_live_len(rows.take(p));
    if p == 0 {
        assert(span.take(0) =~= Seq::empty());
        assert(rows.take(0) =~= Seq::empty());
    } else {
        lemma_archived_prefix(rows, start, end, p - 1);
        lemma_live_len(rows.take(p - 1));
        assert(span.take(p).drop_last() =~= span.take(p - 1));
        assert(rows.take(p).drop_last() =~= rows.take(p - 1));
        assert(span.take(p).last() == span[p - 1]);
        assert(rows.take(p).last() == rows[p - 1]);
        let k = live_count(rows.take(p - 1)) as int;
        let before = live(rows.take(p - 1));
        let all = live(rows.take(p));
        let m = rows[p - 1].message;
        if !rows[p - 1].archived {
            assert(all == before.push(m));
            if k < start {
            } else if k < end {
                assert(all.take(start) =~= before.take(start));
                assert(before.take(start) =~= if k <= start {
                    before
                } else {
                    before.take(start)
                });
            } else {
                assert(all.take(start) =~= before.take(start));
                assert(all.skip(end) =~= before.skip(end).push(m));
                if k <= start {
                    assert(before.take(start) =~= before);
                    assert(before.skip(end) =~= Seq::empty());
                    assert(before.push(m) =~= all.take(start) + all.skip(end));
                } else if k <= end {
                    assert(before.skip(end) =~= Seq::empty());
                    assert(before.take(start).push(m) =~= all.take(start) + all.skip(end));
                } else {
                    assert((before.take(start) + before.skip(end)).push(m) =~= all.take(start)
                        + all.skip(end));
                }
            }
        }
    }
}

/// The live view after a replacement: what was in front, the replacement, and
/// what was behind.
pub proof fn law_replacement_in_the_live_view(
    rows: Seq<RowView>,
    start: int,
    end: int,
    replacement: Seq<MessageView>,
)
    requires
        0 <= start <= end <= live(rows).len(),
    ensures
        live(replaced(rows, start, end, replacement)) == live(rows).take(start) + replacement
            + live(rows).skip(end),
{
    let span = archived_span(rows, start, end);
    let p = insert_position(rows, start, end);
    let all = live(rows);
    lemma_live_len(rows);
    if start < end {
        lemma_live_position(rows, end - 1);
    } else {
        lemma_live_position(rows, start);
    }
    lemma_live_fresh(replacement);
    lemma_live_append(span.take(p), fresh_rows(replacement));
    lemma_live_append(span.take(p) + fresh_rows(replacement), span.skip(p));
    assert(span.take(p) + span.skip(p) =~= span);
    lemma_live_append(span.take(p), span.skip(p));
    lemma_archived_prefix(rows, start, end, rows.len() as int);
    assert(rows.take(rows.len() as int) =~= rows);
    assert(span.take(rows.len() as int) =~= span);
    lemma_archived_prefix(rows, start, end, p);
    lemma_live_len(rows.take(p));
    assert(rows.take(p) + rows.skip(p) =~= rows);
    lemma_live_append(rows.take(p), rows.skip(p));
    let head = live(rows.take(p));
    if start < end {
        let q = live_position(rows, end - 1);
        assert(rows.take(p).drop_last() =~= rows.take(q));
        assert(head.len() == end);
        assert(live(span.take(p)) =~= all.take(start));
    } else {
        assert(head.len() == start);
        assert(live(span.take(p)) =~= all.take(start));
    }
    assert(live(span) =~= all.take(start) + all.skip(end)) by {
        if all.len() <= start {
            assert(all.skip(end) =~= Seq::empty());
            assert(all.take(start) =~= all);
        } else if all.len() <= end {
            assert(all.skip(end) =~= Seq::empty());
        }
    }
    assert(live(span.skip(p)) =~= all.skip(end)) by {
        let whole = all.take(start) + all.skip(end);
        assert(whole == all.take(start) + live(span.skip(p)));
        assert(whole.skip(start) =~= all.skip(end));
        assert(whole.skip(start) =~= live(span.skip(p)));
    }
    assert(live(replaced(rows, start, end, replacement)) =~= all.take(start) + replacement
        + all.skip(end));
}

/// The full transcript after a replacement: every message is still there, in
/// its order, with the replacement put in.
pub proof fn law_replacement_in_the_full_transcript(
    rows: Seq<RowView>,
    start: int,
    end: int,
    replacement: Seq<MessageView>,
)
    requires
        0 <= start <= end <= live(rows).len(),
    ensures
        ({
            let p = insert_position(rows, start, end);
            &&& 0 <= p <= rows.len()
            &&& full(replaced(rows, start, end, replacement)) == full(rows).take(p) + replacement
                + full(rows).skip(p)
        }),
{
    lemma_live_len(rows);
    if start < end {
        lemma_live_position(rows, end - 1);
    } else {
        lemma_live_position(rows, start);
    }
    let p = insert_position(rows, start, end);
    assert(full(replaced(rows, start, end, replacement)) =~= full(rows).take(p) + replacement
        + full(rows).skip(p));
}

/// What is archived stays archived.
pub proof fn law_archived_stays_archived(rows: Seq<RowView>, start: int, end: int, i: int)
    requires
        0 <= i < rows.len(),
        rows[i].archived,
    ensures
        archived_span(rows, start, end)[i] == rows[i],
{
}

/// A message that is appended is the last of the live view and of the full
/// transcript.
pub proof fn law_append_goes_last(rows: Seq<RowView>, m: MessageView)
    ensures
        live(rows.push(RowView { message: m, archived: false })) == live(rows).push(m),
        full(rows.push(RowView { message: m, archived: false })) == full(rows).push(m),
{
    let r = RowView { message: m, archived: false };
    assert(rows.push(r).drop_last() =~= rows);
    assert(full(rows.push(r)) =~= full(rows).push(m));
}

/// A session's transcript.
#[derive(Debug)]
pub struct SessionLog {
    pub rows: Vec<Row>,
}

impl View for SessionLog {
    type V = Seq<RowView>;

    open spec fn view(&self) -> Seq<RowView> {
        row_views(self.rows@)
    }
}

impl SessionLog {
    /// An empty transcript.
    pub fn new() -> (r: SessionLog)
        ensures
            r@ == Seq::<RowView>::empty(),
    {
        let r = SessionLog { rows: Vec::new() };
        assert(r@ =~= Seq::empty());
        r
    }

    /// The transcript of stored rows.
    pub fn from_rows(rows: Vec<Row>) -> (r: SessionLog)
        ensures
            r@ == row_views(rows@),
    {
        SessionLog { rows }
    }

    /// Appends a message.
    pub fn push(&mut self, message: Message)
        ensures
            final(self)@ == old(self)@.push(RowView { message: message@, archived: false }),
    {
        self.rows.push(Row { message, archived: false });
        assert(self@ =~= old(self)@.push(RowView { message: message@, archived: false }));
    }

    /// The live messages.
    pub fn messages(&self) -> (r: Vec<&Message>)
        ensures
            r@.map_values(|m: &Message| m@) == live(self@),
    {
        let ghost rows = self@;
        let mut out: Vec<&Message> = Vec::new();
        let mut i: usize = 0;
        assert(out@.map_values(|m: &Message| m@) =~= live(rows.take(0)));
        while i < self.rows.len()
            invariant
                i <= self.rows@.len(),
                rows == self@,
                out@.map_values(|m: &Message| m@) == live(rows.take(i as int)),
            decreases self.rows@.len() - i,
        {
            let ghost next = rows.take(i + 1);
            let ghost before = out@.map_values(|m: &Message| m@);
            assert(next.drop_last() =~= rows.take(i as int));
            assert(next.last() == self.rows@[i as int]@);
            if !self.rows[i].archived {
                out.push(&self.rows[i].message);
                assert(out@.map_values(|m: &Message| m@) =~= before.push(next.last().message));
            }
            i = i + 1;
        }
        assert(rows.take(i as int) =~= rows);
        out
    }

    /// All messages, each with whether it is archived.
    pub fn full_items(&self) -> (r: Vec<(&Message, bool)>)
        ensures
            r@.map_values(|p: (&Message, bool)| RowView { message: p.0@, archived: p.1 }) == self@,
    {
        let mut out: Vec<(&Message, bool)> = Vec::new();
        let mut i: usize = 0;
        while i < self.rows.len()
            invariant
                i <= self.rows@.len(),
                out@.len() == i,
                forall|k: int|
                    0 <= k < i ==> *(#[trigger] out@[k]).0 == self.rows@[k].message && out@[k].1
                        == self.rows@[k].archived,
            decreases self.rows@.len() - i,
        {
            out.push((&self.rows[i].message, self.rows[i].archived));
            i = i + 1;
        }
        assert(out@.map_values(|p: (&Message, bool)| RowView { message: p.0@, archived: p.1 })
            =~= self@);
        out
    }

    /// All messages.
    pub fn full_messages(&self) -> (r: Vec<&Message>)
        ensures
            r@.map_values(|m: &Message| m@) == full(self@),
    {
        let mut out: Vec<&Message> = Vec::new();
        let mut i: usize = 0;
        while i < self.rows.len()
            invariant
                i <= self.rows@.len(),
                out@.len() == i,
                forall|k: int| 0 <= k < i ==> *(#[trigger] out@[k]) == self.rows@[k].message,
            decreases self.rows@.len() - i,
        {
            out.push(&self.rows[i].message);
            i = i + 1;
        }
        assert(out@.map_values(|m: &Message| m@) =~= full(self@));
        out
    }

    /// Removes every message, archived ones too.
    pub fn clear(&mut self)
        ensures
            final(self)@ == Seq::<RowView>::empty(),
    {
        self.rows.clear();
        assert(self@ =~= Seq::empty());
    }

    /// An estimate of the tokens of the live messages.
    pub fn token_count(&self) -> (r: usize)
        requires
            estimate(self@) <= usize::MAX,
        ensures
            r == estimate(self@),
            r == live(self@).fold_left(
                0nat,
                |sum: nat, m: MessageView| (sum + content_text(m.content).len() / 4) as nat,
            ),
    {
        let ghost rows = self@;
        let mut sum: usize = 0;
        let mut i: usize = 0;
        while i < self.rows.len()
            invariant
                i <= self.rows@.len(),
                rows == self@,
                estimate(rows) <= usize::MAX,
                sum == estimate(rows.take(i as int)),
            decreases self.rows@.len() - i,
        {
            let ghost next = rows.take(i + 1);
            assert(next.drop_last() =~= rows.take(i as int));
            assert(next.last() == self.rows@[i as int]@);
            proof {
                lemma_estimate_grows(rows, i + 1);
            }
            if !self.rows[i].archived {
                let text = self.rows[i].message.text_content();
                let chars = chars_of(text.as_str());
                sum = sum + chars.len() / 4;
            }
            i = i + 1;
        }
        assert(rows.take(i as int) =~= rows);
        proof {
            lemma_estimate_of_live(rows);
        }
        sum
    }

    /// The tokens that the live messages report together; 0 where they are
    /// too many for the store to add up.
    pub fn total_tokens(&self) -> (r: u64)
        ensures
            r == (if token_sum(self@) <= i64::MAX {
                token_sum(self@)
            } else {
                0
            }),
    {
        let ghost rows = self@;
        let mut sum: u64 = 0;
        let mut i: usize = 0;
        let limit: u64 = i64::MAX as u64;
        while i < self.rows.len()
            invariant
                i <= self.rows@.len(),
                rows == self@,
                limit == i64::MAX,
                sum == token_sum(rows.take(i as int)),
                sum <= limit,
            decreases self.rows@.len() - i,
        {
            let ghost next = rows.take(i + 1);
            assert(next.drop_last() =~= rows.take(i as int));
            assert(next.last() == self.rows@[i as int]@);
            if !self.rows[i].archived {
                match self.rows[i].message.token_count {
                    Some(n) => {
                        let add: u64 = n as u64;
                        if add > limit - sum {
                            proof {
                                lemma_tokens_grow(rows, i + 1);
                            }
                            return 0;
                        }
                        sum = sum + add;
                    },
                    None => {},
                }
            }
            i = i + 1;
        }
        assert(rows.take(i as int) =~= rows);
        sum
    }

    /// The size of the context: what was last reported, else the estimate.
    pub fn context_size(&self, last_reported: Option<usize>) -> (r: usize)
        requires
            last_reported is None ==> estimate(self@) <= usize::MAX,
        ensures
            r == (match last_reported {
                Some(n) => n as nat,
                None => estimate(self@),
            }),
    {
        match last_reported {
            Some(n) => n,
            None => self.token_count(),
        }
    }

    /// Replaces the live messages `start..end`. They are archived where they
    /// are, and the replacement goes behind them.
    pub fn replace_range(&mut self, start: usize, end: usize, replacement: Vec<Message>)
        requires
            start <= end <= live(old(self)@).len(),
        ensures
            final(self)@ == replaced(
                old(self)@,
                start as int,
                end as int,
                message_views(replacement@),
            ),
    {
        let ghost rows = self@;
        let ghost span = archived_span(rows, start as int, end as int);
        let ghost p = insert_position(rows, start as int, end as int);
        proof {
            lemma_live_len(rows);
            lemma_live_position(rows, start as int);
            if start < end {
                lemma_live_position(rows, end - 1);
            }
        }
        let n: usize = self.rows.len();
        let mut position: usize = n;
        let mut found = false;
        let mut seen: usize = 0;
        let mut i: usize = 0;
        while i < n
            invariant
                i <= n,
                n == rows.len(),
                n == self.rows@.len(),
                start <= end <= live_count(rows),
                seen == live_count(rows.take(i as int)),
                seen <= i,
                p == insert_position(rows, start as int, end as int),
                span == archived_span(rows, start as int, end as int),
                forall|k: int| 0 <= k < i ==> (#[trigger] self.rows@[k])@ == span[k],
                forall|k: int| i <= k < n ==> (#[trigger] self.rows@[k])@ == rows[k],
                found ==> position == p && p <= n,
                !found ==> position == n && (start < end ==> p > i) && (start == end ==> p >= i),
                0 <= p <= n,
                start < end ==> 1 <= p <= n && !rows[p - 1].archived && live_count(
                    rows.take(p - 1),
                ) == end - 1,
                start == end && start < live_count(rows) ==> p < n && !rows[p].archived && live_count(
                    rows.take(p),
                ) == start,
                start == end && start == live_count(rows) ==> p == n,
            decreases n - i,
        {
            let ghost next = rows.take(i + 1);
            assert(next.drop_last() =~= rows.take(i as int));
            assert(self.rows@[i as int]@ == rows[i as int]);
            assert(next.last() == rows[i as int]);
            if !self.rows[i].archived {
                if start < end {
                    if seen == end - 1 {
                        proof {
                            lemma_same_live_position(rows, i as int, p - 1);
                        }
                        position = i + 1;
                        found = true;
                    } else {
                        assert(!found ==> p - 1 != i);
                    }
                } else if seen == start {
                    proof {
                        lemma_live_len(rows.take(i as int));
                        lemma_counts_grow(rows, i + 1);
                        lemma_same_live_position(rows, i as int, p);
                    }
                    position = i;
                    found = true;
                } else {
                    assert(!found && p == i ==> false);
                }
                if start <= seen && seen < end {
                    let ghost before = self.rows@;
                    let mut row = Row { message: Message::user(""), archived: true };
                    std::mem::swap(&mut self.rows[i], &mut row);
                    row.archived = true;
                    self.rows[i] = row;
                    assert(self.rows@[i as int]@ == span[i as int]);
                    assert forall|k: int| 0 <= k < n && k != i implies #[trigger] self.rows@[k]
                        == before[k] by {}
                }
                seen = seen + 1;
            }
            i = i + 1;
        }
        assert(rows.take(n as int) =~= rows);
        assert(self@ =~= span);
        assert(position == p);
        let mut tail = self.rows.split_off(position);
        let mut fresh = rows_of(replacement);
        self.rows.append(&mut fresh);
        self.rows.append(&mut tail);
        assert(self@ =~= replaced(rows, start as int, end as int, message_views(replacement@)));
    }
}

fn rows_of(messages: Vec<Message>) -> (r: Vec<Row>)
    ensures
        row_views(r@) == fresh_rows(message_views(messages@)),
{
    let n: usize = messages.len();
    let mut rest = messages;
    let mut out: Vec<Row> = Vec::new();
    let mut i: usize = 0;
    while i < n
        invariant
            i <= n,
            n == messages@.len(),
            rest@ == messages@.skip(i as int),
            out@.len() == i,
            forall|k: int|
                0 <= k < i ==> (#[trigger] out@[k]).message == messages@[k] && !out@[k].archived,
        decreases n - i,
    {
        let m = rest.remove(0);
        assert(m == messages@[i as int]);
        out.push(Row { message: m, archived: false });
        i = i + 1;
        assert(rest@ =~= messages@.skip(i as int));
    }
    assert(row_views(out@) =~= fresh_rows(message_views(messages@)));
    out
}

proof fn lemma_estimate_grows(rows: Seq<RowView>, n: int)
    requires
        0 <= n <= rows.len(),
    ensures
        estimate(rows.take(n)) <= estimate(rows),
    decreases rows.len(),
{
    if n < rows.len() {
        assert(rows.drop_last().take(n) =~= rows.take(n));
        lemma_estimate_grows(rows.drop_last(), n);
    } else {
        assert(rows.take(n) =~= rows);
    }
}

proof fn lemma_tokens_grow(rows: Seq<RowView>, n: int)
    requires
        0 <= n <= rows.len(),
    ensures
        token_sum(rows.take(n)) <= token_sum(rows),
    decreases rows.len(),
{
    if n < rows.len() {
        assert(rows.drop_last().take(n) =~= rows.take(n));
        lemma_tokens_grow(rows.drop_last(), n);
    } else {
        assert(rows.take(n) =~= rows);
    }
}

proof fn lemma_counts_grow(rows: Seq<RowView>, n: int)
    requires
        0 <= n <= rows.len(),
    ensures
        live_count(rows.take(n)) <= live_count(rows),
    decreases rows.len(),
{
    if n < rows.len() {
        assert(rows.drop_last().take(n) =~= rows.take(n));
        lemma_counts_grow(rows.drop_last(), n);
    } else {
        assert(rows.take(n) =~= rows);
    }
}

/// No two live messages have the same number of live ones in front.
proof fn lemma_same_live_position(rows: Seq<RowView>, a: int, b: int)
    requires
        0 <= a < rows.len(),
        0 <= b < rows.len(),
        !rows[a].archived,
        !rows[b].archived,
        live_count(rows.take(a)) == live_count(rows.take(b)),
    ensures
        a == b,
{
    if a < b {
        assert(rows.take(a + 1).drop_last() =~= rows.take(a));
        lemma_counts_grow(rows.take(b), a + 1);
        assert(rows.take(b).take(a + 1) =~= rows.take(a + 1));
    }
    if b < a {
        assert(rows.take(b + 1).drop_last() =~= rows.take(b));
        lemma_counts_grow(rows.take(a), b + 1);
        assert(rows.take(a).take(b + 1) =~= rows.take(b + 1));
    }
}

/// The tokens that messages report together.
pub open spec fn message_tokens(ms: Seq<MessageView>) -> nat
    decreases ms.len(),
{
    if ms.len() == 0 {
        0
    } else {
        let front = message_tokens(ms.drop_last());
        match ms.last().token_count {
            Some(n) => front + n as nat,
            None => front,
        }
    }
}

/// Archived messages do not count: the tokens of a transcript are those of its
/// live view.
pub proof fn law_archived_tokens_do_not_count(rows: Seq<RowView>)
    ensures
        token_sum(rows) == message_tokens(live(rows)),
    decreases rows.len(),
{
    if rows.len() > 0 {
        law_archived_tokens_do_not_count(rows.drop_last());
        if !rows.last().archived {
            assert(live(rows).drop_last() =~= live(rows.drop_last()));
        }
    }
}

/// The identity of an opened session: that of the stored one, where there is
/// one, else the given one, which has to be stored.
pub fn opened_id(existing: Option<String>, given: String) -> (r: (String, bool))
    ensures
        match existing {
            Some(id) => r.0@ == id@ && !r.1,
            None => r.0@ == given@ && r.1,
        },
{
    match existing {
        Some(id) => (id, false),
        None => (given, true),
    }
}

/// Whether a stored row holds a message.
pub fn is_message_kind(kind: &str) -> (r: bool)
    ensures
        r == (kind@ == "message"@),
{
    text_eq(kind, "message")
}

/// The live view is the messages of exactly those rows that are not archived,
/// in order.
pub proof fn law_live_view_is_what_is_not_archived(rows: Seq<RowView>)
    ensures
        live(rows) == rows.filter(|r: RowView| !r.archived).map_values(|r: RowView| r.message),
    decreases rows.len(),
{
    reveal(Seq::filter);
    if rows.len() > 0 {
        law_live_view_is_what_is_not_archived(rows.drop_last());
    }
    assert(live(rows) =~= rows.filter(|r: RowView| !r.archived).map_values(
        |r: RowView| r.message,
    ));
}

/// The estimate of a transcript is the sum, over the messages of its live
/// view, of a quarter of the characters of each. So two transcripts with one
/// live view have one estimate, and an archived message adds nothing.
pub proof fn law_estimate_is_of_the_live_view(
    rows: Seq<RowView>,
    other: Seq<RowView>,
    archived: MessageView,
)
    ensures
        estimate(rows) == live(rows).fold_left(
            0nat,
            |sum: nat, m: MessageView| (sum + content_text(m.content).len() / 4) as nat,
        ),
        live(rows) == live(other) ==> estimate(rows) == estimate(other),
        estimate(rows.push(RowView { message: archived, archived: true })) == estimate(rows),
{
    lemma_estimate_of_live(rows);
    lemma_estimate_of_live(other);
    let more = rows.push(RowView { message: archived, archived: true });
    assert(more.drop_last() =~= rows);
}

proof fn lemma_estimate_of_live(rows: Seq<RowView>)
    ensures
        estimate(rows) == live(rows).fold_left(
            0nat,
            |sum: nat, m: MessageView| (sum + content_text(m.content).len() / 4) as nat,
        ),
    decreases rows.len(),
{
    if rows.len() > 0 {
        lemma_estimate_of_live(rows.drop_last());
        if !rows.last().archived {
            assert(live(rows).drop_last() =~= live(rows.drop_last()));
        }
    }
}

/// The tokens of a transcript are the sum of what the messages of its live
/// view report; one that reports nothing adds nothing.
pub proof fn law_tokens_are_what_the_live_view_reports(rows: Seq<RowView>)
    ensures
        token_sum(rows) == live(rows).filter_map(|m: MessageView| m.token_count).fold_left(
            0nat,
            |sum: nat, n: usize| (sum + n) as nat,
        ),
    decreases rows.len(),
{
    let f = |m: MessageView| m.token_count;
    if rows.len() > 0 {
        law_tokens_are_what_the_live_view_reports(rows.drop_last());
        if !rows.last().archived {
            let before = live(rows.drop_last());
            assert(live(rows).drop_last() =~= before);
            if rows.last().message.token_count is Some {
                assert(live(rows).filter_map(f).drop_last() =~= before.filter_map(f));
            }
        }
    }
}

/// Where a replacement goes: directly behind the last message that it
/// replaces, or, where it replaces none, directly in front of the live message
/// that it comes before. What was archived and what is replaced is archived
/// after; every other row is as it was.
pub proof fn law_replacement_goes_behind_what_it_replaces(
    rows: Seq<RowView>,
    start: int,
    end: int,
    replacement: Seq<MessageView>,
)
    requires
        0 <= start <= end <= live(rows).len(),
    ensures
        ({
            let after = replaced(rows, start, end, replacement);
            let n = replacement.len();
            exists|p: int|
                {
                    &&& 0 <= p <= rows.len()
                    &&& start < end ==> p > 0 && !rows[p - 1].archived && live(
                        #[trigger] rows.take(p),
                    ).len() == end
                    &&& start == end ==> live(rows.take(p)).len() == start && (p < rows.len()
                        ==> !rows[p].archived)
                    &&& after.len() == rows.len() + n
                    &&& forall|i: int|
                        #![trigger replacement[i]]
                        0 <= i < n ==> after[p + i] == (RowView {
                            message: replacement[i],
                            archived: false,
                        })
                    &&& forall|i: int|
                        #![trigger rows[i]]
                        0 <= i < rows.len() ==> {
                            let kept = after[if i < p {
                                i
                            } else {
                                i + n
                            }];
                            &&& kept.message == rows[i].message
                            &&& kept.archived <==> rows[i].archived || start <= live(
                                rows.take(i),
                            ).len() < end
                        }
                }
        }),
{
    let p = insert_position(rows, start, end);
    let after = replaced(rows, start, end, replacement);
    let n = replacement.len();
    lemma_live_len(rows);
    lemma_live_position(rows, start);
    if start < end {
        lemma_live_position(rows, end - 1);
        let q = live_position(rows, end - 1);
        assert(rows.take(q + 1).drop_last() =~= rows.take(q));
    } else if p == rows.len() {
        assert(rows.take(p) =~= rows);
    }
    lemma_live_len(rows.take(p));
    assert forall|i: int| #![trigger rows[i]] 0 <= i < rows.len() implies {
        let kept = after[if i < p {
            i
        } else {
            i + n
        }];
        &&& kept.message == rows[i].message
        &&& kept.archived <==> rows[i].archived || start <= live(rows.take(i)).len() < end
    } by {
        lemma_live_len(rows.take(i));
    }
    assert forall|i: int| #![trigger replacement[i]] 0 <= i < n implies after[p + i] == (RowView {
        message: replacement[i],
        archived: false,
    }) by {}
}

} // verus!
