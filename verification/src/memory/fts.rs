//! Full-text match expressions.

use vstd::prelude::*;
use crate::text::{chars_of, joined, split_words, texts, words, join};

verus! {

/// A text with every quotation mark doubled.
pub open spec fn doubled(s: Seq<char>) -> Seq<char>
    decreases s.len(),
{
    if s.len() == 0 {
        Seq::empty()
    } else if s.last() == '"' {
        doubled(s.drop_last()).push('"').push('"')
    } else {
        doubled(s.drop_last()).push(s.last())
    }
}

/// A text as a quoted string.
pub open spec fn quoted(s: Seq<char>) -> Seq<char> {
    seq!['"'] + doubled(s) + seq!['"']
}

/// The match expression of free text: every word as a quoted string, so that
/// nothing in it can be read as query syntax.
pub open spec fn match_expr(text: Seq<char>) -> Seq<char> {
    joined(words(text).map_values(|w: Seq<char>| quoted(w)), " "@)
}

fn quote(word: &str) -> (r: String)
    ensures
        r@ == quoted(word@),
{
    let chars = chars_of(word);
    let mut out = String::new();
    out.push('"');
    let mut i: usize = 0;
    assert(out@ =~= seq!['"'] + doubled(word@.take(0)));
    while i < chars.len()
        invariant
            i <= chars@.len(),
            chars@ == word@,
            out@ == seq!['"'] + doubled(word@.take(i as int)),
        decreases chars@.len() - i,
    {
        let ghost next = word@.take(i + 1);
        let ghost before = out@;
        assert(next.drop_last() =~= word@.take(i as int));
        assert(next.last() == chars@[i as int]);
        if chars[i] == '"' {
            out.push('"');
        }
        out.push(chars[i]);
        i = i + 1;
        assert(out@ =~= seq!['"'] + doubled(next));
    }
    assert(word@.take(i as int) =~= word@);
    out.push('"');
    assert(out@ =~= quoted(word@));
    out
}

/// The match expression of free text.
pub fn fts_match_expr(text: &str) -> (r: String)
    ensures
        r@ == match_expr(text@),
{
    let list = split_words(text);
    let ghost ws = words(text@);
    let ghost qs = ws.map_values(|w: Seq<char>| quoted(w));
    let mut out: Vec<String> = Vec::new();
    let mut i: usize = 0;
    assert(ws.len() == list@.len());
    while i < list.len()
        invariant
            i <= list@.len(),
            ws == texts(list@),
            qs == ws.map_values(|w: Seq<char>| quoted(w)),
            texts(out@) == qs.take(i as int),
        decreases list@.len() - i,
    {
        let ghost before = texts(out@);
        assert(ws[i as int] == list@[i as int]@);
        out.push(quote(list[i].as_str()));
        i = i + 1;
        assert(texts(out@) =~= before.push(qs[i - 1]));
        assert(texts(out@) =~= qs.take(i as int));
    }
    assert(qs.take(i as int) =~= qs);
    join(&out, " ")
}

/// What a quoted string stands for, read from its end: two quotation marks
/// are one. `None` where a single one stands inside.
pub open spec fn undoubled(s: Seq<char>) -> Option<Seq<char>>
    decreases s.len(),
{
    if s.len() == 0 {
        Some(Seq::empty())
    } else if s.last() == '"' {
        if s.len() >= 2 && s[s.len() - 2] == '"' {
            match undoubled(s.take(s.len() - 2)) {
                Some(t) => Some(t.push('"')),
                None => None,
            }
        } else {
            None
        }
    } else {
        match undoubled(s.drop_last()) {
            Some(t) => Some(t.push(s.last())),
            None => None,
        }
    }
}

/// A quoted word stands for the word and for nothing else: no quotation mark
/// of the word can end the string.
pub proof fn law_quoted_word_stands_for_itself(w: Seq<char>)
    ensures
        quoted(w).first() == '"',
        quoted(w).last() == '"',
        undoubled(doubled(w)) == Some(w),
    decreases w.len(),
{
    if w.len() > 0 {
        let d = doubled(w.drop_last());
        law_quoted_word_stands_for_itself(w.drop_last());
        assert(w.drop_last().push(w.last()) =~= w);
        if w.last() == '"' {
            assert(doubled(w).take(doubled(w).len() - 2) =~= d);
        } else {
            assert(doubled(w).drop_last() =~= d);
        }
    } else {
        assert(w =~= Seq::empty());
    }
}

/// Text that holds nothing but white space has the empty match expression.
pub proof fn law_blank_text_matches_nothing(text: Seq<char>)
    requires
        crate::text::is_blank(text),
    ensures
        words(text).len() == 0,
        match_expr(text) == Seq::<char>::empty(),
    decreases text.len(),
{
    if text.len() > 0 {
        assert(crate::text::is_space(text[0]));
        let rest = text.skip(1);
        assert forall|i: int| 0 <= i < rest.len() implies crate::text::is_space(
            #[trigger] rest[i],
        ) by {
            assert(rest[i] == text[i + 1]);
        }
        law_blank_text_matches_nothing(rest);
    }
}

} // verus!
