//! JSON values: a mathematical model, an executable representation, and the
//! passage to and from the values of `serde_json`.

use vstd::prelude::*;
use crate::text::text_eq;

verus! {

/// `serde_json::Value`, carried as an opaque value.
#[verifier::external_type_specification]
#[verifier::external_body]
pub struct ExValue(serde_json::Value);

/// `serde_json::Number`, carried as an opaque value.
#[verifier::external_type_specification]
#[verifier::external_body]
pub struct ExNumber(serde_json::Number);

/// The mathematical model of a JSON value.
pub ghost enum JsonView {
    Null,
    Bool(bool),
    Number(serde_json::Number),
    Str(Seq<char>),
    Array(Seq<JsonView>),
    Object(Map<Seq<char>, JsonView>),
}

/// A JSON value.
#[derive(Debug)]
pub enum Json {
    Null,
    Bool(bool),
    Number(serde_json::Number),
    Str(String),
    Array(Vec<Json>),
    Object(JsonMap),
}

/// The members of a JSON object. A later entry for a key shadows an earlier
/// one.
#[derive(Debug)]
pub struct JsonMap {
    pub entries: Vec<(String, Json)>,
}

/// The model of a JSON value.
pub open spec fn json_view(j: Json) -> JsonView
    decreases j,
{
    match j {
        Json::Null => JsonView::Null,
        Json::Bool(b) => JsonView::Bool(b),
        Json::Number(n) => JsonView::Number(n),
        Json::Str(s) => JsonView::Str(s@),
        Json::Array(items) => JsonView::Array(items_view(items@)),
        Json::Object(m) => JsonView::Object(entries_view(m.entries@)),
    }
}

/// The models of a sequence of JSON values.
pub open spec fn items_view(s: Seq<Json>) -> Seq<JsonView>
    decreases s,
{
    Seq::new(s.len(), |i: int| if 0 <= i < s.len() { json_view(s[i]) } else { JsonView::Null })
}

/// The map that a list of entries stands for.
pub open spec fn entries_view(s: Seq<(String, Json)>) -> Map<Seq<char>, JsonView>
    decreases s,
{
    if s.len() == 0 {
        Map::empty()
    } else {
        entries_view(s.drop_last()).insert(s.last().0@, json_view(s.last().1))
    }
}

impl View for Json {
    type V = JsonView;

    open spec fn view(&self) -> JsonView {
        json_view(*self)
    }
}

impl View for JsonMap {
    type V = Map<Seq<char>, JsonView>;

    open spec fn view(&self) -> Map<Seq<char>, JsonView> {
        entries_view(self.entries@)
    }
}

/// The model of an optional JSON value.
pub open spec fn opt_json(j: Option<Json>) -> Option<JsonView> {
    match j {
        Some(v) => Some(v@),
        None => None,
    }
}

/// A JSON value opened by one level.
pub enum Opened {
    Null,
    Bool(bool),
    Number(serde_json::Number),
    Str(String),
    Array(Vec<serde_json::Value>),
    Object(Vec<(String, serde_json::Value)>),
}

/// What a `serde_json::Value` holds.
pub uninterp spec fn value_view(v: serde_json::Value) -> JsonView;

/// The map that a list of opened entries stands for.
pub open spec fn opened_entries(s: Seq<(String, serde_json::Value)>) -> Map<Seq<char>, JsonView>
    decreases s.len(),
{
    if s.len() == 0 {
        Map::empty()
    } else {
        opened_entries(s.drop_last()).insert(s.last().0@, value_view(s.last().1))
    }
}

/// Whether no key occurs twice among the entries.
pub open spec fn keys_distinct(s: Seq<(String, serde_json::Value)>) -> bool {
    forall|i: int, j: int|
        #![trigger s[i], s[j]]
        0 <= i < j < s.len() ==> s[i].0@ != s[j].0@
}

proof fn lemma_opened_entry(s: Seq<(String, serde_json::Value)>, i: int)
    requires
        keys_distinct(s),
        0 <= i < s.len(),
    ensures
        opened_entries(s).dom().finite(),
        opened_entries(s).dom().contains(s[i].0@),
        opened_entries(s)[s[i].0@] == value_view(s[i].1),
    decreases s.len(),
{
    let front = s.drop_last();
    assert(keys_distinct(front)) by {
        assert forall|a: int, b: int|
            #![trigger front[a], front[b]]
            0 <= a < b < front.len() implies front[a].0@ != front[b].0@ by {
            assert(front[a] == s[a] && front[b] == s[b]);
        }
    }
    if i < s.len() - 1 {
        assert(front[i] == s[i]);
        lemma_opened_entry(front, i);
        assert(s[i].0@ != s[s.len() - 1].0@);
    }
    lemma_opened_finite(s);
}

proof fn lemma_opened_finite(s: Seq<(String, serde_json::Value)>)
    ensures
        opened_entries(s).dom().finite(),
    decreases s.len(),
{
    if s.len() > 0 {
        lemma_opened_finite(s.drop_last());
    }
}

/// The map of a list of entries holds a key exactly where an entry has it.
proof fn lemma_opened_keys(s: Seq<(String, serde_json::Value)>, key: Seq<char>)
    ensures
        opened_entries(s).dom().contains(key) == exists|i: int|
            0 <= i < s.len() && (#[trigger] s[i]).0@ == key,
    decreases s.len(),
{
    if s.len() > 0 {
        let front = s.drop_last();
        lemma_opened_keys(front, key);
        assert forall|i: int| 0 <= i < front.len() implies #[trigger] front[i] == s[i] by {}
        if opened_entries(front).dom().contains(key) {
            let i = choose|i: int| 0 <= i < front.len() && (#[trigger] front[i]).0@ == key;
            assert(s[i].0@ == key);
        }
        if s.last().0@ == key {
            assert(s[s.len() - 1].0@ == key);
        } else if exists|i: int| 0 <= i < s.len() && (#[trigger] s[i]).0@ == key {
            let i = choose|i: int| 0 <= i < s.len() && (#[trigger] s[i]).0@ == key;
            assert(front[i].0@ == key);
        }
    }
}

/// Whether an entry has the key `key`.
fn holds_key(s: &Vec<(String, serde_json::Value)>, key: &str) -> (r: bool)
    ensures
        r == exists|i: int| 0 <= i < s@.len() && (#[trigger] s@[i]).0@ == key@,
{
    let mut i: usize = 0;
    while i < s.len()
        invariant
            i <= s@.len(),
            forall|k: int| 0 <= k < i ==> (#[trigger] s@[k]).0@ != key@,
        decreases s@.len() - i,
    {
        if text_eq(s[i].0.as_str(), key) {
            assert(s@[i as int].0@ == key@);
            return true;
        }
        i = i + 1;
    }
    false
}

proof fn lemma_item_smaller(j: Json, i: int)
    requires
        j is Array,
        0 <= i < j->Array_0@.len(),
    ensures
        decreases_to!(j => j->Array_0@[i]),
{
    assert(decreases_to!(j => j->Array_0));
    assert(decreases_to!(j->Array_0 => j->Array_0@));
    assert(decreases_to!(j->Array_0@ => j->Array_0@[i]));
}

proof fn lemma_entry_smaller(j: Json, i: int)
    requires
        j is Object,
        0 <= i < j->Object_0.entries@.len(),
    ensures
        decreases_to!(j => j->Object_0.entries@[i].1),
{
    let m = j->Object_0;
    assert(decreases_to!(j => j->Object_0));
    assert(decreases_to!(m => m.entries));
    assert(decreases_to!(m.entries => m.entries@));
    assert(decreases_to!(m.entries@ => m.entries@[i]));
    assert(decreases_to!(m.entries@[i] => m.entries@[i].1));
}

/// The model of a value opened by one level.
pub open spec fn opened_view(o: Opened) -> JsonView {
    match o {
        Opened::Null => JsonView::Null,
        Opened::Bool(b) => JsonView::Bool(b),
        Opened::Number(n) => JsonView::Number(n),
        Opened::Str(s) => JsonView::Str(s@),
        Opened::Array(items) => JsonView::Array(
            items@.map_values(|v: serde_json::Value| value_view(v)),
        ),
        Opened::Object(entries) => JsonView::Object(opened_entries(entries@)),
    }
}

/// The variants of `serde_json::Value`, told apart. The fields are moved; the
/// members of an object come out as a list, each key once.
#[verifier::external_body]
fn open_value(v: serde_json::Value) -> (r: Opened)
    ensures
        opened_view(r) == value_view(v),
        r matches Opened::Object(entries) ==> keys_distinct(entries@),
{
    match v {
        serde_json::Value::Null => Opened::Null,
        serde_json::Value::Bool(b) => Opened::Bool(b),
        serde_json::Value::Number(n) => Opened::Number(n),
        serde_json::Value::String(s) => Opened::Str(s),
        serde_json::Value::Array(items) => Opened::Array(items),
        serde_json::Value::Object(members) => Opened::Object(members.into_iter().collect()),
    }
}

/// The variants of `serde_json::Value`, put back. The fields are moved; the
/// entries of an object, each key once, are collected into a `serde_json::Map`.
#[verifier::external_body]
fn close_value(o: Opened) -> (r: serde_json::Value)
    requires
        o matches Opened::Object(entries) ==> keys_distinct(entries@),
    ensures
        value_view(r) == opened_view(o),
{
    match o {
        Opened::Null => serde_json::Value::Null,
        Opened::Bool(b) => serde_json::Value::Bool(b),
        Opened::Number(n) => serde_json::Value::Number(n),
        Opened::Str(s) => serde_json::Value::String(s),
        Opened::Array(items) => serde_json::Value::Array(items),
        Opened::Object(entries) => serde_json::Value::Object(entries.into_iter().collect()),
    }
}

/// What `serde_json::from_str` makes of a text: `None` where the text is not
/// one JSON value.
pub uninterp spec fn json_of_text(text: Seq<char>) -> Option<JsonView>;

/// The message with which `serde_json::from_str` rejects a text.
pub uninterp spec fn json_failure(text: Seq<char>) -> Seq<char>;

/// `serde_json::from_str::<serde_json::Value>`: the value, or the message of
/// the error, is a function of the text alone.
#[verifier::external_body]
fn parse_value(text: &str) -> (r: Result<serde_json::Value, String>)
    ensures
        match r {
            Ok(v) => json_of_text(text@) == Some(value_view(v)),
            Err(m) => json_of_text(text@) is None && m@ == json_failure(text@),
        },
{
    serde_json::from_str(text).map_err(|e| e.to_string())
}

/// The compact JSON text that `serde_json` writes for a value.
pub uninterp spec fn text_of_json(v: JsonView) -> Seq<char>;

/// `serde_json::Value`'s `Display`: compact JSON, with the members of each
/// object in the order of their keys.
#[verifier::external_body]
fn render_value(v: &serde_json::Value) -> (r: String)
    ensures
        r@ == text_of_json(value_view(*v)),
{
    v.to_string()
}

/// The `serde_json::Number` of an unsigned integer.
pub uninterp spec fn unsigned_number(n: u64) -> serde_json::Number;

/// What `serde_json::Number::as_u64` reads.
pub uninterp spec fn number_as_unsigned(n: serde_json::Number) -> Option<u64>;

/// What `serde_json::Number::as_i64` reads.
pub uninterp spec fn number_as_signed(n: serde_json::Number) -> Option<i64>;

/// `serde_json::Number::from(u64)`: reading the result as a `u64` gives the
/// integer back, and so does reading it as an `i64` where it fits.
#[verifier::external_body]
fn number_of(n: u64) -> (r: serde_json::Number)
    ensures
        r == unsigned_number(n),
        number_as_unsigned(r) == Some(n),
        number_as_signed(r) == (if n <= i64::MAX {
            Some(n as i64)
        } else {
            None
        }),
{
    serde_json::Number::from(n)
}

/// The `serde_json::Number` of a signed integer.
pub uninterp spec fn signed_number(n: i64) -> serde_json::Number;

/// `serde_json::Number::from(i64)`: reading the result as an `i64` gives the
/// integer back; reading it as a `u64` does so where it is not negative, and
/// gives nothing where it is.
#[verifier::external_body]
fn number_of_signed(n: i64) -> (r: serde_json::Number)
    ensures
        r == signed_number(n),
        number_as_unsigned(r) == (if n >= 0 {
            Some(n as u64)
        } else {
            None
        }),
        number_as_signed(r) == Some(n),
{
    serde_json::Number::from(n)
}

/// `serde_json::Number::as_u64`: the integer, where the number is a
/// non-negative integer that fits.
#[verifier::external_body]
fn number_as_u64(n: &serde_json::Number) -> (r: Option<u64>)
    ensures
        r == number_as_unsigned(*n),
{
    n.as_u64()
}

/// `serde_json::Number::as_i64`: the integer, where the number is an integer
/// that fits.
#[verifier::external_body]
fn number_as_i64(n: &serde_json::Number) -> (r: Option<i64>)
    ensures
        r == number_as_signed(*n),
{
    n.as_i64()
}

/// `<serde_json::Number as Clone>::clone`: the same number.
#[verifier::external_body]
pub(crate) fn clone_number(n: &serde_json::Number) -> (r: serde_json::Number)
    ensures
        r == *n,
{
    n.clone()
}

/// Pushing a value pushes its model.
pub broadcast proof fn lemma_items_push(s: Seq<Json>, j: Json)
    ensures
        #[trigger] items_view(s.push(j)) == items_view(s).push(j@),
{
    assert(items_view(s.push(j)) =~= items_view(s).push(j@));
}

impl JsonMap {
    /// An object without members.
    pub fn new() -> (r: JsonMap)
        ensures
            r@ == Map::<Seq<char>, JsonView>::empty(),
    {
        JsonMap { entries: Vec::new() }
    }

    /// Sets the member `key`.
    pub fn insert(&mut self, key: &str, value: Json)
        ensures
            final(self)@ == old(self)@.insert(key@, value@),
    {
        self.entries.push((key.to_owned(), value));
        assert(self.entries@.drop_last() =~= old(self).entries@);
    }

    /// The object with the member `key` set as well.
    pub fn with(self, key: &str, value: Json) -> (r: JsonMap)
        ensures
            r@ == self@.insert(key@, value@),
    {
        let mut out = self;
        out.insert(key, value);
        out
    }

    /// Sets the member `key` where there is a value for it.
    pub fn put(&mut self, key: &str, value: Option<Json>)
        ensures
            final(self)@ == put(old(self)@, key@, opt_json(value)),
    {
        match value {
            Some(v) => self.insert(key, v),
            None => {},
        }
    }

    /// A copy of the object.
    pub fn copy(&self) -> (r: JsonMap)
        ensures
            r@ == self@,
    {
        let mut out = JsonMap::new();
        out.merge(self);
        assert(Map::<Seq<char>, JsonView>::empty().union_prefer_right(self@) =~= self@);
        out
    }

    /// Sets every member of `other`, over those that are there already.
    pub fn merge(&mut self, other: &JsonMap)
        ensures
            final(self)@ == old(self)@.union_prefer_right(other@),
    {
        let mut i: usize = 0;
        assert(self@.union_prefer_right(entries_view(other.entries@.take(0))) =~= self@);
        while i < other.entries.len()
            invariant
                i <= other.entries@.len(),
                self@ == old(self)@.union_prefer_right(entries_view(other.entries@.take(i as int))),
            decreases other.entries@.len() - i,
        {
            let ghost next = other.entries@.take(i + 1);
            assert(next.drop_last() =~= other.entries@.take(i as int));
            self.insert(other.entries[i].0.as_str(), other.entries[i].1.copy());
            i = i + 1;
            assert(self@ =~= old(self)@.union_prefer_right(entries_view(next)));
        }
        assert(other.entries@.take(i as int) =~= other.entries@);
    }

    /// The member `key`, if there is one.
    pub fn get(&self, key: &str) -> (r: Option<&Json>)
        ensures
            match r {
                Some(v) => self@.dom().contains(key@) && v@ == self@[key@],
                None => !self@.dom().contains(key@),
            },
    {
        let mut i: usize = self.entries.len();
        assert(self.entries@.take(i as int) =~= self.entries@);
        while i > 0
            invariant
                i <= self.entries@.len(),
                self@.dom().contains(key@) == entries_view(self.entries@.take(i as int)).dom().contains(
                    key@,
                ),
                self@.dom().contains(key@) ==> self@[key@] == entries_view(
                    self.entries@.take(i as int),
                )[key@],
            decreases i,
        {
            i = i - 1;
            let ghost head = self.entries@.take(i + 1);
            assert(head.drop_last() =~= self.entries@.take(i as int));
            assert(head.last() == self.entries@[i as int]);
            if text_eq(self.entries[i].0.as_str(), key) {
                return Some(&self.entries[i].1);
            }
        }
        None
    }
}

impl Json {
    /// An optional text as a JSON value.
    pub fn opt_text(s: &Option<String>) -> (r: Option<Json>)
        ensures
            opt_json(r) == opt_str(crate::text::opt_text(*s)),
    {
        match s {
            Some(t) => Some(Json::text(t.as_str())),
            None => None,
        }
    }

    /// A JSON string.
    pub fn text(s: &str) -> (r: Json)
        ensures
            r@ == JsonView::Str(s@),
    {
        Json::Str(s.to_owned())
    }

    /// A JSON integer.
    pub fn uint(n: u64) -> (r: Json)
        ensures
            r@ == json_uint(n),
            number_as_unsigned(unsigned_number(n)) == Some(n),
            number_as_signed(unsigned_number(n)) == (if n <= i64::MAX {
                Some(n as i64)
            } else {
                None
            }),
    {
        Json::Number(number_of(n))
    }

    /// A JSON integer that may be negative.
    pub fn sint(n: i64) -> (r: Json)
        ensures
            r@ == JsonView::Number(signed_number(n)),
            number_as_unsigned(signed_number(n)) == (if n >= 0 {
                Some(n as u64)
            } else {
                None
            }),
            number_as_signed(signed_number(n)) == Some(n),
    {
        Json::Number(number_of_signed(n))
    }

    /// The member `key`, where the value is an object that has one.
    pub fn get(&self, key: &str) -> (r: Option<&Json>)
        ensures
            match r {
                Some(v) => member(self@, key@) == Some(v@),
                None => member(self@, key@) is None,
            },
    {
        match self {
            Json::Object(m) => m.get(key),
            _ => None,
        }
    }

    /// The text, where the value is a string.
    pub fn as_str(&self) -> (r: Option<&str>)
        ensures
            match r {
                Some(s) => self@ == JsonView::Str(s@),
                None => !(self@ is Str),
            },
    {
        match self {
            Json::Str(s) => Some(s.as_str()),
            _ => None,
        }
    }

    /// The integer, where the value is a number that `serde_json` reads as a
    /// `u64`.
    pub fn as_u64(&self) -> (r: Option<u64>)
        ensures
            r == json_as_u64(self@),
    {
        match self {
            Json::Number(n) => number_as_u64(n),
            _ => None,
        }
    }

    /// The integer, where the value is a number that `serde_json` reads as an
    /// `i64`.
    pub fn as_i64(&self) -> (r: Option<i64>)
        ensures
            r == json_as_i64(self@),
    {
        match self {
            Json::Number(n) => number_as_i64(n),
            _ => None,
        }
    }

    /// A copy of the value.
    pub fn copy(&self) -> (r: Json)
        ensures
            r@ == self@,
        decreases self,
    {
        match self {
            Json::Null => Json::Null,
            Json::Bool(b) => Json::Bool(*b),
            Json::Number(n) => Json::Number(clone_number(n)),
            Json::Str(s) => Json::Str(s.clone()),
            Json::Array(items) => {
                let mut out: Vec<Json> = Vec::new();
                let mut i: usize = 0;
                while i < items.len()
                    invariant
                        self == Json::Array(*items),
                        i <= items@.len(),
                        out@.len() == i,
                        forall|k: int| 0 <= k < i ==> json_view(#[trigger] out@[k]) == json_view(items@[k]),
                    decreases items@.len() - i,
                {
                    proof {
                        lemma_item_smaller(*self, i as int);
                    }
                    out.push(items[i].copy());
                    i = i + 1;
                }
                assert(items_view(out@) =~= items_view(items@));
                Json::Array(out)
            },
            Json::Object(m) => {
                let mut out: Vec<(String, Json)> = Vec::new();
                let mut i: usize = 0;
                while i < m.entries.len()
                    invariant
                        self == Json::Object(*m),
                        i <= m.entries@.len(),
                        out@.len() == i,
                        entries_view(out@) == entries_view(m.entries@.take(i as int)),
                    decreases m.entries@.len() - i,
                {
                    let ghost before = out@;
                    proof {
                        lemma_entry_smaller(*self, i as int);
                    }
                    out.push((m.entries[i].0.clone(), m.entries[i].1.copy()));
                    i = i + 1;
                    assert(out@.drop_last() =~= before);
                    assert(m.entries@.take(i as int).drop_last() =~= m.entries@.take(i - 1));
                }
                assert(m.entries@.take(i as int) =~= m.entries@);
                Json::Object(JsonMap { entries: out })
            },
        }
    }

    /// The value as `serde_json` holds it. An entry of an object that a later
    /// one shadows is left out.
    pub fn into_value(self) -> (r: serde_json::Value)
        ensures
            value_view(r) == self@,
        decreases self,
    {
        match self {
            Json::Null => close_value(Opened::Null),
            Json::Bool(b) => close_value(Opened::Bool(b)),
            Json::Number(n) => close_value(Opened::Number(n)),
            Json::Str(s) => close_value(Opened::Str(s)),
            Json::Array(items) => {
                let mut rest = items;
                let mut out: Vec<serde_json::Value> = Vec::new();
                while rest.len() > 0
                    invariant
                        self == Json::Array(items),
                        rest@.len() + out@.len() == items@.len(),
                        forall|k: int| 0 <= k < rest@.len() ==> #[trigger] rest@[k] == items@[out@.len() + k],
                        forall|k: int|
                            0 <= k < out@.len() ==> value_view(#[trigger] out@[k]) == json_view(items@[k]),
                    decreases rest@.len(),
                {
                    let item = rest.remove(0);
                    assert(item == items@[out@.len() as int]);
                    proof {
                        lemma_item_smaller(self, out@.len() as int);
                    }
                    out.push(item.into_value());
                }
                assert(out@.map_values(|v: serde_json::Value| value_view(v)) =~= items_view(items@));
                close_value(Opened::Array(out))
            },
            Json::Object(m) => {
                let mut rest = m.entries;
                let mut out: Vec<(String, serde_json::Value)> = Vec::new();
                assert(entries_view(rest@).union_prefer_right(opened_entries(out@))
                    =~= entries_view(m.entries@));
                while rest.len() > 0
                    invariant
                        self == Json::Object(m),
                        rest@.len() <= m.entries@.len(),
                        rest@ == m.entries@.take(rest@.len() as int),
                        keys_distinct(out@),
                        entries_view(rest@).union_prefer_right(opened_entries(out@))
                            == entries_view(m.entries@),
                    decreases rest@.len(),
                {
                    let ghost before = rest@;
                    let ghost kept = out@;
                    match rest.pop() {
                        Some((key, item)) => {
                            assert((key, item) == before.last());
                            assert(before.last() == m.entries@[before.len() - 1]);
                            assert(rest@ =~= m.entries@.take(rest@.len() as int));
                            assert(rest@ =~= before.drop_last());
                            if !holds_key(&out, key.as_str()) {
                                proof {
                                    lemma_entry_smaller(self, rest@.len() as int);
                                    lemma_opened_keys(kept, key@);
                                }
                                out.push((key, item.into_value()));
                                assert(out@.drop_last() =~= kept);
                            } else {
                                proof {
                                    lemma_opened_keys(kept, key@);
                                }
                            }
                            assert(entries_view(rest@).union_prefer_right(opened_entries(out@))
                                =~= entries_view(before).union_prefer_right(opened_entries(kept)));
                        },
                        None => {},
                    }
                }
                assert(entries_view(rest@).union_prefer_right(opened_entries(out@))
                    =~= opened_entries(out@));
                close_value(Opened::Object(out))
            },
        }
    }

    /// The value that `serde_json` holds.
    pub fn from_value(value: serde_json::Value) -> (r: Json)
        ensures
            r@ == value_view(value),
        decreases value_view(value),
    {
        match open_value(value) {
            Opened::Null => Json::Null,
            Opened::Bool(b) => Json::Bool(b),
            Opened::Number(n) => Json::Number(n),
            Opened::Str(s) => Json::Str(s),
            Opened::Array(items) => {
                let ghost model = items@.map_values(|v: serde_json::Value| value_view(v));
                let mut rest = items;
                let mut out: Vec<Json> = Vec::new();
                while rest.len() > 0
                    invariant
                        value_view(value) == JsonView::Array(model),
                        rest@.len() + out@.len() == model.len(),
                        forall|k: int|
                            0 <= k < rest@.len() ==> value_view(#[trigger] rest@[k]) == model[out@.len() + k],
                        forall|k: int| 0 <= k < out@.len() ==> json_view(#[trigger] out@[k]) == model[k],
                    decreases rest@.len(),
                {
                    let item = rest.remove(0);
                    assert(value_view(item) == model[out@.len() as int]);
                    assert(decreases_to!(value_view(value) => value_view(value)->Array_0));
                    assert(decreases_to!(model => model[out@.len() as int]));
                    out.push(Json::from_value(item));
                }
                assert(items_view(out@) =~= model);
                Json::Array(out)
            },
            Opened::Object(entries) => {
                let ghost model = opened_entries(entries@);
                let mut rest = entries;
                let mut out: Vec<(String, Json)> = Vec::new();
                while rest.len() > 0
                    invariant
                        value_view(value) == JsonView::Object(model),
                        model == opened_entries(entries@),
                        keys_distinct(entries@),
                        rest@.len() + out@.len() == entries@.len(),
                        forall|k: int| 0 <= k < rest@.len() ==> #[trigger] rest@[k] == entries@[out@.len() + k],
                        entries_view(out@) == opened_entries(entries@.take(out@.len() as int)),
                    decreases rest@.len(),
                {
                    let ghost before = out@;
                    let (key, item) = rest.remove(0);
                    assert((key, item) == entries@[out@.len() as int]);
                    proof {
                        lemma_opened_entry(entries@, out@.len() as int);
                        assert(decreases_to!(value_view(value) => value_view(value)->Object_0));
                        assert(decreases_to!(model => model[key@]));
                    }
                    out.push((key, Json::from_value(item)));
                    assert(out@.drop_last() =~= before);
                    assert(entries@.take(out@.len() as int).drop_last() =~= entries@.take(
                        out@.len() - 1,
                    ));
                }
                assert(entries@.take(out@.len() as int) =~= entries@);
                Json::Object(JsonMap { entries: out })
            },
        }
    }

    /// The value that a JSON text stands for.
    pub fn parse(text: &str) -> (r: Result<Json, String>)
        ensures
            match r {
                Ok(j) => json_of_text(text@) == Some(j@),
                Err(m) => json_of_text(text@) is None && m@ == json_failure(text@),
            },
    {
        match parse_value(text) {
            Ok(v) => Ok(Json::from_value(v)),
            Err(e) => Err(e),
        }
    }

    /// The compact JSON text of the value.
    pub fn to_text(&self) -> (r: String)
        ensures
            r@ == text_of_json(self@),
    {
        let value = self.copy().into_value();
        render_value(&value)
    }
}

/// The members with `key` set where there is a value for it.
pub open spec fn put(
    m: Map<Seq<char>, JsonView>,
    key: Seq<char>,
    value: Option<JsonView>,
) -> Map<Seq<char>, JsonView> {
    match value {
        Some(v) => m.insert(key, v),
        None => m,
    }
}

/// The object of no member.
pub open spec fn no_members() -> Map<Seq<char>, JsonView> {
    Map::empty()
}

/// The object of one member.
pub open spec fn object1(k: Seq<char>, v: JsonView) -> JsonView {
    JsonView::Object(no_members().insert(k, v))
}

/// The object of two members.
pub open spec fn object2(k1: Seq<char>, v1: JsonView, k2: Seq<char>, v2: JsonView) -> JsonView {
    JsonView::Object(no_members().insert(k1, v1).insert(k2, v2))
}

/// The object of three members.
pub open spec fn object3(
    k1: Seq<char>,
    v1: JsonView,
    k2: Seq<char>,
    v2: JsonView,
    k3: Seq<char>,
    v3: JsonView,
) -> JsonView {
    JsonView::Object(no_members().insert(k1, v1).insert(k2, v2).insert(k3, v3))
}

/// The object of four members.
pub open spec fn object4(
    k1: Seq<char>,
    v1: JsonView,
    k2: Seq<char>,
    v2: JsonView,
    k3: Seq<char>,
    v3: JsonView,
    k4: Seq<char>,
    v4: JsonView,
) -> JsonView {
    JsonView::Object(no_members().insert(k1, v1).insert(k2, v2).insert(k3, v3).insert(k4, v4))
}

/// An optional text as a JSON value.
pub open spec fn opt_str(s: Option<Seq<char>>) -> Option<JsonView> {
    match s {
        Some(t) => Some(JsonView::Str(t)),
        None => None,
    }
}

/// An integer as a JSON value.
pub open spec fn json_uint(n: u64) -> JsonView {
    JsonView::Number(unsigned_number(n))
}

/// The member `key` of a JSON object.
pub open spec fn member(j: JsonView, key: Seq<char>) -> Option<JsonView> {
    match j {
        JsonView::Object(m) => if m.dom().contains(key) {
            Some(m[key])
        } else {
            None
        },
        _ => None,
    }
}

/// The unsigned integer that a JSON value reads as.
pub open spec fn json_as_u64(j: JsonView) -> Option<u64> {
    match j {
        JsonView::Number(n) => number_as_unsigned(n),
        _ => None,
    }
}

/// The signed integer that a JSON value reads as.
pub open spec fn json_as_i64(j: JsonView) -> Option<i64> {
    match j {
        JsonView::Number(n) => number_as_signed(n),
        _ => None,
    }
}

/// The last entry for a key counts, and a key without an entry is not a
/// member.
pub proof fn law_last_entry_counts(s: Seq<(String, Json)>, key: Seq<char>)
    ensures
        ({
            let given = s.filter(|e: (String, Json)| e.0@ == key);
            &&& entries_view(s).dom().contains(key) <==> given.len() > 0
            &&& given.len() > 0 ==> entries_view(s)[key] == given.last().1@
        }),
    decreases s.len(),
{
    reveal(Seq::filter);
    if s.len() > 0 {
        law_last_entry_counts(s.drop_last(), key);
    }
}

/// A value that is put is read back, a missing one changes nothing, and no
/// other member changes.
pub proof fn law_put_reads_back(
    m: Map<Seq<char>, JsonView>,
    key: Seq<char>,
    value: Option<JsonView>,
    other: Seq<char>,
)
    ensures
        value is Some ==> member(JsonView::Object(put(m, key, value)), key) == value,
        value is None ==> put(m, key, value) == m,
        other != key ==> member(JsonView::Object(put(m, key, value)), other) == member(
            JsonView::Object(m),
            other,
        ),
{
}

} // verus!
