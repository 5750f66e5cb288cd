//! What deriving a tool from a structure settles: the name, the description
//! and the risk of the tool.

use vstd::prelude::*;
use crate::text::{chars_of, join2, lemma_flat_map_last, opt_text, text_eq};
use crate::tool::ToolRisk;

verus! {

/// Whether `char::is_uppercase` holds of a character.
pub uninterp spec fn is_upper(c: char) -> bool;

/// `char::is_uppercase`: among the ASCII characters, exactly the letters `A`
/// to `Z` are upper case.
pub assume_specification[ char::is_uppercase ](c: char) -> (r: bool)
    ensures
        r == is_upper(c),
        (c as u32) < 128 ==> r == ('A' <= c <= 'Z'),
;

/// The text that `char::to_lowercase` makes of a character.
pub uninterp spec fn lower_text(c: char) -> Seq<char>;

/// The lower-case letter of an upper-case ASCII letter.
pub open spec fn ascii_lower(c: char) -> char {
    ((c as u32 + 32) as u8) as char
}

/// `char::to_lowercase`: the letters `A` to `Z` become the letters `a` to `z`.
#[verifier::external_body]
fn lower(c: char) -> (r: String)
    ensures
        r@ == lower_text(c),
        'A' <= c <= 'Z' ==> r@ == seq![ascii_lower(c)],
{
    c.to_lowercase().to_string()
}

/// What becomes of a character: an upper-case one is put in lower case, behind
/// an underscore where it is not the first.
pub open spec fn snake_piece(c: char, first: bool) -> Seq<char> {
    if is_upper(c) {
        if first {
            lower_text(c)
        } else {
            seq!['_'] + lower_text(c)
        }
    } else {
        seq![c]
    }
}

/// A name with its upper-case characters put in lower case, each but the first
/// character of the name behind an underscore.
pub open spec fn snake(s: Seq<char>) -> Seq<char>
    decreases s.len(),
{
    if s.len() == 0 {
        Seq::empty()
    } else {
        snake(s.drop_last()) + snake_piece(s.last(), s.len() == 1)
    }
}

/// Whether all characters are ASCII characters.
pub open spec fn is_ascii(s: Seq<char>) -> bool {
    forall|i: int| 0 <= i < s.len() ==> (#[trigger] s[i] as u32) < 128
}

/// What becomes of an ASCII character.
pub open spec fn ascii_piece(c: char, first: bool) -> Seq<char> {
    if 'A' <= c <= 'Z' {
        if first {
            seq![ascii_lower(c)]
        } else {
            seq!['_', ascii_lower(c)]
        }
    } else {
        seq![c]
    }
}

/// What becomes of a name of ASCII characters.
pub open spec fn ascii_snake(s: Seq<char>) -> Seq<char>
    decreases s.len(),
{
    if s.len() == 0 {
        Seq::empty()
    } else {
        ascii_snake(s.drop_last()) + ascii_piece(s.last(), s.len() == 1)
    }
}

/// A name in snake case.
pub fn snake_case(s: &str) -> (r: String)
    ensures
        r@ == snake(s@),
        is_ascii(s@) ==> r@ == ascii_snake(s@),
{
    let chars = chars_of(s);
    let mut out = String::new();
    let mut i: usize = 0;
    assert(chars@.take(0) =~= Seq::<char>::empty());
    while i < chars.len()
        invariant
            i <= chars@.len(),
            chars@ == s@,
            out@ == snake(s@.take(i as int)),
            is_ascii(s@) ==> out@ == ascii_snake(s@.take(i as int)),
        decreases chars@.len() - i,
    {
        let ghost before = out@;
        let ghost next = s@.take(i + 1);
        assert(next.drop_last() =~= s@.take(i as int));
        let c = chars[i];
        assert(next.last() == c);
        if c.is_uppercase() {
            if i > 0 {
                out.push('_');
            }
            let small = lower(c);
            out.append(small.as_str());
        } else {
            out.push(c);
        }
        assert(out@ =~= before + snake_piece(c, i == 0));
        proof {
            if is_ascii(s@) {
                assert((s@[i as int] as u32) < 128);
                assert(out@ =~= before + ascii_piece(c, i == 0));
            }
        }
        i = i + 1;
    }
    assert(s@.take(i as int) =~= s@);
    out
}

/// One `key = value` of a tool attribute; the value is there where it is a
/// string literal.
#[derive(Debug)]
pub struct Setting {
    pub key: String,
    pub value: Option<String>,
}

/// The model of a setting.
pub ghost struct SettingView {
    pub key: Seq<char>,
    pub value: Option<Seq<char>>,
}

impl View for Setting {
    type V = SettingView;

    open spec fn view(&self) -> SettingView {
        SettingView { key: self.key@, value: opt_text(self.value) }
    }
}

/// The models of settings.
pub open spec fn setting_views(s: Seq<Setting>) -> Seq<SettingView> {
    s.map_values(|x: Setting| x@)
}

/// One tool attribute of a structure.
#[derive(Debug)]
pub enum ToolAttribute {
    Settings(Vec<Setting>),
    /// The attribute has no list in parentheses.
    NotAList,
    /// The list cannot be read, for this reason.
    Unreadable(String),
}

/// Why a tool cannot be derived. The first two say at which attribute.
#[derive(Debug, PartialEq, Eq)]
pub enum DeriveError {
    NotAList(usize),
    Unreadable(usize, String),
    MissingDescription,
    UnknownRisk(String),
}

impl DeriveError {
    /// The message shown for the error.
    pub open spec fn message(&self) -> Seq<char> {
        match self {
            DeriveError::NotAList(i) => "expected #[tool(...)]"@,
            DeriveError::Unreadable(i, reason) => reason@,
            DeriveError::MissingDescription =>
                "#[derive(Tool)] requires #[tool(description = \"...\")]"@,
            DeriveError::UnknownRisk(other) => "unknown risk level `"@ + other@
                + "`; expected \"readonly\", \"file_write\", or \"dangerous\""@,
        }
    }

    /// The message shown for the error.
    pub fn to_message(&self) -> (r: String)
        ensures
            r@ == self.message(),
    {
        match self {
            DeriveError::NotAList(_) => "expected #[tool(...)]".to_owned(),
            DeriveError::Unreadable(_, reason) => reason.as_str().to_owned(),
            DeriveError::MissingDescription =>
                "#[derive(Tool)] requires #[tool(description = \"...\")]".to_owned(),
            DeriveError::UnknownRisk(other) => {
                let mut out = join2("unknown risk level `", other.as_str());
                out.append("`; expected \"readonly\", \"file_write\", or \"dangerous\"");
                out
            },
        }
    }
}

/// What was derived.
#[derive(Debug)]
pub struct DerivedTool {
    pub name: String,
    pub description: String,
    pub risk: ToolRisk,
}

/// Whether an attribute can be used.
pub open spec fn is_usable(a: ToolAttribute) -> bool {
    a is Settings
}

/// The settings of attributes, one after the other.
pub open spec fn all_settings(s: Seq<ToolAttribute>) -> Seq<SettingView>
    decreases s.len(),
{
    if s.len() == 0 {
        Seq::empty()
    } else {
        match s.last() {
            ToolAttribute::Settings(list) => all_settings(s.drop_last()) + setting_views(list@),
            _ => all_settings(s.drop_last()),
        }
    }
}

/// The value of a key: that of the last setting which gives it one.
pub open spec fn value_of(s: Seq<SettingView>, key: Seq<char>) -> Option<Seq<char>>
    decreases s.len(),
{
    if s.len() == 0 {
        None
    } else if s.last().key == key && s.last().value is Some {
        s.last().value
    } else {
        value_of(s.drop_last(), key)
    }
}

/// The risk that a setting names; a tool that names none is dangerous.
pub open spec fn risk_of(value: Option<Seq<char>>) -> Option<ToolRisk> {
    match value {
        None => Some(ToolRisk::Dangerous),
        Some(v) => if v == "readonly"@ {
            Some(ToolRisk::ReadOnly)
        } else if v == "file_write"@ {
            Some(ToolRisk::FileWrite)
        } else if v == "dangerous"@ {
            Some(ToolRisk::Dangerous)
        } else {
            None
        },
    }
}

/// Whether `i` is the first attribute that cannot be used.
pub open spec fn first_unusable(s: Seq<ToolAttribute>, i: int) -> bool {
    &&& 0 <= i < s.len()
    &&& !is_usable(s[i])
    &&& forall|k: int| 0 <= k < i ==> is_usable(#[trigger] s[k])
}

fn collect_settings(attrs: Vec<ToolAttribute>) -> (r: Result<Vec<Setting>, DeriveError>)
    ensures
        match r {
            Ok(list) => setting_views(list@) == all_settings(attrs@) && forall|k: int|
                0 <= k < attrs@.len() ==> is_usable(#[trigger] attrs@[k]),
            Err(e) => match e {
                DeriveError::NotAList(i) => first_unusable(attrs@, i as int)
                    && attrs@[i as int] is NotAList,
                DeriveError::Unreadable(i, reason) => first_unusable(attrs@, i as int)
                    && attrs@[i as int] == ToolAttribute::Unreadable(reason),
                _ => false,
            },
        },
{
    let n: usize = attrs.len();
    let mut rest = attrs;
    let mut out: Vec<Setting> = Vec::new();
    let mut i: usize = 0;
    assert(setting_views(out@) =~= all_settings(attrs@.take(0)));
    while i < n
        invariant
            i <= n,
            n == attrs@.len(),
            rest@ == attrs@.skip(i as int),
            forall|k: int| 0 <= k < i ==> is_usable(#[trigger] attrs@[k]),
            setting_views(out@) == all_settings(attrs@.take(i as int)),
        decreases n - i,
    {
        let ghost next = attrs@.take(i + 1);
        let ghost before = out@;
        assert(next.drop_last() =~= attrs@.take(i as int));
        let attr = rest.remove(0);
        assert(attr == attrs@[i as int]);
        assert(next.last() == attr);
        match attr {
            ToolAttribute::Settings(list) => {
                let mut more = list;
                let ghost added = more@;
                out.append(&mut more);
                assert(setting_views(out@) =~= setting_views(before) + setting_views(added));
            },
            ToolAttribute::NotAList => {
                return Err(DeriveError::NotAList(i));
            },
            ToolAttribute::Unreadable(reason) => {
                return Err(DeriveError::Unreadable(i, reason));
            },
        }
        i = i + 1;
        assert(rest@ =~= attrs@.skip(i as int));
    }
    assert(attrs@.take(i as int) =~= attrs@);
    Ok(out)
}

fn find_value(list: &Vec<Setting>, key: &str) -> (r: Option<String>)
    ensures
        opt_text(r) == value_of(setting_views(list@), key@),
{
    let ghost views = setting_views(list@);
    let mut found: Option<String> = None;
    let mut i: usize = 0;
    assert(views.take(0) =~= Seq::<SettingView>::empty());
    while i < list.len()
        invariant
            i <= list@.len(),
            views == setting_views(list@),
            opt_text(found) == value_of(views.take(i as int), key@),
        decreases list@.len() - i,
    {
        let ghost next = views.take(i + 1);
        assert(next.drop_last() =~= views.take(i as int));
        assert(next.last() == list@[i as int]@);
        if text_eq(list[i].key.as_str(), key) {
            match &list[i].value {
                Some(v) => {
                    found = Some(v.as_str().to_owned());
                },
                None => {},
            }
        }
        i = i + 1;
    }
    assert(views.take(i as int) =~= views);
    found
}

/// What deriving a tool from the structure `struct_name` with these tool
/// attributes settles.
pub fn derive_tool(struct_name: &str, attrs: Vec<ToolAttribute>) -> (r: Result<
    DerivedTool,
    DeriveError,
>)
    ensures
        match r {
            Ok(tool) => {
                let all = all_settings(attrs@);
                &&& forall|k: int| 0 <= k < attrs@.len() ==> is_usable(#[trigger] attrs@[k])
                &&& value_of(all, "description"@) == Some(tool.description@)
                &&& match value_of(all, "name"@) {
                    Some(name) => tool.name@ == name,
                    None => tool.name@ == snake(struct_name@) && (is_ascii(struct_name@)
                        ==> tool.name@ == ascii_snake(struct_name@)),
                }
                &&& risk_of(value_of(all, "risk"@)) == Some(tool.risk)
            },
            Err(DeriveError::NotAList(i)) => first_unusable(attrs@, i as int)
                && attrs@[i as int] is NotAList,
            Err(DeriveError::Unreadable(i, reason)) => first_unusable(attrs@, i as int)
                && attrs@[i as int] == ToolAttribute::Unreadable(reason),
            Err(DeriveError::MissingDescription) => {
                &&& forall|k: int| 0 <= k < attrs@.len() ==> is_usable(#[trigger] attrs@[k])
                &&& value_of(all_settings(attrs@), "description"@) is None
            },
            Err(DeriveError::UnknownRisk(other)) => {
                &&& forall|k: int| 0 <= k < attrs@.len() ==> is_usable(#[trigger] attrs@[k])
                &&& value_of(all_settings(attrs@), "description"@) is Some
                &&& value_of(all_settings(attrs@), "risk"@) == Some(other@)
                &&& risk_of(Some(other@)) is None
            },
        },
{
    let settings = match collect_settings(attrs) {
        Ok(list) => list,
        Err(e) => {
            return Err(e);
        },
    };
    let description = match find_value(&settings, "description") {
        Some(d) => d,
        None => {
            return Err(DeriveError::MissingDescription);
        },
    };
    let name = match find_value(&settings, "name") {
        Some(n) => n,
        None => snake_case(struct_name),
    };
    let risk = match find_value(&settings, "risk") {
        None => ToolRisk::Dangerous,
        Some(v) => if text_eq(v.as_str(), "readonly") {
            ToolRisk::ReadOnly
        } else if text_eq(v.as_str(), "file_write") {
            ToolRisk::FileWrite
        } else if text_eq(v.as_str(), "dangerous") {
            ToolRisk::Dangerous
        } else {
            return Err(DeriveError::UnknownRisk(v));
        },
    };
    Ok(DerivedTool { name, description, risk })
}

/// Whether a text holds an upper-case ASCII letter.
pub open spec fn has_capital(s: Seq<char>) -> bool {
    exists|i: int| 0 <= i < s.len() && 'A' <= #[trigger] s[i] <= 'Z'
}

/// A name of ASCII characters has no capitals in snake case.
pub proof fn law_snake_case_has_no_capitals(s: Seq<char>)
    requires
        is_ascii(s),
    ensures
        !has_capital(ascii_snake(s)),
    decreases s.len(),
{
    if s.len() > 0 {
        let front = s.drop_last();
        assert forall|i: int| 0 <= i < front.len() implies (#[trigger] front[i] as u32) < 128 by {
            assert(front[i] == s[i]);
        }
        law_snake_case_has_no_capitals(front);
        let piece = ascii_piece(s.last(), s.len() == 1);
        let all = ascii_snake(s);
        assert forall|i: int| 0 <= i < all.len() implies !('A' <= #[trigger] all[i] <= 'Z') by {
            if i < ascii_snake(front).len() {
                assert(all[i] == ascii_snake(front)[i]);
            } else {
                assert(all[i] == piece[i - ascii_snake(front).len()]);
            }
        }
    }
}

/// A name without capitals is in snake case already.
pub proof fn law_snake_case_keeps_lower_case(s: Seq<char>)
    requires
        !has_capital(s),
    ensures
        ascii_snake(s) == s,
    decreases s.len(),
{
    if s.len() > 0 {
        let front = s.drop_last();
        assert forall|i: int| 0 <= i < front.len() implies !('A' <= #[trigger] front[i] <= 'Z') by {
            assert(front[i] == s[i]);
        }
        law_snake_case_keeps_lower_case(front);
        assert(!('A' <= s[s.len() - 1] <= 'Z'));
        assert(front + seq![s.last()] =~= s);
    }
}

/// The settings of attributes are all that their lists hold, in order.
pub proof fn law_settings_are_all_that_is_listed(s: Seq<ToolAttribute>)
    ensures
        all_settings(s) == s.flat_map(
            |a: ToolAttribute|
                match a {
                    ToolAttribute::Settings(list) => setting_views(list@),
                    _ => Seq::empty(),
                },
        ),
    decreases s.len(),
{
    let f = |a: ToolAttribute|
        match a {
            ToolAttribute::Settings(list) => setting_views(list@),
            _ => Seq::empty(),
        };
    if s.len() > 0 {
        law_settings_are_all_that_is_listed(s.drop_last());
        lemma_flat_map_last(s, f);
        assert(all_settings(s.drop_last()) + Seq::<SettingView>::empty() =~= all_settings(
            s.drop_last(),
        ));
    }
}

/// The last value that is given for a key counts, and there is none exactly
/// where none is given.
pub proof fn law_last_value_counts(s: Seq<SettingView>, key: Seq<char>)
    ensures
        ({
            let given = s.filter(|x: SettingView| x.key == key && x.value is Some);
            value_of(s, key) == if given.len() > 0 {
                given.last().value
            } else {
                None
            }
        }),
    decreases s.len(),
{
    reveal(Seq::filter);
    if s.len() > 0 {
        law_last_value_counts(s.drop_last(), key);
    }
}

/// Each risk has one name, no risk named is the gravest, and any other name is
/// refused.
pub proof fn law_risks_have_one_name(value: Option<Seq<char>>)
    ensures
        risk_of(value) == Some(ToolRisk::ReadOnly) <==> value == Some("readonly"@),
        risk_of(value) == Some(ToolRisk::FileWrite) <==> value == Some("file_write"@),
        risk_of(value) == Some(ToolRisk::Dangerous) <==> value is None || value == Some(
            "dangerous"@,
        ),
{
    reveal_strlit("readonly");
    reveal_strlit("file_write");
    reveal_strlit("dangerous");
    assert("readonly"@.len() == 8 && "file_write"@.len() == 10 && "dangerous"@.len() == 9);
}

/// In snake case every capital is small, with an underscore in front of it
/// unless it comes first; every other character is as it was.
pub proof fn law_snake_case_letter_by_letter(s: Seq<char>)
    requires
        s.len() > 0,
    ensures
        snake(s) == (if is_upper(s[0]) {
            lower_text(s[0])
        } else {
            seq![s[0]]
        }) + s.skip(1).flat_map(
            |c: char|
                if is_upper(c) {
                    seq!['_'] + lower_text(c)
                } else {
                    seq![c]
                },
        ),
        ascii_snake(s) == (if 'A' <= s[0] <= 'Z' {
            seq![((s[0] as u32 + 32) as u8) as char]
        } else {
            seq![s[0]]
        }) + s.skip(1).flat_map(
            |c: char|
                if 'A' <= c <= 'Z' {
                    seq!['_', ((c as u32 + 32) as u8) as char]
                } else {
                    seq![c]
                },
        ),
    decreases s.len(),
{
    let f = |c: char|
        if is_upper(c) {
            seq!['_'] + lower_text(c)
        } else {
            seq![c]
        };
    let g = |c: char|
        if 'A' <= c <= 'Z' {
            seq!['_', ((c as u32 + 32) as u8) as char]
        } else {
            seq![c]
        };
    let front = s.drop_last();
    if s.len() == 1 {
        assert(s.skip(1).flat_map(f) =~= Seq::empty());
        assert(s.skip(1).flat_map(g) =~= Seq::empty());
        assert(snake(front) =~= Seq::empty());
        assert(ascii_snake(front) =~= Seq::empty());
        assert(snake(s) =~= snake_piece(s[0], true));
        assert(ascii_snake(s) =~= ascii_piece(s[0], true));
    } else {
        law_snake_case_letter_by_letter(front);
        assert(front[0] == s[0]);
        assert(s.skip(1).drop_last() =~= front.skip(1));
        assert(s.skip(1).last() == s.last());
        lemma_flat_map_last(s.skip(1), f);
        lemma_flat_map_last(s.skip(1), g);
        assert(snake(s) =~= snake(front) + f(s.last()));
        assert(ascii_snake(s) =~= ascii_snake(front) + g(s.last()));
    }
}

} // verus!
