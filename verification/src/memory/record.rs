//! Records and queries.

use vstd::prelude::*;
use crate::mcp::{is_listed, listed};
use crate::text::{clone_opt, copy_texts, join, join2, joined, opt_text, text_eq, texts};

verus! {

/// Whom a record belongs to.
#[derive(Debug, PartialEq, Eq)]
pub enum MemoryScope {
    User(String),
    Project(String),
}

/// The model of a scope.
pub ghost enum ScopeView {
    User(Seq<char>),
    Project(Seq<char>),
}

impl View for MemoryScope {
    type V = ScopeView;

    open spec fn view(&self) -> ScopeView {
        match self {
            MemoryScope::User(k) => ScopeView::User(k@),
            MemoryScope::Project(k) => ScopeView::Project(k@),
        }
    }
}

/// The kind of a scope.
pub open spec fn scope_kind(s: ScopeView) -> Seq<char> {
    match s {
        ScopeView::User(_) => "user"@,
        ScopeView::Project(_) => "project"@,
    }
}

/// The key of a scope within its kind.
pub open spec fn scope_key(s: ScopeView) -> Seq<char> {
    match s {
        ScopeView::User(k) => k,
        ScopeView::Project(k) => k,
    }
}

/// The scope of a kind and a key.
pub open spec fn scope_of(kind: Seq<char>, key: Seq<char>) -> Option<ScopeView> {
    if kind == "user"@ {
        Some(ScopeView::User(key))
    } else if kind == "project"@ {
        Some(ScopeView::Project(key))
    } else {
        None
    }
}

impl MemoryScope {
    /// The kind of the scope.
    pub fn kind(&self) -> (r: &'static str)
        ensures
            r@ == scope_kind(self@),
    {
        match self {
            MemoryScope::User(_) => "user",
            MemoryScope::Project(_) => "project",
        }
    }

    /// The key of the scope within its kind.
    pub fn key(&self) -> (r: &str)
        ensures
            r@ == scope_key(self@),
    {
        match self {
            MemoryScope::User(k) => k.as_str(),
            MemoryScope::Project(k) => k.as_str(),
        }
    }

    /// The scope of a kind and a key, where the kind is known.
    pub fn from_parts(kind: &str, key: &str) -> (r: Option<MemoryScope>)
        ensures
            match r {
                Some(s) => scope_of(kind@, key@) == Some(s@),
                None => scope_of(kind@, key@) is None,
            },
    {
        if text_eq(kind, "user") {
            Some(MemoryScope::User(key.to_owned()))
        } else if text_eq(kind, "project") {
            Some(MemoryScope::Project(key.to_owned()))
        } else {
            None
        }
    }

    /// A copy of the scope.
    pub fn copy(&self) -> (r: MemoryScope)
        ensures
            r@ == self@,
    {
        match self {
            MemoryScope::User(k) => MemoryScope::User(k.clone()),
            MemoryScope::Project(k) => MemoryScope::Project(k.clone()),
        }
    }

    /// Whether two scopes are the same.
    pub fn same(&self, other: &MemoryScope) -> (r: bool)
        ensures
            r == (self@ == other@),
    {
        match (self, other) {
            (MemoryScope::User(a), MemoryScope::User(b)) => text_eq(a.as_str(), b.as_str()),
            (MemoryScope::Project(a), MemoryScope::Project(b)) => text_eq(a.as_str(), b.as_str()),
            _ => false,
        }
    }
}

/// A scope is read back from its kind and its key.
pub proof fn law_scope_reads_back(s: ScopeView)
    ensures
        scope_of(scope_kind(s), scope_key(s)) == Some(s),
{
    reveal_strlit("user");
    reveal_strlit("project");
    assert("user"@.len() != "project"@.len());
}

/// The models of scopes.
pub open spec fn scope_views(s: Seq<MemoryScope>) -> Seq<ScopeView> {
    s.map_values(|x: MemoryScope| x@)
}

/// Whether a list of scopes holds a scope.
pub fn holds_scope(scopes: &Vec<MemoryScope>, scope: &MemoryScope) -> (r: bool)
    ensures
        r == scope_views(scopes@).contains(scope@),
{
    let ghost views = scope_views(scopes@);
    let mut i: usize = 0;
    while i < scopes.len()
        invariant
            i <= scopes@.len(),
            views == scope_views(scopes@),
            forall|k: int| 0 <= k < i ==> views[k] != scope@,
        decreases scopes@.len() - i,
    {
        assert(views[i as int] == scopes@[i as int]@);
        if scopes[i].same(scope) {
            return true;
        }
        i = i + 1;
    }
    false
}

/// A copy of a list of scopes.
pub fn copy_scopes(scopes: &Vec<MemoryScope>) -> (r: Vec<MemoryScope>)
    ensures
        scope_views(r@) == scope_views(scopes@),
{
    let mut out: Vec<MemoryScope> = Vec::new();
    let mut i: usize = 0;
    while i < scopes.len()
        invariant
            i <= scopes@.len(),
            out@.len() == i,
            forall|k: int| 0 <= k < i ==> (#[trigger] out@[k])@ == scopes@[k]@,
        decreases scopes@.len() - i,
    {
        out.push(scopes[i].copy());
        i = i + 1;
    }
    assert(scope_views(out@) =~= scope_views(scopes@));
    out
}

/// One durable fact.
#[derive(Debug, PartialEq, Eq)]
pub struct MemoryRecord {
    pub id: String,
    pub scope: MemoryScope,
    pub content: String,
    pub tags: Vec<String>,
    pub source_session: Option<String>,
    pub created_at: i64,
    pub updated_at: i64,
}

/// The model of a record.
pub ghost struct RecordView {
    pub id: Seq<char>,
    pub scope: ScopeView,
    pub content: Seq<char>,
    pub tags: Seq<Seq<char>>,
    pub source_session: Option<Seq<char>>,
    pub created_at: i64,
    pub updated_at: i64,
}

impl View for MemoryRecord {
    type V = RecordView;

    open spec fn view(&self) -> RecordView {
        RecordView {
            id: self.id@,
            scope: self.scope@,
            content: self.content@,
            tags: texts(self.tags@),
            source_session: opt_text(self.source_session),
            created_at: self.created_at,
            updated_at: self.updated_at,
        }
    }
}

/// The models of records.
pub open spec fn record_views(s: Seq<MemoryRecord>) -> Seq<RecordView> {
    s.map_values(|r: MemoryRecord| r@)
}

impl MemoryRecord {
    /// A record that is new at the time `now`.
    pub fn new(
        id: String,
        scope: MemoryScope,
        content: &str,
        tags: &Vec<String>,
        source_session: &Option<String>,
        now: i64,
    ) -> (r: MemoryRecord)
        ensures
            r@ == (RecordView {
                id: id@,
                scope: scope@,
                content: content@,
                tags: texts(tags@),
                source_session: opt_text(*source_session),
                created_at: now,
                updated_at: now,
            }),
    {
        MemoryRecord {
            id,
            scope,
            content: content.to_owned(),
            tags: copy_texts(tags),
            source_session: clone_opt(source_session),
            created_at: now,
            updated_at: now,
        }
    }

    /// The record with its content and its tags replaced, where there are new
    /// ones, at the time `now`.
    pub fn updated(self, content: &Option<String>, tags: &Option<Vec<String>>, now: i64) -> (r:
        MemoryRecord)
        ensures
            r@ == updated_record(self@, opt_text(*content), opt_tags(*tags), now),
    {
        let mut r = self;
        match content {
            Some(c) => {
                r.content = c.clone();
            },
            None => {},
        }
        match tags {
            Some(t) => {
                r.tags = copy_texts(t);
            },
            None => {},
        }
        r.updated_at = now;
        r
    }

    /// A copy of the record.
    pub fn copy(&self) -> (r: MemoryRecord)
        ensures
            r@ == self@,
    {
        MemoryRecord {
            id: self.id.clone(),
            scope: self.scope.copy(),
            content: self.content.clone(),
            tags: copy_texts(&self.tags),
            source_session: clone_opt(&self.source_session),
            created_at: self.created_at,
            updated_at: self.updated_at,
        }
    }
}

/// The texts of optional tags.
pub open spec fn opt_tags(t: Option<Vec<String>>) -> Option<Seq<Seq<char>>> {
    match t {
        Some(v) => Some(texts(v@)),
        None => None,
    }
}

/// A record with its content and its tags replaced, where there are new ones.
/// Its identity, its scope, its origin and its age stay.
pub open spec fn updated_record(
    r: RecordView,
    content: Option<Seq<char>>,
    tags: Option<Seq<Seq<char>>>,
    now: i64,
) -> RecordView {
    RecordView {
        content: match content {
            Some(c) => c,
            None => r.content,
        },
        tags: match tags {
            Some(t) => t,
            None => r.tags,
        },
        updated_at: now,
        ..r
    }
}

/// What to look for.
#[derive(Debug)]
pub struct MemoryQuery {
    pub text: Option<String>,
    /// The scopes to look in; all of them where none is given.
    pub scopes: Vec<MemoryScope>,
    /// The tags that a record has to carry.
    pub tags: Vec<String>,
    pub limit: usize,
}

/// The model of a query.
pub ghost struct QueryView {
    pub text: Option<Seq<char>>,
    pub scopes: Seq<ScopeView>,
    pub tags: Seq<Seq<char>>,
    pub limit: usize,
}

impl View for MemoryQuery {
    type V = QueryView;

    open spec fn view(&self) -> QueryView {
        QueryView {
            text: opt_text(self.text),
            scopes: scope_views(self.scopes@),
            tags: texts(self.tags@),
            limit: self.limit,
        }
    }
}

/// Whether a record passes the filters of a query: its scope is among those
/// of the query, where it names any, and it carries every tag.
pub open spec fn passes(r: RecordView, q: QueryView) -> bool {
    &&& q.scopes.len() == 0 || q.scopes.contains(r.scope)
    &&& forall|i: int| 0 <= i < q.tags.len() ==> r.tags.contains(#[trigger] q.tags[i])
}

/// Whether a record passes the filters of a query.
pub fn record_passes(record: &MemoryRecord, query: &MemoryQuery) -> (r: bool)
    ensures
        r == passes(record@, query@),
{
    assert(query@.scopes.len() == query.scopes@.len());
    if query.scopes.len() > 0 && !holds_scope(&query.scopes, &record.scope) {
        return false;
    }
    let mut i: usize = 0;
    while i < query.tags.len()
        invariant
            i <= query.tags@.len(),
            forall|k: int| 0 <= k < i ==> record@.tags.contains(#[trigger] query@.tags[k]),
        decreases query.tags@.len() - i,
    {
        let found = is_listed(&record.tags, query.tags[i].as_str());
        assert(query@.tags[i as int] == query.tags@[i as int]@);
        proof {
            lemma_listed(record.tags@, query.tags@[i as int]@);
        }
        if !found {
            return false;
        }
        i = i + 1;
    }
    true
}

proof fn lemma_listed(list: Seq<String>, name: Seq<char>)
    ensures
        listed(list, name) == texts(list).contains(name),
{
    if listed(list, name) {
        let i = choose|i: int| 0 <= i < list.len() && #[trigger] list[i]@ == name;
        assert(texts(list)[i] == name);
    }
    if texts(list).contains(name) {
        let i = choose|i: int| 0 <= i < texts(list).len() && texts(list)[i] == name;
        assert(list[i]@ == name);
    }
}

/// The record, where it passes the filters of a query.
pub fn filter_record(record: MemoryRecord, query: &MemoryQuery) -> (r: Option<MemoryRecord>)
    ensures
        match r {
            Some(x) => passes(record@, query@) && x == record,
            None => !passes(record@, query@),
        },
{
    if record_passes(&record, query) {
        Some(record)
    } else {
        None
    }
}

/// The records that pass the filters of a query, in order.
pub open spec fn passing(rs: Seq<RecordView>, q: QueryView) -> Seq<RecordView> {
    rs.filter(|r: RecordView| passes(r, q))
}

/// The records that pass the filters of a query, in order.
pub fn collect_records(records: Vec<MemoryRecord>, query: &MemoryQuery) -> (r: Vec<MemoryRecord>)
    ensures
        record_views(r@) == passing(record_views(records@), query@),
{
    let ghost rs = record_views(records@);
    let ghost f = |r: RecordView| passes(r, query@);
    let n: usize = records.len();
    let mut rest = records;
    let mut out: Vec<MemoryRecord> = Vec::new();
    let mut i: usize = 0;
    assert(record_views(out@) =~= rs.take(0).filter(f)) by {
        reveal(Seq::filter);
    }
    while i < n
        invariant
            i <= n,
            n == rs.len(),
            rest@.len() == n - i,
            f == (|r: RecordView| passes(r, query@)),
            forall|k: int| 0 <= k < n - i ==> (#[trigger] rest@[k])@ == rs[i + k],
            record_views(out@) == rs.take(i as int).filter(f),
        decreases n - i,
    {
        let ghost next = rs.take(i + 1);
        let ghost before = record_views(out@);
        assert(next.drop_last() =~= rs.take(i as int));
        assert(rest@[0]@ == next.last());
        let record = rest.remove(0);
        let ghost x = record@;
        match filter_record(record, query) {
            Some(kept) => {
                out.push(kept);
                assert(record_views(out@) =~= before.push(x));
            },
            None => {},
        }
        assert(record_views(out@) == next.filter(f)) by {
            reveal(Seq::filter);
        }
        i = i + 1;
    }
    assert(rs.take(i as int) =~= rs);
    out
}

/// A record as it is shown to a model.
pub open spec fn shown(r: RecordView) -> Seq<char> {
    "- ("@ + r.id + ")"@ + (if r.tags.len() == 0 {
        Seq::empty()
    } else {
        " [tags: "@ + joined(r.tags, ", "@) + "]"@
    }) + " "@ + r.content
}

/// A record as it is shown to a model.
pub fn format_record(record: &MemoryRecord) -> (r: String)
    ensures
        r@ == shown(record@),
{
    assert(record@.tags.len() == record.tags@.len());
    let mut out = join2("- (", record.id.as_str());
    out.append(")");
    if record.tags.len() > 0 {
        let tags = join(&record.tags, ", ");
        let head = join2(" [tags: ", tags.as_str());
        let part = join2(head.as_str(), "]");
        out.append(part.as_str());
    } else {
        assert(out@ + Seq::<char>::empty() =~= out@);
    }
    out.append(" ");
    out.append(record.content.as_str());
    out
}

} // verus!
