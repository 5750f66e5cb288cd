//! The statements by which records are stored and found, and the columns that
//! hold them.

use vstd::prelude::*;
use crate::memory::record::{
    law_scope_reads_back, scope_key, scope_kind, scope_of, scope_views, MemoryRecord, MemoryScope,
    RecordView, ScopeView,
};
use crate::text::{clone_opt, decimal, join, join2, joined, opt_text, texts, to_decimal};

verus! {

/// The columns of a record.
pub const RECORD_COLUMNS: &'static str =
    "id, scope_kind, scope_key, content, tags, source_session, created_at, updated_at";

/// The columns of a record, for statements that join the full-text index.
pub const RECORD_COLUMNS_QUALIFIED: &'static str =
    "memories.id, memories.scope_kind, memories.scope_key, memories.content, memories.tags, memories.source_session, memories.created_at, memories.updated_at";

/// The condition of one scope.
pub const SCOPE_CONDITION: &'static str = "(scope_kind = ? AND scope_key = ?)";

/// The condition that a record is in one of `n` scopes: none where `n` is 0.
pub open spec fn scope_clause(n: nat) -> Seq<char> {
    if n == 0 {
        Seq::empty()
    } else {
        " AND ("@ + joined(Seq::new(n, |i: int| SCOPE_CONDITION@), " OR "@) + ")"@
    }
}

/// The values of a condition: kind and key of every scope, in order.
pub open spec fn scope_params(scopes: Seq<ScopeView>) -> Seq<Seq<char>>
    decreases scopes.len(),
{
    if scopes.len() == 0 {
        Seq::empty()
    } else {
        scope_params(scopes.drop_last()).push(scope_kind(scopes.last())).push(
            scope_key(scopes.last()),
        )
    }
}

/// The condition that a record is in one of the scopes, and its values.
pub fn scope_filter(scopes: &Vec<MemoryScope>) -> (r: (String, Vec<String>))
    ensures
        r.0@ == scope_clause(scopes@.len()),
        texts(r.1@) == scope_params(scope_views(scopes@)),
{
    let ghost views = scope_views(scopes@);
    let mut conditions: Vec<String> = Vec::new();
    let mut params: Vec<String> = Vec::new();
    let mut i: usize = 0;
    assert(texts(params@) =~= scope_params(views.take(0)));
    while i < scopes.len()
        invariant
            i <= scopes@.len(),
            views == scope_views(scopes@),
            texts(conditions@) == Seq::new(i as nat, |k: int| SCOPE_CONDITION@),
            texts(params@) == scope_params(views.take(i as int)),
        decreases scopes@.len() - i,
    {
        let ghost next = views.take(i + 1);
        let ghost done = texts(conditions@);
        let ghost before = texts(params@);
        assert(next.drop_last() =~= views.take(i as int));
        assert(next.last() == scopes@[i as int]@);
        conditions.push(SCOPE_CONDITION.to_owned());
        assert(texts(conditions@) =~= done.push(SCOPE_CONDITION@));
        params.push(scopes[i].kind().to_owned());
        params.push(scopes[i].key().to_owned());
        assert(texts(params@) =~= before.push(scope_kind(next.last())).push(
            scope_key(next.last()),
        ));
        i = i + 1;
        assert(texts(conditions@) =~= Seq::new(i as nat, |k: int| SCOPE_CONDITION@));
    }
    assert(views.take(i as int) =~= views);
    if scopes.len() == 0 {
        let empty = String::new();
        assert(empty@ =~= Seq::empty());
        return (empty, params);
    }
    let all = join(&conditions, " OR ");
    let head = join2(" AND (", all.as_str());
    (join2(head.as_str(), ")"), params)
}

/// The statement that lists records, the newest first.
pub open spec fn list_statement(clause: Seq<char>) -> Seq<char> {
    "SELECT "@ + RECORD_COLUMNS@ + " FROM memories WHERE 1=1"@ + clause
        + " ORDER BY updated_at DESC, id DESC"@
}

/// The statement that finds records by a match expression, the best first.
pub open spec fn match_statement(clause: Seq<char>, limit: nat) -> Seq<char> {
    "SELECT "@ + RECORD_COLUMNS_QUALIFIED@
        + " FROM memories_fts JOIN memories ON memories.rowid = memories_fts.rowid WHERE memories_fts MATCH ?1"@
        + clause + " ORDER BY bm25(memories_fts) LIMIT "@ + decimal(limit)
}

/// The statement that gives the records with a vector of an embedder.
pub open spec fn vector_statement(clause: Seq<char>) -> Seq<char> {
    "SELECT "@ + RECORD_COLUMNS@
        + ", embedding FROM memories WHERE embedding IS NOT NULL AND embedding_model = ?1"@ + clause
}

/// The statement that lists records, the newest first.
pub fn list_sql(clause: &str) -> (r: String)
    ensures
        r@ == list_statement(clause@),
{
    let mut s = join2("SELECT ", RECORD_COLUMNS);
    s.append(" FROM memories WHERE 1=1");
    s.append(clause);
    s.append(" ORDER BY updated_at DESC, id DESC");
    s
}

/// The statement that finds records by a match expression, the best first.
pub fn match_sql(clause: &str, limit: usize) -> (r: String)
    ensures
        r@ == match_statement(clause@, limit as nat),
{
    let mut s = join2("SELECT ", RECORD_COLUMNS_QUALIFIED);
    s.append(
        " FROM memories_fts JOIN memories ON memories.rowid = memories_fts.rowid WHERE memories_fts MATCH ?1",
    );
    s.append(clause);
    s.append(" ORDER BY bm25(memories_fts) LIMIT ");
    let n = to_decimal(limit as u64);
    s.append(n.as_str());
    s
}

/// The statement that gives the records with a vector of an embedder.
pub fn vector_sql(clause: &str) -> (r: String)
    ensures
        r@ == vector_statement(clause@),
{
    let mut s = join2("SELECT ", RECORD_COLUMNS);
    s.append(", embedding FROM memories WHERE embedding IS NOT NULL AND embedding_model = ?1");
    s.append(clause);
    s
}

/// The statement that gives the record with an id.
pub open spec fn get_statement() -> Seq<char> {
    "SELECT "@ + RECORD_COLUMNS@ + " FROM memories WHERE id = ?1"@
}

/// The statement that gives the record with an id.
pub fn get_sql() -> (r: String)
    ensures
        r@ == get_statement(),
{
    let mut s = join2("SELECT ", RECORD_COLUMNS);
    s.append(" FROM memories WHERE id = ?1");
    s
}

pub const INSERT_SQL: &'static str =
    "INSERT INTO memories (id, scope_kind, scope_key, content, tags, source_session, created_at, updated_at, embedding, embedding_model) VALUES (?1, ?2, ?3, ?4, ?5, ?6, ?7, ?8, ?9, ?10)";

pub const UPDATE_SQL: &'static str =
    "UPDATE memories SET content = ?2, tags = ?3, updated_at = ?4 WHERE id = ?1";

pub const UPDATE_WITH_VECTOR_SQL: &'static str =
    "UPDATE memories SET content = ?2, tags = ?3, updated_at = ?4, embedding = ?5, embedding_model = ?6 WHERE id = ?1";

pub const DELETE_SQL: &'static str = "DELETE FROM memories WHERE id = ?1";

/// The statement of an update: the vector is replaced exactly where the
/// content is.
pub fn update_sql(content: &Option<String>) -> (r: &'static str)
    ensures
        r@ == (if *content is Some {
            UPDATE_WITH_VECTOR_SQL@
        } else {
            UPDATE_SQL@
        }),
{
    if content.is_some() {
        UPDATE_WITH_VECTOR_SQL
    } else {
        UPDATE_SQL
    }
}

/// The embedder that a stored vector is marked with: none where there is no
/// vector.
pub fn vector_mark(has_vector: bool, embedder: &Option<String>) -> (r: Option<String>)
    ensures
        r == (if has_vector {
            *embedder
        } else {
            None
        }),
{
    if has_vector {
        clone_opt(embedder)
    } else {
        None
    }
}

/// What `serde_json::from_str::<Vec<String>>` makes of a text.
pub uninterp spec fn tags_of_text(text: Seq<char>) -> Option<Seq<Seq<char>>>;

/// The message with which `serde_json::from_str::<Vec<String>>` rejects a
/// text.
pub uninterp spec fn tags_failure(text: Seq<char>) -> Seq<char>;

/// What `serde_json::to_string` writes for a list of texts.
pub uninterp spec fn text_of_tags(tags: Seq<Seq<char>>) -> Seq<char>;

/// `serde_json::from_str::<Vec<String>>`: the list or the message of the error
/// is a function of the text alone.
#[verifier::external_body]
fn parse_tags(text: &str) -> (r: Result<Vec<String>, String>)
    ensures
        match r {
            Ok(v) => tags_of_text(text@) == Some(texts(v@)),
            Err(m) => tags_of_text(text@) is None && m@ == tags_failure(text@),
        },
{
    serde_json::from_str(text).map_err(|e| e.to_string())
}

/// `serde_json::to_string` of a list of texts: a JSON array of strings, which
/// `serde_json::from_str::<Vec<String>>` reads back as it was. Writing texts to
/// memory does not fail.
#[verifier::external_body]
fn write_tags(tags: &Vec<String>) -> (r: String)
    ensures
        r@ == text_of_tags(texts(tags@)),
        tags_of_text(r@) == Some(texts(tags@)),
{
    serde_json::to_string(tags).unwrap_or_default()
}

/// The columns that hold a record.
#[derive(Debug)]
pub struct RecordColumns {
    pub id: String,
    pub scope_kind: String,
    pub scope_key: String,
    pub content: String,
    pub tags: String,
    pub source_session: Option<String>,
    pub created_at: i64,
    pub updated_at: i64,
}

/// Why a column could not be read.
#[derive(Debug, PartialEq, Eq)]
pub struct ColumnError {
    pub column: usize,
    pub message: String,
}

/// Whether columns hold a record.
pub open spec fn holds(c: RecordColumns, r: RecordView) -> bool {
    &&& c.id@ == r.id
    &&& scope_of(c.scope_kind@, c.scope_key@) == Some(r.scope)
    &&& c.content@ == r.content
    &&& tags_of_text(c.tags@) == Some(r.tags)
    &&& opt_text(c.source_session) == r.source_session
    &&& c.created_at == r.created_at
    &&& c.updated_at == r.updated_at
}

/// The columns of a record.
pub fn record_columns(record: &MemoryRecord) -> (r: RecordColumns)
    ensures
        holds(r, record@),
        r.scope_kind@ == scope_kind(record@.scope),
        r.scope_key@ == scope_key(record@.scope),
        r.tags@ == text_of_tags(record@.tags),
{
    proof {
        law_scope_reads_back(record@.scope);
    }
    RecordColumns {
        id: record.id.clone(),
        scope_kind: record.scope.kind().to_owned(),
        scope_key: record.scope.key().to_owned(),
        content: record.content.clone(),
        tags: write_tags(&record.tags),
        source_session: clone_opt(&record.source_session),
        created_at: record.created_at,
        updated_at: record.updated_at,
    }
}

/// The record that columns hold. An unknown kind of scope is an error, and so
/// are tags that cannot be read; nothing is passed over in silence.
pub fn record_from_columns(c: RecordColumns) -> (r: Result<MemoryRecord, ColumnError>)
    ensures
        match r {
            Ok(m) => holds(c, m@),
            Err(e) => {
                ||| scope_of(c.scope_kind@, c.scope_key@) is None && e.column == 1 && e.message@
                    == "unknown scope kind: "@ + c.scope_kind@
                ||| scope_of(c.scope_kind@, c.scope_key@) is Some && tags_of_text(c.tags@) is None
                    && e.column == 4 && e.message@ == tags_failure(c.tags@)
            },
        },
{
    let scope = match MemoryScope::from_parts(c.scope_kind.as_str(), c.scope_key.as_str()) {
        Some(s) => s,
        None => {
            return Err(
                ColumnError {
                    column: 1,
                    message: join2("unknown scope kind: ", c.scope_kind.as_str()),
                },
            );
        },
    };
    let tags = match parse_tags(c.tags.as_str()) {
        Ok(t) => t,
        Err(message) => {
            return Err(ColumnError { column: 4, message });
        },
    };
    Ok(
        MemoryRecord {
            id: c.id,
            scope,
            content: c.content,
            tags,
            source_session: c.source_session,
            created_at: c.created_at,
            updated_at: c.updated_at,
        },
    )
}

/// Columns hold one record: what is read from them is what was written.
pub proof fn law_columns_hold_one_record(c: RecordColumns, a: RecordView, b: RecordView)
    requires
        holds(c, a),
        holds(c, b),
    ensures
        a == b,
{
}

/// There are two values for each scope of a condition.
pub proof fn law_two_values_for_each_scope(scopes: Seq<ScopeView>)
    ensures
        scope_params(scopes).len() == 2 * scopes.len(),
    decreases scopes.len(),
{
    if scopes.len() > 0 {
        law_two_values_for_each_scope(scopes.drop_last());
    }
}

/// The tables of the store: the records, a full-text index over them, and the
/// triggers that keep the index in step.
pub const MEMORIES_TABLE_DDL: &'static str = "
    CREATE TABLE IF NOT EXISTS memories (
        id              TEXT PRIMARY KEY,
        scope_kind      TEXT NOT NULL,
        scope_key       TEXT NOT NULL,
        content         TEXT NOT NULL,
        tags            TEXT NOT NULL DEFAULT '[]',
        source_session  TEXT,
        created_at      INTEGER NOT NULL,
        updated_at      INTEGER NOT NULL,
        embedding       BLOB,
        embedding_model TEXT
    );
    CREATE INDEX IF NOT EXISTS idx_memories_scope
        ON memories(scope_kind, scope_key);

    CREATE VIRTUAL TABLE IF NOT EXISTS memories_fts USING fts5(
        content, tags, content='memories', content_rowid='rowid');

    CREATE TRIGGER IF NOT EXISTS memories_ai AFTER INSERT ON memories BEGIN
        INSERT INTO memories_fts(rowid, content, tags)
        VALUES (new.rowid, new.content, new.tags);
    END;
    CREATE TRIGGER IF NOT EXISTS memories_ad AFTER DELETE ON memories BEGIN
        INSERT INTO memories_fts(memories_fts, rowid, content, tags)
        VALUES ('delete', old.rowid, old.content, old.tags);
    END;
    CREATE TRIGGER IF NOT EXISTS memories_au AFTER UPDATE ON memories BEGIN
        INSERT INTO memories_fts(memories_fts, rowid, content, tags)
        VALUES ('delete', old.rowid, old.content, old.tags);
        INSERT INTO memories_fts(rowid, content, tags)
        VALUES (new.rowid, new.content, new.tags);
    END;";

/// Every statement that takes a clause holds it whole. A listing gives the
/// latest record first, a match the best first and no more than the limit.
pub proof fn law_statements_hold_their_clause(clause: Seq<char>, limit: nat)
    ensures
        (clause + " ORDER BY updated_at DESC, id DESC"@).is_suffix_of(list_statement(clause)),
        (clause + " ORDER BY bm25(memories_fts) LIMIT "@ + decimal(limit)).is_suffix_of(
            match_statement(clause, limit),
        ),
        clause.is_suffix_of(vector_statement(clause)),
        ("SELECT "@ + RECORD_COLUMNS@).is_prefix_of(list_statement(clause)),
        ("SELECT "@ + RECORD_COLUMNS_QUALIFIED@).is_prefix_of(match_statement(clause, limit)),
        ("SELECT "@ + RECORD_COLUMNS@).is_prefix_of(vector_statement(clause)),
{
}

} // verus!
