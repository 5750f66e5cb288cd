//! The memory tools of a model.
//!
//! The application binds the scopes: what is saved lands in the default
//! scope, what is searched is the searchable scopes, and records outside them
//! are neither changed nor deleted. The model never chooses a scope.

use vstd::prelude::*;
use crate::json::{no_members, JsonMap};
use crate::memory::ranking::MemoryHit;
use crate::memory::record::{
    copy_scopes, format_record, holds_scope, passes, scope_views, shown, MemoryQuery, MemoryRecord,
    MemoryScope, QueryView, RecordView, ScopeView,
};
use crate::message::{ToolSpec, ToolSpecView};
use crate::text::{chars_of, clone_opt, join, join2, joined, opt_text, texts};
use crate::tool::{
    args_schema, args_schema_json, list_schema, list_schema_json, simple_schema,
    simple_schema_json, RatedTool, ToolError, ToolErrorView, ToolRisk,
};

verus! {

/// The scopes of one agent's tools.
#[derive(Debug)]
pub struct MemoryToolset {
    pub default_scope: MemoryScope,
    pub searchable_scopes: Vec<MemoryScope>,
    pub source_session: Option<String>,
}

/// The model of the scopes of one agent's tools.
pub ghost struct ToolsetView {
    pub default_scope: ScopeView,
    pub searchable_scopes: Seq<ScopeView>,
    pub source_session: Option<Seq<char>>,
}

impl View for MemoryToolset {
    type V = ToolsetView;

    open spec fn view(&self) -> ToolsetView {
        ToolsetView {
            default_scope: self.default_scope@,
            searchable_scopes: scope_views(self.searchable_scopes@),
            source_session: opt_text(self.source_session),
        }
    }
}

/// What is to be saved.
#[derive(Debug)]
pub struct SaveRequest {
    pub scope: MemoryScope,
    pub content: String,
    pub tags: Vec<String>,
    pub source_session: Option<String>,
}

/// The results that are asked for by default.
pub const DEFAULT_SEARCH_LIMIT: usize = 5;

impl MemoryToolset {
    /// Whether the default scope is searchable.
    pub open spec fn wf(&self) -> bool {
        self@.searchable_scopes.contains(self@.default_scope)
    }

    /// Saves land in `default_scope`, and searches see it.
    pub fn new(default_scope: MemoryScope) -> (r: MemoryToolset)
        ensures
            r.wf(),
            r@ == (ToolsetView {
                default_scope: default_scope@,
                searchable_scopes: seq![default_scope@],
                source_session: None,
            }),
    {
        let copy = default_scope.copy();
        let r = MemoryToolset {
            searchable_scopes: vec![copy],
            default_scope,
            source_session: None,
        };
        assert(r@.searchable_scopes =~= seq![default_scope@]);
        assert(r@.searchable_scopes[0] == default_scope@);
        r
    }

    /// Sets what searches, updates and deletions see. The default scope is
    /// put in front where it is missing.
    pub fn with_searchable_scopes(self, scopes: Vec<MemoryScope>) -> (r: MemoryToolset)
        ensures
            r.wf(),
            r@ == (ToolsetView {
                searchable_scopes: if scope_views(scopes@).contains(self@.default_scope) {
                    scope_views(scopes@)
                } else {
                    seq![self@.default_scope] + scope_views(scopes@)
                },
                ..self@
            }),
    {
        let mut t = self;
        t.searchable_scopes = scopes;
        if !holds_scope(&t.searchable_scopes, &t.default_scope) {
            let copy = t.default_scope.copy();
            t.searchable_scopes.insert(0, copy);
            assert(t@.searchable_scopes =~= seq![self@.default_scope] + scope_views(scopes@));
            assert(t@.searchable_scopes[0] == self@.default_scope);
        }
        t
    }

    /// Notes a session as the origin of what is saved.
    pub fn with_source_session(self, session_id: &str) -> (r: MemoryToolset)
        ensures
            r@ == (ToolsetView { source_session: Some(session_id@), ..self@ }),
            self.wf() ==> r.wf(),
    {
        let mut t = self;
        t.source_session = Some(session_id.to_owned());
        t
    }

    /// Whether a record is visible.
    pub fn in_scope(&self, record: &MemoryRecord) -> (r: bool)
        ensures
            r == self@.searchable_scopes.contains(record@.scope),
    {
        holds_scope(&self.searchable_scopes, &record.scope)
    }

    /// What a save stores: always in the default scope, with the session as
    /// its origin.
    pub fn save_request(&self, content: String, tags: Vec<String>) -> (r: SaveRequest)
        ensures
            r.scope@ == self@.default_scope,
            r.content == content,
            r.tags == tags,
            opt_text(r.source_session) == self@.source_session,
    {
        SaveRequest {
            scope: self.default_scope.copy(),
            content,
            tags,
            source_session: clone_opt(&self.source_session),
        }
    }

    /// What a search looks for: always in the searchable scopes.
    pub fn search_query(&self, text: String, limit: Option<usize>, tags: Vec<String>) -> (r:
        MemoryQuery)
        ensures
            r@ == (QueryView {
                text: Some(text@),
                scopes: self@.searchable_scopes,
                tags: texts(tags@),
                limit: match limit {
                    Some(n) => n,
                    None => DEFAULT_SEARCH_LIMIT,
                },
            }),
            self.wf() ==> forall|found: RecordView| #[trigger]
                passes(found, r@) ==> self@.searchable_scopes.contains(found.scope) && forall|
                    i: int,
                |
                    0 <= i < tags@.len() ==> found.tags.contains(#[trigger] tags@[i]@),
    {
        let ghost wanted = tags@;
        let r = MemoryQuery {
            text: Some(text),
            scopes: copy_scopes(&self.searchable_scopes),
            tags,
            limit: match limit {
                Some(n) => n,
                None => DEFAULT_SEARCH_LIMIT,
            },
        };
        assert forall|found: RecordView, i: int|
            #![trigger found.tags.contains(wanted[i]@)]
            passes(found, r@) && 0 <= i < wanted.len() implies found.tags.contains(wanted[i]@) by {
            assert(r@.tags[i] == wanted[i]@);
        }
        r
    }

    /// The record that the model named by an id, out of what the store holds
    /// under it. A record outside the searchable scopes is refused just as one
    /// that does not exist.
    pub fn visible_record(&self, id: &str, found: Option<MemoryRecord>) -> (r: Result<
        MemoryRecord,
        ToolError,
    >)
        ensures
            match (visible(self@, id@, opt_record(found)), r) {
                (Ok(v), Ok(record)) => record@ == v && found == Some(record),
                (Err(v), Err(e)) => e@ == v,
                _ => false,
            },
    {
        match found {
            Some(record) => {
                if self.in_scope(&record) {
                    return Ok(record);
                }
            },
            None => {},
        }
        Err(ToolError::Execution(join2("no memory with id ", id)))
    }
}

/// The answer to an id that names no visible record.
pub open spec fn no_memory(id: Seq<char>) -> ToolErrorView {
    ToolErrorView::Execution("no memory with id "@ + id)
}

/// The model of a record that may be missing.
pub open spec fn opt_record(r: Option<MemoryRecord>) -> Option<RecordView> {
    match r {
        Some(x) => Some(x@),
        None => None,
    }
}

/// The record that the model named by an id, out of what the store holds under
/// it.
pub open spec fn visible(t: ToolsetView, id: Seq<char>, found: Option<RecordView>) -> Result<
    RecordView,
    ToolErrorView,
> {
    match found {
        Some(r) => if t.searchable_scopes.contains(r.scope) {
            Ok(r)
        } else {
            Err(no_memory(id))
        },
        None => Err(no_memory(id)),
    }
}

/// Whether a character can stand in an id: a hexadecimal digit or a hyphen.
pub open spec fn is_id_char(c: char) -> bool {
    '0' <= c <= '9' || 'a' <= c <= 'f' || 'A' <= c <= 'F' || c == '-'
}

/// Whether a text has the form of an id.
pub fn valid_id(id: &str) -> (r: bool)
    ensures
        r == (id@.len() > 0 && forall|i: int|
            0 <= i < id@.len() ==> is_id_char(#[trigger] id@[i])),
{
    let chars = chars_of(id);
    if chars.len() == 0 {
        return false;
    }
    let mut i: usize = 0;
    while i < chars.len()
        invariant
            i <= chars@.len(),
            chars@ == id@,
            forall|k: int| 0 <= k < i ==> is_id_char(#[trigger] id@[k]),
        decreases chars@.len() - i,
    {
        let c = chars[i];
        assert(c == id@[i as int]);
        let digit = '0' <= c && c <= '9';
        let lower = 'a' <= c && c <= 'f';
        let upper = 'A' <= c && c <= 'F';
        if !(digit || lower || upper || c == '-') {
            return false;
        }
        i = i + 1;
    }
    true
}

/// The answer to an id that is none.
pub fn invalid_id(id: &str) -> (r: ToolError)
    ensures
        r@ == ToolErrorView::Execution("invalid memory id: "@ + id@),
{
    ToolError::Execution(join2("invalid memory id: ", id))
}

/// Whether an update says what to change.
pub fn check_update(content: &Option<String>, tags: &Option<Vec<String>>) -> (r: Result<
    (),
    ToolError,
>)
    ensures
        match r {
            Ok(_) => *content is Some || *tags is Some,
            Err(e) => *content is None && *tags is None && e@ == ToolErrorView::Execution(
                "provide content and/or tags to update"@,
            ),
        },
{
    if content.is_none() && tags.is_none() {
        return Err(ToolError::Execution("provide content and/or tags to update".to_owned()));
    }
    Ok(())
}

/// The answer to a save.
pub fn saved_reply(id: &str) -> (r: String)
    ensures
        r@ == "Saved memory ("@ + id@ + ")"@,
{
    let head = join2("Saved memory (", id);
    join2(head.as_str(), ")")
}

/// The answer to an update.
pub fn updated_reply(record: &MemoryRecord) -> (r: String)
    ensures
        r@ == "Updated memory:\n"@ + shown(record@),
{
    let text = format_record(record);
    join2("Updated memory:\n", text.as_str())
}

/// The answer to a deletion.
pub fn deleted_reply(id: &str) -> (r: String)
    ensures
        r@ == "Deleted memory ("@ + id@ + ")"@,
{
    let head = join2("Deleted memory (", id);
    join2(head.as_str(), ")")
}

/// The answer to a search: a line for each record that was found.
pub open spec fn search_answer(rs: Seq<RecordView>) -> Seq<char> {
    if rs.len() == 0 {
        "No matching memories."@
    } else {
        joined(rs.map_values(|r: RecordView| shown(r)), "\n"@)
    }
}

/// The answer to a search.
pub fn search_reply<S>(hits: &Vec<MemoryHit<S>>) -> (r: String)
    ensures
        r@ == search_answer(hits@.map_values(|h: MemoryHit<S>| h.record@)),
{
    let ghost rs = hits@.map_values(|h: MemoryHit<S>| h.record@);
    let ghost lines = rs.map_values(|r: RecordView| shown(r));
    if hits.len() == 0 {
        return "No matching memories.".to_owned();
    }
    let mut out: Vec<String> = Vec::new();
    let mut i: usize = 0;
    while i < hits.len()
        invariant
            i <= hits@.len(),
            rs == hits@.map_values(|h: MemoryHit<S>| h.record@),
            lines == rs.map_values(|r: RecordView| shown(r)),
            texts(out@) == lines.take(i as int),
        decreases hits@.len() - i,
    {
        let ghost before = texts(out@);
        out.push(format_record(&hits[i].record));
        i = i + 1;
        assert(texts(out@) =~= before.push(lines[i - 1]));
        assert(texts(out@) =~= lines.take(i as int));
    }
    assert(lines.take(i as int) =~= lines);
    join(&out, "\n")
}

/// Nothing that a search may show lies outside the searchable scopes.
pub proof fn law_search_stays_in_scope(t: MemoryToolset, q: QueryView, r: RecordView)
    requires
        t.wf(),
        q.scopes == t@.searchable_scopes,
        passes(r, q),
    ensures
        t@.searchable_scopes.contains(r.scope),
{
}

/// A record outside the searchable scopes is answered just as one that does
/// not exist.
pub proof fn law_hidden_and_missing_look_alike(t: ToolsetView, id: Seq<char>, hidden: RecordView)
    requires
        !t.searchable_scopes.contains(hidden.scope),
    ensures
        visible(t, id, Some(hidden)) == visible(t, id, None),
{
}

pub const SAVE_DESCRIPTION: &'static str =
    "Save a durable memory for future sessions: user preferences, decisions, and facts worth remembering long-term. Do not save transient task state, anything already remembered, or secrets/credentials. Keep each memory to one self-contained fact.";

pub const SEARCH_DESCRIPTION: &'static str =
    "Search long-term memories saved in previous sessions. Use when past preferences, decisions, or facts could be relevant. Results include each memory's id for memory_update/memory_delete.";

pub const UPDATE_DESCRIPTION: &'static str =
    "Update an existing memory when it is outdated or imprecise - prefer this over saving a near-duplicate. Takes the id returned by memory_search or memory_save.";

pub const DELETE_DESCRIPTION: &'static str =
    "Delete a memory that is wrong, obsolete, or that the user asked to forget. Takes the id returned by memory_search.";

/// The description of the tool that saves.
pub open spec fn save_tool_view() -> ToolSpecView {
    ToolSpecView {
        name: "memory_save"@,
        description: SAVE_DESCRIPTION@,
        parameters_schema: args_schema(
            no_members().insert(
                "content"@,
                simple_schema(
                    "string"@,
                    "The fact to remember, phrased to make sense without this conversation's context."@,
                ),
            ).insert("tags"@, list_schema("Optional short categorization tags."@)),
            seq!["content"@],
        ),
    }
}

/// The description of the tool that searches.
pub open spec fn search_tool_view() -> ToolSpecView {
    ToolSpecView {
        name: "memory_search"@,
        description: SEARCH_DESCRIPTION@,
        parameters_schema: args_schema(
            no_members().insert(
                "query"@,
                simple_schema("string"@, "Free-text search query."@),
            ).insert("limit"@, simple_schema("integer"@, "Maximum results (default 5)."@)).insert(
                "tags"@,
                list_schema("Only return memories carrying all of these tags."@),
            ),
            seq!["query"@],
        ),
    }
}

/// The description of the tool that updates.
pub open spec fn update_tool_view() -> ToolSpecView {
    ToolSpecView {
        name: "memory_update"@,
        description: UPDATE_DESCRIPTION@,
        parameters_schema: args_schema(
            no_members().insert(
                "id"@,
                simple_schema("string"@, "Id of the memory to update."@),
            ).insert("content"@, simple_schema("string"@, "Replacement content."@)).insert(
                "tags"@,
                list_schema("Replacement tags."@),
            ),
            seq!["id"@],
        ),
    }
}

/// The description of the tool that deletes.
pub open spec fn delete_tool_view() -> ToolSpecView {
    ToolSpecView {
        name: "memory_delete"@,
        description: DELETE_DESCRIPTION@,
        parameters_schema: args_schema(
            no_members().insert(
                "id"@,
                simple_schema("string"@, "Id of the memory to delete."@),
            ),
            seq!["id"@],
        ),
    }
}

/// The tool that saves one durable fact.
pub fn memory_save_tool() -> (r: RatedTool)
    ensures
        r.spec@ == save_tool_view(),
        r.risk == ToolRisk::FileWrite,
{
    let properties = JsonMap::new().with(
        "content",
        simple_schema_json(
            "string",
            "The fact to remember, phrased to make sense without this conversation's context.",
        ),
    ).with("tags", list_schema_json("Optional short categorization tags."));
    RatedTool {
        spec: ToolSpec {
            name: "memory_save".to_owned(),
            description: SAVE_DESCRIPTION.to_owned(),
            parameters_schema: args_schema_json(properties, "content"),
        },
        risk: ToolRisk::FileWrite,
    }
}

/// The tool that recalls memories.
pub fn memory_search_tool() -> (r: RatedTool)
    ensures
        r.spec@ == search_tool_view(),
        r.risk == ToolRisk::ReadOnly,
{
    let properties = JsonMap::new().with(
        "query",
        simple_schema_json("string", "Free-text search query."),
    ).with("limit", simple_schema_json("integer", "Maximum results (default 5).")).with(
        "tags",
        list_schema_json("Only return memories carrying all of these tags."),
    );
    RatedTool {
        spec: ToolSpec {
            name: "memory_search".to_owned(),
            description: SEARCH_DESCRIPTION.to_owned(),
            parameters_schema: args_schema_json(properties, "query"),
        },
        risk: ToolRisk::ReadOnly,
    }
}

/// The tool that rewrites an outdated memory.
pub fn memory_update_tool() -> (r: RatedTool)
    ensures
        r.spec@ == update_tool_view(),
        r.risk == ToolRisk::FileWrite,
{
    let properties = JsonMap::new().with(
        "id",
        simple_schema_json("string", "Id of the memory to update."),
    ).with("content", simple_schema_json("string", "Replacement content.")).with(
        "tags",
        list_schema_json("Replacement tags."),
    );
    RatedTool {
        spec: ToolSpec {
            name: "memory_update".to_owned(),
            description: UPDATE_DESCRIPTION.to_owned(),
            parameters_schema: args_schema_json(properties, "id"),
        },
        risk: ToolRisk::FileWrite,
    }
}

/// The tool that removes a memory.
pub fn memory_delete_tool() -> (r: RatedTool)
    ensures
        r.spec@ == delete_tool_view(),
        r.risk == ToolRisk::FileWrite,
{
    let properties = JsonMap::new().with(
        "id",
        simple_schema_json("string", "Id of the memory to delete."),
    );
    RatedTool {
        spec: ToolSpec {
            name: "memory_delete".to_owned(),
            description: DELETE_DESCRIPTION.to_owned(),
            parameters_schema: args_schema_json(properties, "id"),
        },
        risk: ToolRisk::FileWrite,
    }
}

/// All four memory tools.
pub fn memory_tools() -> (r: Vec<RatedTool>)
    ensures
        r@.len() == 4,
        r@[0].spec@ == save_tool_view() && r@[0].risk == ToolRisk::FileWrite,
        r@[1].spec@ == search_tool_view() && r@[1].risk == ToolRisk::ReadOnly,
        r@[2].spec@ == update_tool_view() && r@[2].risk == ToolRisk::FileWrite,
        r@[3].spec@ == delete_tool_view() && r@[3].risk == ToolRisk::FileWrite,
{
    vec![memory_save_tool(), memory_search_tool(), memory_update_tool(), memory_delete_tool()]
}

} // verus!
