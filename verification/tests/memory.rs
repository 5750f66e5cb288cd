use rusqlite::Connection;
use sweet::memory::blob::{blob_to_vec, vec_to_blob};
use sweet::memory::fts::fts_match_expr;
use sweet::memory::ranking::{
    fuse_hits, list_records, search_text, semantic_candidates, MemoryHit, CANDIDATE_LIMIT,
};
use sweet::memory::record::{
    collect_records, filter_record, MemoryQuery, MemoryRecord, MemoryScope,
};
use sweet::memory::statements::{
    get_sql, list_sql, match_sql, record_columns, record_from_columns, scope_filter, update_sql,
    vector_mark, vector_sql, RecordColumns, DELETE_SQL, INSERT_SQL, MEMORIES_TABLE_DDL,
};
use sweet::memory::tools::{
    check_update, deleted_reply, invalid_id, memory_tools, saved_reply, search_reply,
    updated_reply, valid_id, MemoryToolset,
};
use sweet::order::Keyed;
use sweet::tool::{ToolError, ToolRisk};

fn user_scope() -> MemoryScope {
    MemoryScope::User("u1".into())
}

fn record(id: &str, scope: MemoryScope, content: &str, tags: &[&str]) -> MemoryRecord {
    MemoryRecord {
        id: id.to_string(),
        scope,
        content: content.to_string(),
        tags: tags.iter().map(|t| t.to_string()).collect(),
        source_session: None,
        created_at: 1,
        updated_at: 1,
    }
}

fn query(text: Option<&str>, scopes: Vec<MemoryScope>, tags: &[&str], limit: usize) -> MemoryQuery {
    MemoryQuery {
        text: text.map(|t| t.to_string()),
        scopes,
        tags: tags.iter().map(|t| t.to_string()).collect(),
        limit,
    }
}

fn store() -> Connection {
    let conn = Connection::open_in_memory().unwrap();
    conn.execute_batch(MEMORIES_TABLE_DDL).unwrap();
    conn
}

fn insert(conn: &Connection, r: &MemoryRecord, embedding: Option<Vec<u8>>, model: Option<&str>) {
    let c = record_columns(r);
    conn.execute(
        INSERT_SQL,
        (
            c.id,
            c.scope_kind,
            c.scope_key,
            c.content,
            c.tags,
            c.source_session,
            c.created_at,
            c.updated_at,
            embedding,
            model,
        ),
    )
    .unwrap();
}

fn columns(row: &rusqlite::Row<'_>) -> rusqlite::Result<RecordColumns> {
    Ok(RecordColumns {
        id: row.get(0)?,
        scope_kind: row.get(1)?,
        scope_key: row.get(2)?,
        content: row.get(3)?,
        tags: row.get(4)?,
        source_session: row.get(5)?,
        created_at: row.get(6)?,
        updated_at: row.get(7)?,
    })
}

fn fetch(conn: &Connection, sql: &str, params: Vec<String>) -> Vec<MemoryRecord> {
    let mut stmt = conn.prepare(sql).unwrap();
    let rows = stmt.query_map(rusqlite::params_from_iter(params), columns).unwrap();
    rows.map(|r| record_from_columns(r.unwrap()).unwrap()).collect()
}

fn keyword(conn: &Connection, q: &MemoryQuery) -> Vec<MemoryRecord> {
    let expr = fts_match_expr(q.text.as_deref().unwrap());
    if expr.is_empty() {
        return Vec::new();
    }
    let (clause, scopes) = scope_filter(&q.scopes);
    let mut params = vec![expr];
    params.extend(scopes);
    collect_records(fetch(conn, &match_sql(&clause, CANDIDATE_LIMIT), params), q)
}

/// An embedding that only tells whether a text is about heat.
fn fake_vector(text: &str) -> Vec<f32> {
    if text.contains("hot") || text.contains("warm") {
        vec![1.0, 0.0]
    } else {
        vec![0.0, 1.0]
    }
}

fn blob_of(v: &[f32]) -> Vec<u8> {
    vec_to_blob(&v.iter().map(|x| x.to_bits()).collect())
}

/// The hits of a search by keyword and by similarity. An id that stands higher
/// in either ranking scores more.
fn hybrid(conn: &Connection, embedder: &str, q: &MemoryQuery) -> Vec<MemoryHit<f64>> {
    let wanted = fake_vector(q.text.as_deref().unwrap());
    let mut stmt = conn.prepare(&vector_sql("")).unwrap();
    let rows = stmt
        .query_map([embedder], |row| Ok((columns(row)?, row.get::<_, Vec<u8>>(8)?)))
        .unwrap();
    let mut scored = Vec::new();
    for row in rows {
        let (c, blob) = row.unwrap();
        let v: Vec<f32> = blob_to_vec(&blob).into_iter().map(f32::from_bits).collect();
        let similar: f32 = v.iter().zip(&wanted).map(|(x, y)| x * y).sum();
        scored.push(Keyed {
            key: (1000.0 - 1000.0 * similar) as u64,
            item: record_from_columns(c).unwrap(),
        });
    }
    let vector = semantic_candidates(scored, q);
    let words = keyword(conn, q);
    let mut fused: Vec<(String, f64)> = Vec::new();
    for ranking in [&words, &vector] {
        for (i, r) in ranking.iter().enumerate() {
            let score = 1.0 / (60.0 + i as f64);
            match fused.iter_mut().find(|f| f.0 == r.id) {
                Some(f) => f.1 += score,
                None => fused.push((r.id.clone(), score)),
            }
        }
    }
    fused.sort_by(|a, b| b.1.total_cmp(&a.1));
    fuse_hits(&words, &vector, fused, q.limit)
}

#[test]
fn fts5_is_available_in_bundled_sqlite() {
    let conn = Connection::open_in_memory().unwrap();
    conn.execute_batch("CREATE VIRTUAL TABLE t USING fts5(content)")
        .expect("FTS5 must be compiled into the bundled sqlite");
}

#[test]
fn sqlite_fts_match_expr_escapes_query_syntax() {
    assert_eq!(fts_match_expr("foo bar"), "\"foo\" \"bar\"");
    assert_eq!(fts_match_expr("a\"b"), "\"a\"\"b\"");
    assert_eq!(fts_match_expr("NEAR(x) OR *"), "\"NEAR(x)\" \"OR\" \"*\"");
    assert_eq!(fts_match_expr("  "), "");
}

#[test]
fn sqlite_shared_fts_match_expr_escapes_query_syntax() {
    assert_eq!(fts_match_expr("foo bar"), "\"foo\" \"bar\"");
    assert_eq!(fts_match_expr("a\"b"), "\"a\"\"b\"");
    assert_eq!(fts_match_expr("NEAR(x) OR *"), "\"NEAR(x)\" \"OR\" \"*\"");
    assert_eq!(fts_match_expr("  "), "");
}

#[test]
fn sqlite_blob_roundtrip() {
    let v: Vec<f32> = vec![0.5f32, -1.25, 3.0];
    let bits: Vec<u32> = v.iter().map(|x| x.to_bits()).collect();
    let back: Vec<f32> = blob_to_vec(&vec_to_blob(&bits)).into_iter().map(f32::from_bits).collect();
    assert_eq!(back, v);
}

#[test]
fn sqlite_shared_blob_roundtrip() {
    let v: Vec<f32> = vec![0.5f32, -1.25, 3.0];
    let bits: Vec<u32> = v.iter().map(|x| x.to_bits()).collect();
    let back: Vec<f32> = blob_to_vec(&vec_to_blob(&bits)).into_iter().map(f32::from_bits).collect();
    assert_eq!(back, v);
}

#[test]
fn blobs_are_little_endian_and_odd_bytes_are_dropped() {
    let bits = vec![0.5f32.to_bits()];
    assert_eq!(vec_to_blob(&bits), 0.5f32.to_le_bytes().to_vec());
    assert_eq!(blob_to_vec(&vec![0, 0, 0, 63, 9]), bits);
}

#[test]
fn crud_roundtrip() {
    let conn = store();
    let saved = MemoryRecord::new(
        "id-1".to_string(),
        user_scope(),
        "prefers tabs",
        &vec!["style".to_string()],
        &Some("s1".to_string()),
        7,
    );
    insert(&conn, &saved, None, None);
    let got = fetch(&conn, &get_sql(), vec!["id-1".to_string()]);
    assert_eq!(got, vec![saved.copy()]);

    let content = Some("prefers spaces".to_string());
    let gone = record_columns(&saved);
    let updated = saved.updated(&content, &None, 9);
    assert_eq!(updated.content, "prefers spaces");
    assert_eq!(updated.tags, vec!["style".to_string()]);
    assert_eq!((updated.created_at, updated.updated_at), (7, 9));
    let c = record_columns(&updated);
    let none: Option<Vec<u8>> = None;
    let n = conn
        .execute(
            update_sql(&content),
            (c.id, c.content, c.tags, c.updated_at, none, vector_mark(false, &None)),
        )
        .unwrap();
    assert_eq!(n, 1);
    assert_eq!(fetch(&conn, &get_sql(), vec!["id-1".to_string()]), vec![updated.copy()]);

    let tags = Some(vec!["a".to_string(), "b".to_string()]);
    let retagged = updated.updated(&None, &tags, 10);
    let c = record_columns(&retagged);
    conn.execute(update_sql(&None), (c.id, c.content, c.tags, c.updated_at)).unwrap();
    assert_eq!(fetch(&conn, &get_sql(), vec!["id-1".to_string()]), vec![retagged]);

    assert_eq!(conn.execute(DELETE_SQL, ("id-1",)).unwrap(), 1);
    assert_eq!(conn.execute(DELETE_SQL, ("id-1",)).unwrap(), 0);
    assert!(fetch(&conn, &get_sql(), vec!["id-1".to_string()]).is_empty());
    let none_updated = conn
        .execute(update_sql(&None), (gone.id, gone.content, gone.tags, gone.updated_at))
        .unwrap();
    assert_eq!(none_updated, 0);
}

#[test]
fn fts_search_ranks_and_filters() {
    let conn = store();
    insert(&conn, &record("1", user_scope(), "the user prefers dark mode", &[]), None, None);
    insert(
        &conn,
        &record(
            "2",
            MemoryScope::Project("p1".into()),
            "project uses dark color tokens",
            &["design"],
        ),
        None,
        None,
    );
    insert(&conn, &record("3", user_scope(), "unrelated note about lunch", &[]), None, None);

    assert_eq!(keyword(&conn, &query(Some("dark"), vec![], &[], 10)).len(), 2);

    let hits = keyword(&conn, &query(Some("dark"), vec![user_scope()], &[], 10));
    assert_eq!(hits.len(), 1);
    assert!(hits[0].content.contains("prefers dark mode"));

    let hits = keyword(&conn, &query(Some("dark"), vec![], &["design"], 10));
    assert_eq!(hits.len(), 1);
    assert!(hits[0].tags.contains(&"design".to_string()));
}

#[test]
fn list_mode_returns_newest_first() {
    let conn = store();
    insert(&conn, &record("a1", user_scope(), "first", &[]), None, None);
    insert(&conn, &record("a2", user_scope(), "second", &[]), None, None);
    let q = query(None, vec![], &[], 1);
    let (clause, params) = scope_filter(&q.scopes);
    let hits = list_records(fetch(&conn, &list_sql(&clause), params), &q);
    assert_eq!(hits.len(), 1);
    assert_eq!(hits[0].content, "second");
}

#[test]
fn malicious_fts_queries_are_treated_as_text() {
    let conn = store();
    insert(&conn, &record("1", user_scope(), "plain content here", &[]), None, None);
    for text in ["NEAR(", "a\" OR \"b", "col:value", "(((", "x*"] {
        assert!(keyword(&conn, &query(Some(text), vec![], &[], 10)).is_empty());
    }
}

#[test]
fn mismatched_embedder_rows_stay_keyword_searchable() {
    let conn = store();
    let blob = blob_of(&fake_vector("the stove is hot"));
    let mark = vector_mark(true, &Some("fake/v1".to_string()));
    insert(
        &conn,
        &record("1", user_scope(), "the stove is hot", &[]),
        Some(blob),
        mark.as_deref(),
    );
    let warm = query(Some("warm weather"), vec![], &[], 10);
    assert_eq!(hybrid(&conn, "fake/v1", &warm).len(), 1);
    assert!(hybrid(&conn, "fake/v2", &warm).is_empty());
    assert_eq!(hybrid(&conn, "fake/v2", &query(Some("stove"), vec![], &[], 10)).len(), 1);
}

#[test]
fn blank_text_is_no_text() {
    assert_eq!(search_text(&query(Some("  "), vec![], &[], 5)), None);
    assert_eq!(search_text(&query(None, vec![], &[], 5)), None);
    assert_eq!(search_text(&query(Some(" a "), vec![], &[], 5)), Some(" a "));
}

#[test]
fn scopes_become_conditions_and_parameters() {
    assert_eq!(scope_filter(&vec![]), (String::new(), vec![]));
    assert_eq!(
        scope_filter(&vec![user_scope(), MemoryScope::Project("p".into())]),
        (
            " AND ((scope_kind = ? AND scope_key = ?) OR (scope_kind = ? AND scope_key = ?))"
                .to_string(),
            vec!["user".to_string(), "u1".to_string(), "project".to_string(), "p".to_string()]
        )
    );
}

#[test]
fn records_pass_by_scope_and_tags() {
    let r = || record("1", user_scope(), "x", &["a", "b"]);
    assert!(filter_record(r(), &query(None, vec![], &[], 1)).is_some());
    assert!(filter_record(r(), &query(None, vec![user_scope()], &["b"], 1)).is_some());
    assert!(filter_record(r(), &query(None, vec![], &["c"], 1)).is_none());
    assert!(
        filter_record(r(), &query(None, vec![MemoryScope::User("u2".into())], &[], 1)).is_none()
    );
}

#[test]
fn rows_that_make_no_sense_are_errors() {
    let good = || record_columns(&record("1", user_scope(), "x", &["a"]));
    let mut bad_kind = good();
    bad_kind.scope_kind = "planet".to_string();
    let err = record_from_columns(bad_kind).unwrap_err();
    assert_eq!((err.column, err.message.as_str()), (1, "unknown scope kind: planet"));
    let mut bad_tags = good();
    bad_tags.tags = "nope".to_string();
    assert_eq!(record_from_columns(bad_tags).unwrap_err().column, 4);
    assert_eq!(good().tags, "[\"a\"]");
}

#[test]
fn semantic_candidates_come_in_the_order_of_their_keys() {
    let keyed = |key: u64, id: &str| Keyed { key, item: record(id, user_scope(), "x", &[]) };
    let out = semantic_candidates(
        vec![keyed(3, "c"), keyed(1, "a"), keyed(1, "b")],
        &query(None, vec![], &[], 5),
    );
    let ids: Vec<&str> = out.iter().map(|r| r.id.as_str()).collect();
    assert_eq!(ids, ["a", "b", "c"]);
}

#[test]
fn hybrid_search_fuses_semantic_ranking() {
    let conn = store();
    for (id, content) in [("1", "the stove is hot"), ("2", "the lake is cold")] {
        let r = record(id, user_scope(), content, &[]);
        insert(&conn, &r, Some(blob_of(&fake_vector(content))), Some("fake/v1"));
    }
    let hits = hybrid(&conn, "fake/v1", &query(Some("warm weather"), vec![], &[], 10));
    assert!(!hits.is_empty());
    assert!(hits[0].record.content.contains("hot"));
}

#[test]
fn a_ranked_id_without_a_record_is_left_out() {
    let keyword = vec![record("k", user_scope(), "cold", &[])];
    let vector =
        vec![record("v", user_scope(), "hot", &[]), record("k", user_scope(), "cold", &[])];
    let fused = vec![
        ("v".to_string(), 2.0),
        ("gone".to_string(), 1.5),
        ("k".to_string(), 1.0),
    ];
    let hits = fuse_hits(&keyword, &vector, fused, 3);
    let got: Vec<(&str, f64)> = hits.iter().map(|h| (h.record.id.as_str(), h.score)).collect();
    assert_eq!(got, [("v", 2.0), ("k", 1.0)]);
}

#[test]
fn a_record_of_both_rankings_is_one_hit() {
    let keyword = vec![record("a", user_scope(), "first", &[])];
    let vector =
        vec![record("a", user_scope(), "second", &[]), record("b", user_scope(), "third", &[])];
    let fused = vec![("a".to_string(), 3.0), ("b".to_string(), 2.0)];
    let hits = fuse_hits(&keyword, &vector, fused, 10);
    let got: Vec<(&str, &str)> =
        hits.iter().map(|h| (h.record.id.as_str(), h.record.content.as_str())).collect();
    assert_eq!(got, [("a", "first"), ("b", "third")]);
}

fn toolset() -> MemoryToolset {
    MemoryToolset::new(MemoryScope::Project("p".into()))
        .with_searchable_scopes(vec![
            MemoryScope::Project("p".into()),
            MemoryScope::User("u".into()),
        ])
        .with_source_session("sess-1")
}

#[test]
fn save_then_search_roundtrip() {
    let conn = store();
    let request =
        toolset().save_request("user prefers dark mode".to_string(), vec!["prefs".to_string()]);
    let saved = MemoryRecord::new(
        "id-1".to_string(),
        request.scope,
        &request.content,
        &request.tags,
        &request.source_session,
        1,
    );
    insert(&conn, &saved, None, None);
    assert!(saved_reply(&saved.id).starts_with("Saved memory ("));

    let q = toolset().search_query("dark mode".to_string(), None, vec![]);
    assert_eq!(q.limit, 5);
    assert_eq!(q.scopes.len(), 2);
    let found: Vec<MemoryHit<f64>> =
        keyword(&conn, &q).into_iter().map(|record| MemoryHit { record, score: 0.5 }).collect();
    let reply = search_reply(&found);
    assert!(reply.contains("user prefers dark mode"));
    assert!(reply.contains("[tags: prefs]"));
    assert_eq!(reply, "- (id-1) [tags: prefs] user prefers dark mode");

    let hits = keyword(&conn, &query(Some("dark"), vec![], &[], 10));
    assert_eq!(hits[0].scope, MemoryScope::Project("p".into()));
    assert_eq!(hits[0].source_session.as_deref(), Some("sess-1"));
}

#[test]
fn search_reports_no_matches() {
    let hits: Vec<MemoryHit<f64>> = vec![];
    assert_eq!(search_reply(&hits), "No matching memories.");
}

#[test]
fn update_and_delete_by_id() {
    let conn = store();
    insert(&conn, &record("id-1", MemoryScope::Project("p".into()), "draft", &[]), None, None);
    let found = fetch(&conn, &get_sql(), vec!["id-1".to_string()]).pop();
    let visible = toolset().visible_record("id-1", found).unwrap();
    let updated = visible.updated(&Some("final".to_string()), &None, 2);
    assert!(updated_reply(&updated).contains("final"));

    assert_eq!(conn.execute(DELETE_SQL, ("id-1",)).unwrap(), 1);
    assert_eq!(deleted_reply("id-1"), "Deleted memory (id-1)");
    assert!(fetch(&conn, &get_sql(), vec!["id-1".to_string()]).is_empty());
}

#[test]
fn update_requires_some_change() {
    let err = check_update(&None, &None).unwrap_err();
    assert!(err.message().contains("content and/or tags"));
    assert!(check_update(&Some("x".to_string()), &None).is_ok());
    assert!(check_update(&None, &Some(vec![])).is_ok());
}

#[test]
fn out_of_scope_records_are_invisible() {
    let conn = store();
    let foreign = record("id-9", MemoryScope::User("other".into()), "secret", &[]);
    insert(&conn, &foreign, None, None);
    let hidden = toolset().visible_record("id-9", Some(foreign)).unwrap_err();
    assert!(hidden.message().contains("no memory with id"));
    let missing = toolset().visible_record("id-9", None).unwrap_err();
    assert_eq!(hidden, missing);
    assert_eq!(fetch(&conn, &get_sql(), vec!["id-9".to_string()]).len(), 1);

    let q = toolset().search_query("secret".to_string(), None, vec![]);
    let found: Vec<MemoryHit<f64>> =
        keyword(&conn, &q).into_iter().map(|record| MemoryHit { record, score: 0.5 }).collect();
    assert_eq!(search_reply(&found), "No matching memories.");
}

#[test]
fn ids_are_hexadecimal_digits_and_hyphens() {
    assert!(valid_id("0190f2e4-7B1c-7000-8aF9-000000000001"));
    assert!(valid_id("-"));
    assert!(!valid_id(""));
    assert!(!valid_id("not-a-uuid"));
    assert!(!valid_id("12 34"));
    for c in ['/', ':', '@', 'G', '`', 'g', '\u{0660}'] {
        assert!(!valid_id(&format!("1{c}")), "{c}");
    }
}

#[test]
fn an_id_that_is_none_is_reported() {
    assert!(matches!(invalid_id("???"), ToolError::Execution(_) | ToolError::InvalidArgs(_)));
    assert!(invalid_id("???").message().contains("???"));
}

#[test]
fn there_are_four_memory_tools() {
    let tools = memory_tools();
    let names: Vec<&str> = tools.iter().map(|t| t.spec.name.as_str()).collect();
    assert_eq!(names, ["memory_save", "memory_search", "memory_update", "memory_delete"]);
    assert_eq!(tools[1].risk, ToolRisk::ReadOnly);
}
