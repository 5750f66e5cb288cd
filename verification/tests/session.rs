use sweet::message::{Message, Role};
use sweet::session::{is_message_kind, opened_id, Row, SessionLog};

fn texts(messages: Vec<&Message>) -> Vec<String> {
    messages.into_iter().map(|m| m.text_content()).collect()
}

fn push_users(session: &mut SessionLog, texts: &[&str]) {
    for t in texts {
        session.push(Message::user(t));
    }
}

fn reopened(session: SessionLog) -> SessionLog {
    let rows: Vec<Row> = session.rows;
    SessionLog::from_rows(rows)
}

#[test]
fn in_memory_session_push_and_messages() {
    let mut session = SessionLog::new();
    session.push(Message::user("hello"));
    session.push(Message::assistant("hi"));
    assert_eq!(session.messages().len(), 2);
    assert_eq!(session.messages()[0].role, Role::User);
    assert_eq!(session.messages()[1].role, Role::Assistant);
}

#[test]
fn in_memory_session_clear() {
    let mut session = SessionLog::new();
    session.push(Message::user("hello"));
    session.clear();
    assert!(session.messages().is_empty());
    assert!(session.full_items().is_empty());
}

#[test]
fn in_memory_session_token_count() {
    let mut session = SessionLog::new();
    session.push(Message::user(&"abcd".repeat(4)));
    assert_eq!(session.token_count(), 4);
}

#[test]
fn sqlite_session_in_memory_push_and_messages() {
    let mut session = SessionLog::new();
    session.push(Message::user("hello"));
    session.push(Message::assistant("hi"));
    assert_eq!(session.messages().len(), 2);
    assert_eq!(session.messages()[0].role, Role::User);
    assert_eq!(session.messages()[1].role, Role::Assistant);
}

#[test]
fn sqlite_session_clear() {
    let mut session = SessionLog::new();
    session.push(Message::user("hello"));
    session.clear();
    assert!(session.messages().is_empty());
    assert!(session.full_items().is_empty());
}

#[test]
fn sqlite_session_rebuilds_from_file() {
    let mut session = SessionLog::new();
    session.push(Message::user("hello"));
    session.push(Message::assistant("hi"));
    assert_eq!(session.messages().len(), 2);

    let session = reopened(session);
    assert_eq!(session.messages().len(), 2);
    assert_eq!(session.messages()[0].role, Role::User);
    assert_eq!(session.messages()[1].role, Role::Assistant);
}

#[test]
fn sqlite_session_persists_across_instances() {
    let mut session = SessionLog::new();
    session.push(Message::user("first"));
    session.push(Message::assistant("second"));
    assert_eq!(session.messages().len(), 2);

    let session2 = reopened(session);
    assert_eq!(session2.messages().len(), 2);
    assert_eq!(session2.messages()[0].text_content(), "first");
}

#[test]
fn replace_range_archives_instead_of_deleting() {
    let mut session = SessionLog::new();
    push_users(&mut session, &["a", "b", "c"]);

    let mut summary = Message::user("summary");
    summary.compacted = true;
    session.replace_range(0, 2, vec![summary]);

    assert_eq!(texts(session.messages()), ["summary", "c"]);
    assert_eq!(texts(session.full_messages()), ["a", "b", "summary", "c"]);
    let archived_flags: Vec<bool> =
        session.full_items().iter().map(|(_, archived)| *archived).collect();
    assert_eq!(archived_flags, [true, true, false, false]);
}

#[test]
fn mid_range_replacement_keeps_orders() {
    let mut session = SessionLog::new();
    push_users(&mut session, &["a", "b", "c", "d"]);
    session.replace_range(1, 2, vec![Message::user("b'")]);
    assert_eq!(texts(session.messages()), ["a", "b'", "c", "d"]);
    assert_eq!(texts(session.full_messages()), ["a", "b", "b'", "c", "d"]);
}

#[test]
fn repeated_compaction_survives_reopen() {
    let mut session = SessionLog::new();
    push_users(&mut session, &["a", "b", "c"]);
    session.replace_range(0, 2, vec![Message::user("s1")]);
    push_users(&mut session, &["d"]);
    session.replace_range(0, 2, vec![Message::user("s2")]);
    assert_eq!(texts(session.messages()), ["s2", "d"]);

    let mut session = reopened(session);
    assert_eq!(texts(session.messages()), ["s2", "d"]);
    assert_eq!(texts(session.full_messages()), ["a", "b", "s1", "c", "s2", "d"]);

    push_users(&mut session, &["e"]);
    assert_eq!(texts(session.messages()), ["s2", "d", "e"]);
    assert_eq!(*texts(session.full_messages()).last().unwrap(), "e");
}

#[test]
fn clear_deletes_archived_rows_too() {
    let mut session = SessionLog::new();
    push_users(&mut session, &["a", "b"]);
    session.replace_range(0, 1, vec![Message::user("s")]);
    session.clear();
    assert!(session.messages().is_empty());
    assert!(session.full_messages().is_empty());
}

#[test]
fn total_tokens_excludes_archived() {
    let mut session = SessionLog::new();
    let mut a = Message::user("a");
    a.token_count = Some(100);
    let mut b = Message::user("b");
    b.token_count = Some(7);
    session.push(a);
    session.push(b);
    assert_eq!(session.total_tokens(), 107);

    let mut summary = Message::user("s");
    summary.token_count = Some(5);
    session.replace_range(0, 1, vec![summary]);
    assert_eq!(session.total_tokens(), 12);
}

#[test]
fn the_reported_size_wins_over_the_estimate() {
    let mut session = SessionLog::new();
    session.push(Message::user("abcdabcd"));
    assert_eq!(session.context_size(Some(100)), 100);
    assert_eq!(session.context_size(None), session.token_count());
}

#[test]
fn a_session_keeps_the_id_that_it_has() {
    assert_eq!(
        opened_id(Some("old".to_string()), "new".to_string()),
        ("old".to_string(), false)
    );
    assert_eq!(opened_id(None, "new".to_string()), ("new".to_string(), true));
    assert!(is_message_kind("message"));
    assert!(!is_message_kind("note"));
}
