use sweet::sse::{data_lines, drain_event, find_event_end, last_data_line};

#[test]
fn returns_none_when_no_boundary() {
    assert_eq!(find_event_end(b""), None);
    assert_eq!(find_event_end(b"data: partial"), None);
}

#[test]
fn finds_lf_lf_boundary() {
    assert_eq!(find_event_end(b"data: x\n\nrest"), Some(9));
}

#[test]
fn finds_crlf_crlf_boundary() {
    assert_eq!(find_event_end(b"data: x\r\n\r\nrest"), Some(11));
}

#[test]
fn picks_earliest_when_both_present() {
    // \n\n appears at index 7 (end-exclusive 9), \r\n\r\n appears later.
    let buf = b"data: x\n\ndata: y\r\n\r\n";
    assert_eq!(find_event_end(buf), Some(9));
}

#[test]
fn draining_takes_one_event_at_a_time() {
    let mut buffer = b"data: a\n\ndata: b\r\n\r\ndata: part".to_vec();
    assert_eq!(drain_event(&mut buffer).unwrap().unwrap(), "data: a\n\n");
    assert_eq!(drain_event(&mut buffer).unwrap().unwrap(), "data: b\r\n\r\n");
    assert!(drain_event(&mut buffer).is_none());
    assert_eq!(buffer, b"data: part".to_vec());
}

#[test]
fn an_event_that_is_no_text_is_an_error() {
    let mut buffer = vec![0xff, b'\n', b'\n', b'x'];
    assert!(drain_event(&mut buffer).unwrap().is_err());
    assert_eq!(buffer, b"x".to_vec());
}

#[test]
fn data_lines_are_those_with_the_prefix() {
    assert_eq!(
        data_lines("event: delta\ndata: {\"a\":1}\n: note\ndata: two\n\n"),
        vec!["{\"a\":1}".to_string(), "two".to_string()]
    );
}

#[test]
fn the_last_data_line_counts() {
    assert_eq!(last_data_line("data: a\ndata: b\n\n").as_deref(), Some("b"));
    assert_eq!(last_data_line("event: x\n\n"), None);
}
