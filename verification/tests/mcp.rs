use serde_json::Value;
use sweet::json::{Json, JsonMap};
use sweet::mcp::mock_server::{mock_call, mock_tools, sum_answer, MockCall};
use sweet::mcp::provider::{
    call_arguments, call_failure, expose_tools, http_failure, invalid_header_name,
    invalid_header_value, launch_failure, namespaced_name, stdio_failure, tool_output, ServedTool,
    ToolContent,
};
use sweet::mcp::{McpConfig, McpError, McpServerConfig, ToolFilter};
use sweet::text_map::TextMap;

fn map(pairs: &[(&str, &str)]) -> TextMap<String> {
    let mut m = TextMap::new();
    for (k, v) in pairs {
        m.insert(k, v.to_string());
    }
    m
}

fn stdio_server(env: &[(&str, &str)]) -> McpServerConfig {
    McpServerConfig {
        command: Some("cmd".to_string()),
        args: None,
        env: Some(map(env)),
        url: None,
        headers: None,
        allow_tools: None,
        block_tools: None,
    }
}

fn config(server: McpServerConfig) -> McpConfig {
    let mut servers = TextMap::new();
    servers.insert("svc", server);
    McpConfig { servers }
}

fn resolved(env: (&str, &str), extra: &[(&str, &str)], process: &[(&str, &str)]) -> String {
    let resolved =
        config(stdio_server(&[env])).resolve_env_vars(&map(extra), &map(process));
    let server = resolved.servers.get("svc").unwrap();
    assert_eq!(server.command.as_deref(), Some("cmd"));
    server.env.as_ref().unwrap().get(env.0).unwrap().clone()
}

#[test]
fn resolve_from_extra_env() {
    assert_eq!(
        resolved(("TOKEN", "${my_token}"), &[("my_token", "secret123")], &[]),
        "secret123"
    );
}

#[test]
fn resolve_from_process_env() {
    let val = resolved(("HOME", "${HOME}"), &[], &[("HOME", "/home/someone")]);
    assert!(!val.starts_with("${"));
    assert!(!val.is_empty());
    assert_eq!(val, "/home/someone");
}

#[test]
fn resolve_not_found_left_as_is() {
    assert_eq!(
        resolved(("KEY", "${NONEXISTENT_VAR_XYZ}"), &[], &[]),
        "${NONEXISTENT_VAR_XYZ}"
    );
}

#[test]
fn resolve_no_placeholders_unchanged() {
    assert_eq!(resolved(("KEY", "plain_value"), &[], &[]), "plain_value");
}

#[test]
fn resolve_multiple_vars_in_one_value() {
    assert_eq!(
        resolved(("PATH", "${a}:${b}"), &[("a", "foo"), ("b", "bar")], &[]),
        "foo:bar"
    );
}

#[test]
fn resolve_lone_dollar_unchanged() {
    assert_eq!(resolved(("PRICE", "$5"), &[], &[]), "$5");
}

#[test]
fn resolve_extra_env_takes_priority_over_process_env() {
    assert_eq!(
        resolved(("VAL", "${HOME}"), &[("HOME", "override")], &[("HOME", "/home/someone")]),
        "override"
    );
}

#[test]
fn resolve_headers() {
    let server = McpServerConfig {
        command: None,
        args: None,
        env: None,
        url: Some("http://x".to_string()),
        headers: Some(map(&[("Authorization", "Bearer ${github_token}")])),
        allow_tools: None,
        block_tools: None,
    };
    let resolved =
        config(server).resolve_env_vars(&map(&[("github_token", "ghp_abc")]), &map(&[]));
    let svc = resolved.servers.get("svc").unwrap();
    assert_eq!(svc.headers.as_ref().unwrap().get("Authorization").unwrap(), "Bearer ghp_abc");
    assert!(svc.is_http());
    assert!(!svc.is_stdio());
}

#[test]
fn unclosed_and_empty_placeholders_stay() {
    assert_eq!(resolved(("K", "a${b"), &[("b", "x")], &[]), "a${b");
    assert_eq!(resolved(("K", "a${}b"), &[("", "x")], &[("", "y")]), "a${}b");
    assert_eq!(resolved(("K", "$${a}"), &[("a", "x")], &[]), "$x");
}

#[test]
fn text_around_a_placeholder_stays() {
    assert_eq!(
        resolved(("K", "pre$ {${a}} ${b} end"), &[("a", "x")], &[]),
        "pre$ {x} ${b} end"
    );
}

#[test]
fn a_server_with_a_command_is_reached_over_stdio() {
    let server = stdio_server(&[]);
    assert!(server.is_stdio());
    assert!(!server.is_http());
}

#[test]
fn tool_filter_allows_all_when_empty() {
    let filter = ToolFilter::default();
    assert!(filter.allows("anything"));
    assert!(filter.allows("other"));
}

#[test]
fn tool_filter_blocks_specific() {
    let filter = ToolFilter::new(vec![], vec!["dangerous".into()]);
    assert!(filter.allows("safe"));
    assert!(!filter.allows("dangerous"));
}

#[test]
fn tool_filter_allowlist_only() {
    let filter = ToolFilter::new(vec!["a".into(), "b".into()], vec![]);
    assert!(filter.allows("a"));
    assert!(filter.allows("b"));
    assert!(!filter.allows("c"));
}

#[test]
fn tool_filter_block_overrides_allow() {
    let filter = ToolFilter::new(vec!["a".into(), "b".into()], vec!["a".into()]);
    assert!(!filter.allows("a"));
    assert!(filter.allows("b"));
}

fn names(filter: &ToolFilter) -> Vec<String> {
    expose_tools("mock", mock_tools(), filter).into_iter().map(|t| t.spec.name).collect()
}

#[test]
fn stdio_lists_namespaced_tools() {
    let mut names = names(&ToolFilter::default());
    names.sort_unstable();
    assert_eq!(names, ["mock__add", "mock__echo"]);
}

#[test]
fn stdio_tool_filter_blocks_tool() {
    let names = names(&ToolFilter::new(vec![], vec!["echo".into()]));
    assert!(!names.contains(&"mock__echo".to_string()), "{names:?}");
    assert!(names.contains(&"mock__add".to_string()), "{names:?}");
}

fn arguments(text: &str) -> JsonMap {
    call_arguments(Json::parse(text).unwrap())
}

#[test]
fn stdio_calls_tools_and_returns_results() {
    match mock_call("add", &arguments(r#"{"a": 2, "b": 40}"#)) {
        MockCall::Sum(a, b) => assert_eq!(sum_answer(a, b), "42"),
        other => panic!("unexpected call: {other:?}"),
    }
    match mock_call("echo", &arguments(r#"{"text": "hello"}"#)) {
        MockCall::Echo(text) => assert_eq!(text, "hello"),
        other => panic!("unexpected call: {other:?}"),
    }
    match mock_call("nope", &arguments("{}")) {
        MockCall::Unknown(message) => assert_eq!(message, "unknown tool: nope"),
        other => panic!("unexpected call: {other:?}"),
    }
}

#[test]
fn missing_arguments_count_as_nothing() {
    match mock_call("add", &arguments("[1]")) {
        MockCall::Sum(a, b) => assert_eq!((a, b), (0, 0)),
        other => panic!("unexpected call: {other:?}"),
    }
    match mock_call("echo", &arguments(r#"{"text": 5}"#)) {
        MockCall::Echo(text) => assert_eq!(text, ""),
        other => panic!("unexpected call: {other:?}"),
    }
    match mock_call("add", &arguments(r#"{"a": -7, "b": 18446744073709551615}"#)) {
        MockCall::Sum(a, b) => {
            assert_eq!((a, b), (-7, 0));
            assert_eq!(sum_answer(a, b), "-7");
        }
        other => panic!("unexpected call: {other:?}"),
    }
}

#[test]
fn the_schema_of_a_tool_is_handed_on() {
    let tools = expose_tools("mock", mock_tools(), &ToolFilter::default());
    assert_eq!(tools[0].tool_name, "echo");
    assert_eq!(tools[0].spec.description, "Echo back the provided text.");
    let expected: Value = serde_json::from_str(
        r#"{"type": "object", "properties": {"text": {"type": "string"}}, "required": ["text"]}"#,
    )
    .unwrap();
    assert_eq!(tools[0].spec.parameters_schema.copy().into_value(), expected);
}

#[test]
fn a_tool_without_a_description_has_an_empty_one() {
    let tool = ServedTool {
        name: "t".to_string(),
        description: None,
        input_schema: JsonMap::new(),
    };
    let tools = expose_tools("s", vec![tool], &ToolFilter::default());
    assert_eq!(tools[0].spec.description, "");
    assert_eq!(tools[0].spec.name, namespaced_name("s", "t"));
}

#[test]
fn text_blocks_become_lines_and_errors_fail() {
    let blocks = || {
        vec![
            ToolContent::Text("one".to_string()),
            ToolContent::Other,
            ToolContent::Text("two".to_string()),
        ]
    };
    assert_eq!(tool_output(blocks(), None).unwrap(), "one\ntwo");
    assert_eq!(tool_output(blocks(), Some(false)).unwrap(), "one\ntwo");
    let err = tool_output(blocks(), Some(true)).unwrap_err();
    assert_eq!(err, McpError::ToolCall("one\ntwo".to_string()));
    assert_eq!(call_failure(&err).message(), "tool call failed: one\ntwo");
}

#[test]
fn failures_say_what_failed() {
    assert_eq!(
        launch_failure("uvx", "not found").to_message(),
        "transport error: failed to launch 'uvx': not found"
    );
    assert_eq!(stdio_failure("eof").to_message(), "transport error: stdio handshake failed: eof");
    assert_eq!(
        http_failure("http://x", "refused").to_message(),
        "transport error: HTTP handshake failed for http://x: refused"
    );
    assert_eq!(
        invalid_header_name("a b", "bad").to_message(),
        "config error: invalid header name 'a b': bad"
    );
    assert_eq!(
        invalid_header_value("a", "bad").to_message(),
        "config error: invalid header value for 'a': bad"
    );
    assert_eq!(McpError::Io("gone".to_string()).to_message(), "IO error: gone");
}

#[test]
fn tools_of_two_plainly_named_servers_get_two_names() {
    assert_ne!(namespaced_name("git", "log"), namespaced_name("github", "log"));
    assert_ne!(namespaced_name("git", "log"), namespaced_name("git", "show"));
    // A server's name that ends in an underscore can run into the separator.
    assert_eq!(namespaced_name("a", "_x"), namespaced_name("a_", "x"));
}
