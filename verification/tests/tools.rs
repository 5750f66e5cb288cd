use sweet::json::Json;
use sweet::tool::{ToolError, ToolRisk};
use sweet::tool_derive::{derive_tool, snake_case, DeriveError, Setting, ToolAttribute};
use sweet::tools::calculator::{compile, Calculator, Op, ParseError, DIVISION_BY_ZERO};
use sweet::tools::http_fetch::HttpFetch;
use sweet::tools::time::CurrentTime;
use sweet::tools::web_search::brave::{brave_results, BraveBackend, BraveResult};
use sweet::tools::web_search::tavily::{
    tavily_results, SearchDepth, TavilyBackend, TavilyResult,
};
use sweet::tools::web_search::{
    accept_answer, format_markdown, SearchResult, WebSearch, WebSearchError,
};

fn schema() -> Json {
    Json::parse(r#"{"type": "object"}"#).unwrap()
}

fn evaluate(expression: &str) -> Result<f64, &'static str> {
    let request = Calculator { expression: expression.to_string() };
    let program = request.program();
    let mut stack: Vec<f64> = Vec::new();
    for op in program.ops {
        match op {
            Op::Number(t) => stack.push(t.parse().unwrap()),
            Op::Positive => {}
            Op::Negative => {
                let a = stack.pop().unwrap();
                stack.push(-a);
            }
            binary => {
                let b = stack.pop().unwrap();
                let a = stack.pop().unwrap();
                stack.push(match binary {
                    Op::Power => a.powf(b),
                    Op::Multiply => a * b,
                    Op::Divide => {
                        if b == 0.0 {
                            return Err(DIVISION_BY_ZERO);
                        }
                        a / b
                    }
                    Op::Add => a + b,
                    _ => a - b,
                });
            }
        }
    }
    match program.failure {
        Some(e) => Err(e.to_message()),
        None => {
            assert_eq!(stack.len(), 1);
            Ok(stack[0])
        }
    }
}

#[test]
fn calculator_name_and_description_are_present() {
    let t = Calculator::tool(schema());
    assert_eq!(t.spec.name, "calculator");
    assert!(!t.spec.description.is_empty());
    assert_eq!(t.risk, ToolRisk::ReadOnly);
    assert_eq!(Calculator::default().expression, "");
}

#[test]
fn basic_addition() {
    assert_eq!(evaluate("2 + 3").unwrap().to_string(), "5");
}

#[test]
fn mixed_expression() {
    assert_eq!(evaluate("(2 + 3) * 4 - 6 / 2").unwrap().to_string(), "17");
}

#[test]
fn power_and_decimal() {
    assert_eq!(evaluate("2 ^ 3 + 1.5").unwrap().to_string(), "9.5");
}

#[test]
fn division_by_zero() {
    assert!(evaluate("1 / 0").unwrap_err().contains("division by zero"));
}

#[test]
fn invalid_expression() {
    assert!(evaluate("2 +").unwrap_err().contains("expected number"));
}

#[test]
fn steps_come_in_the_order_of_evaluation() {
    let number = |t: &str| Op::Number(t.to_string());
    let program = compile("1 + 2 * -3");
    assert_eq!(
        program.ops,
        vec![number("1"), number("2"), number("3"), Op::Negative, Op::Multiply, Op::Add]
    );
    assert_eq!(program.failure, None);
}

#[test]
fn every_way_to_fail_has_its_message() {
    assert_eq!(compile("").failure, Some(ParseError::ExpectedNumber));
    assert_eq!(compile(".").failure, Some(ParseError::ExpectedNumber));
    assert_eq!(compile("1.2.3").failure, Some(ParseError::InvalidNumber));
    assert_eq!(compile("(1").failure, Some(ParseError::MissingParenthesis));
    assert_eq!(compile("1 2").failure, Some(ParseError::TrailingCharacters));
    assert_eq!(ParseError::MissingParenthesis.to_message(), "missing ')'");
    assert_eq!(ParseError::InvalidNumber.to_message(), "invalid number");
    assert_eq!(ParseError::TrailingCharacters.to_message(), "trailing characters");
}

#[test]
fn what_is_computed_first_fails_first() {
    assert_eq!(evaluate("1 / 0 + ("), Err("division by zero"));
    assert_eq!(evaluate("( 1 / 1"), Err("missing ')'"));
}

#[test]
fn operators_group_to_the_left() {
    assert_eq!(evaluate("2 ^ 3 ^ 2").unwrap(), 64.0);
    assert_eq!(evaluate("10 - 3 - 2").unwrap(), 5.0);
    assert_eq!(evaluate("-2 ^ 2").unwrap(), 4.0);
    assert_eq!(evaluate(" ( ( 1. + .5 ) ) ").unwrap(), 1.5);
}

#[test]
fn fetch_returns_status_and_body() {
    let tool = HttpFetch { url: "http://host/hello".to_string(), max_bytes: None };
    let result = tool.reply("200 OK", &b"world".to_vec());
    assert!(result.contains("Status: 200 OK"));
    assert!(result.contains("world"));
    assert_eq!(result, "Status: 200 OK\n\nworld");
}

#[test]
fn fetch_respects_max_bytes() {
    let tool = HttpFetch { url: "http://host".to_string(), max_bytes: Some(5) };
    let result = tool.reply("200 OK", &b"hello world".to_vec());
    assert!(result.contains("hello"));
    assert!(!result.contains("world"));
}

#[test]
fn bytes_that_are_no_text_are_replaced() {
    let tool = HttpFetch::default();
    assert_eq!(tool.reply("200 OK", &vec![b'a', 0xff]), "Status: 200 OK\n\na\u{fffd}");
    assert_eq!(HttpFetch::tool(schema()).spec.name, "http_fetch");
}

#[test]
fn time_name_and_description_are_present() {
    let t = CurrentTime::tool(schema());
    assert_eq!(t.spec.name, "current_time");
    assert!(!t.spec.description.is_empty());
}

fn hit(title: &str, url: &str, snippet: &str) -> SearchResult {
    SearchResult {
        title: title.to_string(),
        url: url.to_string(),
        snippet: snippet.to_string(),
    }
}

#[test]
fn format_markdown_with_empty_results() {
    assert_eq!(format_markdown(&[]), "No results.");
}

#[test]
fn format_markdown_with_one_result() {
    let results = vec![SearchResult {
        title: "Rust Programming Language".to_string(),
        url: "https://www.rust-lang.org".to_string(),
        snippet: "A language empowering everyone to build reliable software.".to_string(),
    }];
    let md = format_markdown(&results);
    assert_eq!(
        md,
        "1. [Rust Programming Language](https://www.rust-lang.org)\n   A language empowering everyone to build reliable software.\n"
    );
}

#[test]
fn format_markdown_with_multiple_results() {
    let results = vec![
        SearchResult {
            title: "First".to_string(),
            url: "https://first.example".to_string(),
            snippet: "Snippet one".to_string(),
        },
        SearchResult {
            title: "Second".to_string(),
            url: "https://second.example".to_string(),
            snippet: "Snippet two".to_string(),
        },
    ];
    let md = format_markdown(&results);
    assert!(md.contains("1. [First](https://first.example)"));
    assert!(md.contains("2. [Second](https://second.example)"));
    assert!(md.contains("   Snippet one"));
    assert!(md.contains("   Snippet two"));
}

#[test]
fn format_markdown_omits_blank_snippet_line() {
    let results = vec![SearchResult {
        title: "No Snippet".to_string(),
        url: "https://example.com".to_string(),
        snippet: "".to_string(),
    }];
    let md = format_markdown(&results);
    assert_eq!(md, "1. [No Snippet](https://example.com)\n");
}

#[test]
fn web_search_tool_calls_backend_and_formats() {
    let tool = WebSearch::new(());
    let result = tool.answer(Ok(vec![hit("Hello", "https://hello.com", "World")])).unwrap();
    assert!(result.contains("[Hello](https://hello.com)"));
    assert!(result.contains("World"));
    assert_eq!(tool.tool(schema()).spec.name, "web_search");
}

#[test]
fn web_search_tool_uses_default_max_results_when_omitted() {
    assert_eq!(WebSearch::new(()).results_wanted(None), 5);
    assert_eq!(WebSearch::new(()).with_default_max_results(8).results_wanted(None), 8);
}

#[test]
fn web_search_tool_passes_through_max_results_override() {
    assert_eq!(WebSearch::new(()).results_wanted(Some(12)), 12);
}

#[test]
fn a_failed_search_is_a_failed_call() {
    let err = WebSearch::new(())
        .answer(Err(WebSearchError::Network("down".to_string())))
        .unwrap_err();
    assert_eq!(err, ToolError::Execution("network error: down".to_string()));
    assert_eq!(WebSearchError::Decode("x".to_string()).to_message(), "decode error: x");
}

#[test]
fn brave_backend_sends_query_and_subscription_token() {
    let backend = BraveBackend::new("test-key").with_base_url("http://host/");
    assert_eq!(backend.request_url(), "http://host/res/v1/web/search");
    assert!(backend
        .request_headers()
        .contains(&("X-Subscription-Token".to_string(), "test-key".to_string())));
    assert_eq!(
        backend.request_query("rust", 3),
        vec![("q".to_string(), "rust".to_string()), ("count".to_string(), "3".to_string())]
    );
    let results = brave_results(vec![
        BraveResult {
            title: "Rust Programming Language".to_string(),
            url: "https://www.rust-lang.org".to_string(),
            description: "A language empowering everyone to build reliable software.".to_string(),
        },
        BraveResult {
            title: "The Rust Book".to_string(),
            url: "https://doc.rust-lang.org/book/".to_string(),
            description: "The official book on Rust.".to_string(),
        },
    ]);
    assert_eq!(results.len(), 2);
    assert_eq!(results[0].title, "Rust Programming Language");
    assert_eq!(results[0].url, "https://www.rust-lang.org");
    assert_eq!(
        results[0].snippet,
        "A language empowering everyone to build reliable software."
    );
    assert_eq!(results[1].title, "The Rust Book");
}

#[test]
fn brave_backend_propagates_http_error_with_body() {
    match accept_answer(401, "bad key".to_string()).unwrap_err() {
        WebSearchError::Http { status, body } => {
            assert_eq!(status, 401);
            assert_eq!(body, "bad key");
        }
        other => panic!("unexpected variant: {other:?}"),
    }
    assert_eq!(accept_answer(204, String::new()).unwrap(), "");
}

#[test]
fn brave_from_env_reads_api_key() {
    let backend = BraveBackend::from_env(Some("from-env-key".to_string())).unwrap();
    assert_eq!(backend.api_key, "from-env-key");
    assert_eq!(backend.base_url, "https://api.search.brave.com");
}

#[test]
fn brave_from_env_errors_when_unset() {
    let err = BraveBackend::from_env(None).unwrap_err();
    assert_eq!(err, WebSearchError::MissingApiKey { var: "BRAVE_SEARCH_API_KEY" });
    assert_eq!(
        err.to_message(),
        "required environment variable `BRAVE_SEARCH_API_KEY` is not set"
    );
}

#[test]
fn tavily_backend_sends_query_and_bearer_token() {
    let backend = TavilyBackend::new("test-key").with_base_url("http://host");
    assert_eq!(backend.request_url(), "http://host/search");
    assert_eq!(
        backend.request_headers(),
        vec![("authorization".to_string(), "Bearer test-key".to_string())]
    );
    let body = backend.request_body("rust", 3).into_value();
    assert_eq!(body["query"], "rust");
    assert_eq!(body["max_results"], 3);
    assert_eq!(body["search_depth"], "basic");
    let deep = backend.with_search_depth(SearchDepth::Advanced);
    assert_eq!(deep.request_body("rust", 3).into_value()["search_depth"], "advanced");
    let results = tavily_results(vec![
        TavilyResult {
            title: "Rust Programming Language".to_string(),
            url: "https://www.rust-lang.org".to_string(),
            content: "A language empowering everyone to build reliable software.".to_string(),
        },
        TavilyResult {
            title: "The Rust Book".to_string(),
            url: "https://doc.rust-lang.org/book/".to_string(),
            content: "The official book on Rust.".to_string(),
        },
    ]);
    assert_eq!(results.len(), 2);
    assert_eq!(results[0].title, "Rust Programming Language");
    assert_eq!(results[0].url, "https://www.rust-lang.org");
    assert_eq!(
        results[0].snippet,
        "A language empowering everyone to build reliable software."
    );
    assert_eq!(results[1].title, "The Rust Book");
}

#[test]
fn tavily_from_env_reads_api_key() {
    let backend = TavilyBackend::from_env(Some("from-env-key".to_string())).unwrap();
    assert_eq!(backend.api_key, "from-env-key");
}

#[test]
fn tavily_from_env_errors_when_unset() {
    let err = TavilyBackend::from_env(None).unwrap_err();
    assert_eq!(err, WebSearchError::MissingApiKey { var: "TAVILY_API_KEY" });
}

fn settings(pairs: &[(&str, Option<&str>)]) -> ToolAttribute {
    ToolAttribute::Settings(
        pairs
            .iter()
            .map(|(k, v)| Setting { key: k.to_string(), value: v.map(|s| s.to_string()) })
            .collect(),
    )
}

#[test]
fn names_are_put_in_snake_case() {
    assert_eq!(snake_case("CurrentTime"), "current_time");
    assert_eq!(snake_case("HTTPFetch"), "h_t_t_p_fetch");
    assert_eq!(snake_case("calculator"), "calculator");
    assert_eq!(snake_case("ÄpfelÖl"), "äpfel_öl");
}

#[test]
fn a_derived_tool_is_named_after_its_structure() {
    let tool = derive_tool(
        "HttpFetch",
        vec![settings(&[("description", Some("Fetch")), ("risk", Some("readonly"))])],
    )
    .unwrap();
    assert_eq!(tool.name, "http_fetch");
    assert_eq!(tool.description, "Fetch");
    assert_eq!(tool.risk, ToolRisk::ReadOnly);
}

#[test]
fn settings_that_come_later_win() {
    let tool = derive_tool(
        "T",
        vec![
            settings(&[("description", Some("one")), ("name", Some("first"))]),
            settings(&[("description", Some("two")), ("name", None), ("other", Some("x"))]),
        ],
    )
    .unwrap();
    assert_eq!(tool.name, "first");
    assert_eq!(tool.description, "two");
    assert_eq!(tool.risk, ToolRisk::Dangerous);
}

#[test]
fn a_tool_that_cannot_be_derived_says_why() {
    let err = derive_tool("T", vec![]).unwrap_err();
    assert_eq!(err, DeriveError::MissingDescription);
    assert_eq!(
        err.to_message(),
        "#[derive(Tool)] requires #[tool(description = \"...\")]"
    );
    let err = derive_tool("T", vec![settings(&[]), ToolAttribute::NotAList]).unwrap_err();
    assert_eq!(err, DeriveError::NotAList(1));
    assert_eq!(err.to_message(), "expected #[tool(...)]");
    let err = derive_tool("T", vec![ToolAttribute::Unreadable("expected `=`".to_string())])
        .unwrap_err();
    assert_eq!(err, DeriveError::Unreadable(0, "expected `=`".to_string()));
    let err = derive_tool(
        "T",
        vec![settings(&[("description", Some("d")), ("risk", Some("wild"))])],
    )
    .unwrap_err();
    assert_eq!(
        err.to_message(),
        "unknown risk level `wild`; expected \"readonly\", \"file_write\", or \"dangerous\""
    );
    let tool = derive_tool(
        "T",
        vec![settings(&[("description", Some("d")), ("risk", Some("file_write"))])],
    )
    .unwrap();
    assert_eq!(tool.risk, ToolRisk::FileWrite);
}

#[test]
fn tavily_backend_propagates_http_error_with_body() {
    match accept_answer(401, "bad key".to_string()).unwrap_err() {
        WebSearchError::Http { status, body } => {
            assert_eq!(status, 401);
            assert_eq!(body, "bad key");
        }
        other => panic!("unexpected variant: {other:?}"),
    }
}

#[test]
fn brave_backend_via_tool_end_to_end() {
    let tool = WebSearch::new(BraveBackend::new("k"));
    let hits = brave_results(vec![
        BraveResult {
            title: "Rust Programming Language".to_string(),
            url: "https://www.rust-lang.org".to_string(),
            description: "A language empowering everyone to build reliable software.".to_string(),
        },
        BraveResult {
            title: "The Rust Book".to_string(),
            url: "https://doc.rust-lang.org/book/".to_string(),
            description: "The official book on Rust.".to_string(),
        },
    ]);
    let result = tool.answer(Ok(hits)).unwrap();
    assert!(result.contains("Rust Programming Language"));
    assert!(result.contains("https://www.rust-lang.org"));
    assert!(result.contains("The Rust Book"));
}

#[test]
fn tavily_backend_via_tool_end_to_end() {
    let tool = WebSearch::new(TavilyBackend::new("k"));
    let hits = tavily_results(vec![
        TavilyResult {
            title: "Rust Programming Language".to_string(),
            url: "https://www.rust-lang.org".to_string(),
            content: "A language empowering everyone to build reliable software.".to_string(),
        },
        TavilyResult {
            title: "The Rust Book".to_string(),
            url: "https://doc.rust-lang.org/book/".to_string(),
            content: "The official book on Rust.".to_string(),
        },
    ]);
    let result = tool.answer(Ok(hits)).unwrap();
    assert!(result.contains("Rust Programming Language"));
    assert!(result.contains("https://www.rust-lang.org"));
    assert!(result.contains("The Rust Book"));
}
