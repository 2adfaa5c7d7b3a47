use chronikl::providers::agent_loop::{
    checked_args_summary, object_entries,    AgentRun, ReplyStep,
    after_text_reply, args_summary_from, is_terminal_call, last_assistant_text, may_call, short_args_summary,
    short_result_summary, tool_call_record, LoopConfig, TextReplyAction,
};
use chronikl::providers::response::{
    classify_api_message, classify_error, extract_json_candidates, is_retryable, parse_candidates, retry_backoff,
    unparseable_reply, INITIAL_BACKOFF, MAX_BACKOFF,
};
use chronikl::providers::{ProviderError, ProviderName};

#[test]
fn provider_name_round_trip() {
    for name in ["anthropic", "openai", "gemini", "github-models", "ollama", "openai-compatible"] {
        let parsed: ProviderName = ProviderName::from_name(name).unwrap();
        assert_eq!(parsed.as_str(), name);
    }
}

#[test]
fn provider_name_is_case_insensitive() {
    let p: ProviderName = ProviderName::from_name("Anthropic").unwrap();
    assert_eq!(p, ProviderName::Anthropic);
}

#[test]
fn provider_name_unknown_is_none() {
    assert_eq!(ProviderName::from_name("nonesuch"), None);
    assert_eq!(ProviderName::from_name("OPENAI-COMPATIBLE"), Some(ProviderName::OpenAICompatible));
    assert_eq!(ProviderName::default(), ProviderName::Anthropic);
}

#[test]
fn retryable_429() {
    let err = ProviderError::Api("HTTP 429 Too Many Requests".into());
    assert!(is_retryable(&err));
}

#[test]
fn retryable_503() {
    let err = ProviderError::Api("503 Service Unavailable".into());
    assert!(is_retryable(&err));
}

#[test]
fn retryable_overloaded_message() {
    let err = ProviderError::Api("anthropic: overloaded — try again later".into());
    assert!(is_retryable(&err));
}

#[test]
fn retryable_malformed_function_call() {
    let err = ProviderError::Api("ResponseError: finish_reason=MalformedFunctionCall".into());
    assert!(is_retryable(&err));
    assert_eq!(classify_error(&err), Some("Malformed tool call from model"));
}

#[test]
fn not_retryable_auth_error() {
    let err = ProviderError::Api("401 Unauthorized".into());
    assert!(!is_retryable(&err));
}

#[test]
fn not_retryable_parse_error() {
    let err = ProviderError::Parse("bad json".into());
    assert!(!is_retryable(&err));
}

#[test]
fn not_retryable_not_configured() {
    let err = ProviderError::NotConfigured("missing key".into());
    assert!(!is_retryable(&err));
}

#[test]
fn backoff_is_exponential() {
    assert_eq!(retry_backoff(0), INITIAL_BACKOFF);
    assert_eq!(retry_backoff(1), 20);
    assert_eq!(retry_backoff(2), 40);
}

#[test]
fn backoff_caps_at_max() {
    assert_eq!(retry_backoff(15), MAX_BACKOFF);
    assert_eq!(retry_backoff(u32::MAX), MAX_BACKOFF);
    assert_eq!(retry_backoff(3), MAX_BACKOFF);
}

#[test]
fn classify_messages_by_kind() {
    assert_eq!(classify_api_message("rate limit exceeded"), Some("Rate limited by API"));
    assert_eq!(classify_api_message("model under high demand"), Some("High model load"));
    assert_eq!(classify_api_message("529 overloaded"), Some("API overloaded"));
    assert_eq!(classify_api_message("502 bad gateway"), Some("API gateway error"));
    assert_eq!(classify_api_message("request timed out"), Some("Request timed out"));
    assert_eq!(classify_api_message("connection reset"), Some("Connection error"));
    assert_eq!(classify_api_message("temporarily unavailable"), Some("Temporary API error"));
    assert_eq!(classify_api_message("malformed function call"), Some("Malformed tool call from model"));
    assert_eq!(classify_api_message("401 unauthorized"), None);
    // The message is matched as given: upper case is not lowered here.
    assert_eq!(classify_api_message("TIMEOUT"), None);
    // ... but classify_error lowers it first.
    assert_eq!(classify_error(&ProviderError::Api("TIMEOUT".into())), Some("Request timed out"));
    assert_eq!(classify_error(&ProviderError::Parse("x".into())), Some("Failed to parse LLM response"));
    assert_eq!(classify_error(&ProviderError::NotConfigured("x".into())), None);
}

#[test]
fn provider_error_messages() {
    assert_eq!(ProviderError::Api("boom".into()).message(), "LLM API error: boom");
    assert_eq!(ProviderError::Parse("bad".into()).message(), "failed to parse LLM response: bad");
    assert_eq!(ProviderError::NotConfigured("key".into()).message(), "provider not configured: key");
}

#[test]
fn candidates_of_clean_json() {
    let c = extract_json_candidates(r#"[{"name":"a","n":1}]"#);
    assert_eq!(c, vec![r#"[{"name":"a","n":1}]"#.to_string(), r#"[{"name":"a","n":1}]"#.to_string()]);
}

#[test]
fn candidates_of_fenced_json() {
    let response = "Here you go:\n```json\n[{\"name\":\"x\",\"n\":42}]\n```";
    let c = extract_json_candidates(response);
    assert_eq!(c.len(), 3);
    assert_eq!(c[0], response);
    assert_eq!(c[1], "[{\"name\":\"x\",\"n\":42}]");
    assert_eq!(c[2], "[{\"name\":\"x\",\"n\":42}]");
}

#[test]
fn candidates_of_unlabelled_fence_and_prose() {
    let c = extract_json_candidates("```\nhello\n```");
    assert_eq!(c, vec!["```\nhello\n```".to_string(), "hello".to_string()]);
    let c = extract_json_candidates("I picked these:\n[{\"name\":\"alpha\",\"n\":7}]\nThat's all.");
    assert_eq!(c[1], "[{\"name\":\"alpha\",\"n\":7}]");
    assert_eq!(c.len(), 2);
}

#[test]
fn candidates_span_object_and_array() {
    // No `]`: the object span is used.
    let c = extract_json_candidates("x {\"a\": 1} y");
    assert_eq!(c[1], "{\"a\": 1}");
    // Both kinds: from the first opener to the last closer.
    let c = extract_json_candidates("{\"items\": [1]} tail");
    assert_eq!(c[1], "{\"items\": [1]}");
    // Closer before opener: no span.
    let c = extract_json_candidates("] and [");
    assert_eq!(c.len(), 1);
}

#[test]
fn candidates_of_several_fences() {
    let t = "```json\n{\"a\":1}\n```\ntext\n```\n  \n```\n```\n{\"b\":2}\n```";
    let c = extract_json_candidates(t);
    let span = &t[t.find('{').unwrap()..=t.rfind('}').unwrap()];
    // The second block's closing line is the next line of backticks, so
    // its text is a line of backticks; the last block has no opener left.
    assert_eq!(c, vec![t.to_string(), span.to_string(), "{\"a\":1}".to_string(), "```".to_string()]);
}

#[test]
fn blank_reply_is_parse_error() {
    match parse_candidates("   \n\n") {
        Err(ProviderError::Parse(m)) => assert_eq!(m, "LLM response was empty"),
        other => panic!("expected a parse error, got {other:?}"),
    }
    assert!(matches!(parse_candidates(""), Err(ProviderError::Parse(_))));
    let ok = parse_candidates("  [1]  ").unwrap();
    assert_eq!(ok[0], "[1]");
}

#[test]
fn unparseable_reply_quotes_the_reply() {
    match unparseable_reply("just regular text") {
        ProviderError::Parse(m) => {
            assert_eq!(m, "could not parse LLM response as JSON. Response: just regular text")
        },
        other => panic!("unexpected {other:?}"),
    }
    let long = "y".repeat(2500);
    match unparseable_reply(&long) {
        ProviderError::Parse(m) => assert_eq!(m.len(), "could not parse LLM response as JSON. Response: ".len() + 2000),
        other => panic!("unexpected {other:?}"),
    }
}

#[test]
fn short_args_summary_extracts_string_value() {
    let s = short_args_summary(r#"{"path":"src/lib.rs"}"#);
    assert_eq!(s, "path=src/lib.rs");
}

#[test]
fn short_args_summary_truncates_long_json() {
    let big = format!(r#"{{"a":"{}"}}"#, "x".repeat(200));
    let out = short_args_summary(&big);
    assert!(!out.is_empty());
    assert_eq!(out, format!("a={}", "x".repeat(200)));
}

#[test]
fn short_args_summary_cuts_other_json() {
    let big = format!(r#"{{"a":1,"b":"{}"}}"#, "x".repeat(200));
    let out = short_args_summary(&big);
    assert_eq!(out.len(), 80);
    assert!(out.ends_with("..."));
    assert_eq!(&out[..77], &big[..77]);
    assert_eq!(short_args_summary("not json"), "not json");
    assert_eq!(args_summary_from("x", Some(vec![("k".to_string(), Some("v".to_string()))])), "k=v");
    assert_eq!(args_summary_from("x", Some(vec![("k".to_string(), None)])), "x");
}

#[test]
fn short_result_summary_uses_bytes_for_large() {
    let big = "x".repeat(500);
    let out = short_result_summary(&big);
    assert!(out.contains("bytes"));
    assert_eq!(out, "500 bytes");
}

#[test]
fn short_result_summary_inlines_short() {
    let out = short_result_summary("3 results found");
    assert_eq!(out, "3 results found");
}

#[test]
fn short_result_summary_flattens_and_cuts() {
    assert_eq!(short_result_summary("a\nb"), "a b");
    let s = "z".repeat(95);
    assert_eq!(short_result_summary(&s), "z".repeat(80));
    // Exactly 100 bytes counts as large.
    assert_eq!(short_result_summary(&"q".repeat(100)), "100 bytes");
}

#[test]
fn loop_config_builders() {
    let c = LoopConfig::new("pre".to_string(), 100, 0);
    assert_eq!(c.max_turns, 1);
    assert!(c.terminal_tool.is_none());
    let c = c.with_terminal_tool("submit".to_string()).with_self_repair("call it".to_string());
    assert_eq!(c.terminal_tool.as_deref(), Some("submit"));
    assert_eq!(c.self_repair_message.as_deref(), Some("call it"));
    assert!(is_terminal_call(&c, "submit"));
    assert!(!is_terminal_call(&c, "read_file"));
    assert!(may_call(&c, 0));
    assert!(!may_call(&c, 1));
}

#[test]
fn text_reply_repairs_once() {
    let c = LoopConfig::new("p".to_string(), 10, 5)
        .with_terminal_tool("submit".to_string())
        .with_self_repair("fix".to_string());
    match after_text_reply(&c, 1, false) {
        TextReplyAction::Repair(m) => assert_eq!(m, "fix"),
        TextReplyAction::Finish => panic!("expected a repair"),
    }
    assert!(matches!(after_text_reply(&c, 1, true), TextReplyAction::Finish));
    assert!(matches!(after_text_reply(&c, 5, false), TextReplyAction::Finish));
    let plain = LoopConfig::new("p".to_string(), 10, 5);
    assert!(matches!(after_text_reply(&plain, 1, false), TextReplyAction::Finish));
}

#[test]
fn tool_call_records_success_and_failure() {
    let (rec, text) = tool_call_record("read_file", r#"{"path":"a"}"#, object_entries(r#"{"path":"a"}"#), 7, Ok("line\nline".to_string()));
    assert_eq!(text, "line\nline");
    assert_eq!(rec.name, "read_file");
    assert_eq!(rec.args_summary, "path=a");
    assert_eq!(rec.duration_ms, 7);
    assert!(!rec.failed);
    assert_eq!(rec.result_summary, "line line");
    assert_eq!(rec.result_hash.as_deref().map(|h| h.len()), Some(64));
    assert_eq!(rec.args_hash.len(), 64);
    let (rec, text) = tool_call_record("x", "{}", object_entries("{}"), 1, Err("boom".to_string()));
    assert_eq!(text, "error: boom");
    assert!(rec.failed);
    assert!(rec.result_hash.is_none());
    assert_eq!(rec.result_summary, "error: boom");
}

#[test]
fn last_assistant_text_picks_last_turn_with_text() {
    let turns = vec![
        vec!["first".to_string()],
        vec!["".to_string(), "a".to_string(), "".to_string()],
        vec![],
    ];
    assert_eq!(last_assistant_text(&turns), "a\n");
    let none: Vec<Vec<String>> = vec![vec![], vec!["".to_string()]];
    assert_eq!(last_assistant_text(&none), "");
    let two = vec![vec!["x".to_string(), "y".to_string()]];
    assert_eq!(last_assistant_text(&two), "x\ny");
}

#[test]
fn agent_run_repairs_once_then_finishes() {
    let config = LoopConfig::new("sys".into(), 100, 3)
        .with_terminal_tool("submit".into())
        .with_self_repair("please call submit".into());
    let mut run = AgentRun::new();
    assert!(run.may_continue(&config));
    let step = run.on_reply(&config, vec!["thinking".into()], false, chronikl::models::TokenUsage::new(10, 5, 0));
    assert_eq!(step, ReplyStep::Repair("please call submit".into()));
    let step = run.on_reply(&config, vec!["still text".into()], false, chronikl::models::TokenUsage::new(10, 5, 0));
    assert_eq!(step, ReplyStep::Finish);
    assert!(!run.may_continue(&config) || run.ended_by.is_none());
    let out = run.finish(&config);
    assert_eq!(out.turns, 2);
    assert!(out.self_repair_attempted);
    assert_eq!(out.final_text, "still text");
    assert_eq!(out.usage.input_tokens, 20);
}

#[test]
fn agent_run_ends_on_terminal_tool() {
    let config = LoopConfig::new("sys".into(), 100, 5).with_terminal_tool("submit".into());
    let mut run = AgentRun::new();
    assert_eq!(run.on_reply(&config, vec![], true, chronikl::models::TokenUsage::default()), ReplyStep::RunTools);
    let (text, done) = run.on_tool_result(&config, "read_file", r#"{"path":"a"}"#, object_entries(r#"{"path":"a"}"#), 3, Err("missing".into()));
    assert_eq!(text, "error: missing");
    assert!(!done);
    let (_, done) = run.on_tool_result(&config, "submit", "{}", None, 1, Ok("ok".into()));
    assert!(done);
    assert!(!run.may_continue(&config));
    let out = run.finish(&config);
    assert_eq!(out.tool_calls.len(), 2);
    assert!(out.tool_calls[0].failed);
    assert_eq!(out.terminated_via_tool.as_deref(), Some("submit"));
    assert_eq!(out.final_text, "");
}

#[test]
fn agent_run_ended_without_terminal_tool_has_no_tool_ending() {
    let config = LoopConfig::new("sys".into(), 100, 5).with_terminal_tool("submit".into());
    let mut run = AgentRun::new();
    assert_eq!(run.on_reply(&config, vec!["a".into()], true, chronikl::models::TokenUsage::default()), ReplyStep::RunTools);
    let (_, done) = run.on_tool_result(&config, "read_file", "{}", None, 1, Ok("x".into()));
    assert!(!done);
    assert!(run.may_continue(&config));
    let out = run.finish(&config);
    assert_eq!(out.terminated_via_tool, None);
    assert_eq!(out.final_text, "a");
}

#[test]
fn agent_run_failed_send_names_the_turn() {
    let config = LoopConfig::new("sys".into(), 100, 5);
    let mut run = AgentRun::new();
    assert_eq!(run.on_reply(&config, vec![], true, chronikl::models::TokenUsage::default()), ReplyStep::RunTools);
    let err = run.send_failed("boom");
    assert_eq!(err, chronikl::providers::ProviderError::Api("completion failed on turn 2: boom".into()));
    let err = AgentRun::new().send_failed("x");
    assert_eq!(err, chronikl::providers::ProviderError::Api("completion failed on turn 1: x".into()));
}

#[test]
fn agent_run_stops_at_turn_budget() {
    let config = LoopConfig::new("sys".into(), 100, 1);
    let mut run = AgentRun::new();
    assert_eq!(run.on_reply(&config, vec![], true, chronikl::models::TokenUsage::default()), ReplyStep::RunTools);
    assert!(!run.may_continue(&config));
}

#[test]
fn checked_args_summary_refuses_a_split_character() {
    // 76 ASCII bytes then a two-byte character straddling byte 77.
    let args = format!("[\"{}\u{e9}xxxxxx\"]", "a".repeat(74));
    assert!(args.len() > 80 && !args.is_char_boundary(77));
    assert_eq!(checked_args_summary(&args), None);
    let single = format!("{{\"k\":\"{}\u{e9}xxxxxxxx\"}}", "a".repeat(70));
    assert_eq!(checked_args_summary(&single), Some(format!("k={}\u{e9}xxxxxxxx", "a".repeat(70))));
    assert_eq!(checked_args_summary(r#"{"path":"src/lib.rs"}"#), Some("path=src/lib.rs".to_string()));
}
