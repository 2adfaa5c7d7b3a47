use chronikl::audit::{hash_hex, AuditSink, CallStatus, LlmCallAudit, AUDIT_SCHEMA_VERSION};
use chronikl::models::{Classified, TokenUsage};

fn sample_call() -> LlmCallAudit {
    LlmCallAudit {
        label: "tier-1-batch".into(),
        provider: "anthropic".into(),
        model: "small-model-4-5".into(),
        started_at_unix_ms: 0,
        duration_ms: 100,
        status: CallStatus::Success,
        tokens: TokenUsage::default(),
        prompt_hash: hash_hex("system\n\nuser"),
        response_hash: Some(hash_hex("response")),
        commit_shas: vec!["abc".into()],
        retries: 0,
        agent: None,
    }
}

#[test]
fn hash_hex_is_stable_and_64_chars() {
    let h = hash_hex("hello world");
    assert_eq!(h.len(), 64);
    assert_eq!(h, hash_hex("hello world"));
    assert_ne!(h, hash_hex("hello world!"));
}

#[test]
fn hash_hex_known_digest() {
    assert_eq!(
        hash_hex("hello world"),
        "b94d27b9934d3e08a52e52d7da7dabfac484efe37a5380ee9088f7ace2efcde9"
    );
}

#[test]
fn disabled_sink_drops_calls() {
    let mut sink = AuditSink::new();
    sink.record_call(sample_call());
    let audit = sink.finalize(Classified::default(), String::new());
    assert!(audit.llm_calls.is_empty());
    assert_eq!(audit.duration_ms, 0);
}

#[test]
fn enabled_sink_records_calls() {
    let mut sink = AuditSink::new();
    sink.enable();
    sink.record_call(sample_call());
    sink.record_call(sample_call());
    let audit = sink.finalize(Classified::default(), String::new());
    assert_eq!(audit.llm_calls.len(), 2);
}

#[test]
fn finalize_aggregates_tokens() {
    let mut sink = AuditSink::new();
    sink.enable();
    let mut a = sample_call();
    a.tokens = TokenUsage::new(10, 5, 0);
    sink.record_call(a);
    let mut b = sample_call();
    b.tokens = TokenUsage::new(20, 7, 3);
    sink.record_call(b);
    let (n, totals) = sink.totals();
    assert_eq!(n, 2);
    assert_eq!(totals.input_tokens, 30);
    let audit = sink.finalize(Classified::default(), String::new());
    assert_eq!(audit.tokens.input_tokens, 30);
    assert_eq!(audit.tokens.output_tokens, 12);
    assert_eq!(audit.tokens.cached_input_tokens, 3);
}

#[test]
fn finalize_fills_empty_snapshots_and_fresh_run_id() {
    let mut sink = AuditSink::new();
    sink.set_chronikl_version("1.2.3".to_string());
    sink.set_voice_name(Some("terse".to_string()));
    let audit = sink.finalize(Classified::default(), "# Notes".to_string());
    assert_eq!(audit.schema, AUDIT_SCHEMA_VERSION);
    assert_eq!(audit.rendered_markdown, "# Notes");
    assert_eq!(audit.chronikl_version, "1.2.3");
    assert_eq!(audit.voice_name.as_deref(), Some("terse"));
    assert_eq!(audit.range.version_bump, "unknown");
    assert!(audit.config.provider.is_none());
    assert_eq!(audit.run_id.len(), 36);
    assert_eq!(&audit.run_id[14..15], "4");
}

#[test]
fn finalize_with_keeps_id_and_duration() {
    let mut sink = AuditSink::new();
    sink.enable();
    let audit = sink.finalize_with("id-1".to_string(), 42, Classified::default(), String::new());
    assert_eq!(audit.run_id, "id-1");
    assert_eq!(audit.duration_ms, 42);
}

#[test]
fn sink_keeps_only_calls_recorded_after_enable() {
    let mut sink = AuditSink::new();
    let mut early = sample_call();
    early.label = "early".into();
    sink.record_call(early);
    sink.enable();
    let mut a = sample_call();
    a.tokens = TokenUsage::new(10, 5, 0);
    let mut b = sample_call();
    b.label = "second".into();
    b.tokens = TokenUsage::new(20, 7, 3);
    sink.record_call(a);
    sink.enable();
    sink.record_call(b);
    let doc = sink.finalize(Classified(vec![]), "notes".into());
    assert_eq!(doc.llm_calls.len(), 2);
    assert_eq!(doc.llm_calls[1].label, "second");
    assert_eq!(doc.tokens.input_tokens, 30);
    assert_eq!(doc.tokens.output_tokens, 12);
    assert_eq!(doc.tokens.cached_input_tokens, 3);
    assert_eq!(doc.schema, AUDIT_SCHEMA_VERSION);
    assert_eq!(doc.rendered_markdown, "notes");
}
