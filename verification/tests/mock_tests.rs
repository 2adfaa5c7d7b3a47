use chronikl::audit::{AuditSink, CallStatus};
use chronikl::models::{Classified, TokenUsage};
use chronikl::providers::mock::{MockProvider, MockProviderConfig, MockResponse};
use chronikl::providers::{CompletionRequest, ProviderError};

fn req<'a>() -> CompletionRequest<'a> {
    CompletionRequest {
        system_prompt: "sys",
        user_prompt: "user",
        schema: serde_json::Value::Object(serde_json::Map::new()),
        max_tokens: 1000,
        label: "test",
        commit_shas: &[],
    }
}

#[test]
fn static_response_is_returned() {
    let mut m = MockProvider::returning("hello".to_string());
    let r = m.complete(&req()).unwrap();
    assert_eq!(r.text, "hello");
    assert_eq!(m.call_count(), 1);
}

#[test]
fn sequence_pops_in_order() {
    let mut m = MockProvider::returning_sequence(vec!["a".into(), "b".into()]);
    let r1 = m.complete(&req()).unwrap();
    let r2 = m.complete(&req()).unwrap();
    assert_eq!(r1.text, "a");
    assert_eq!(r2.text, "b");
    let r3 = m.complete(&req());
    assert!(r3.is_err());
    match r3 {
        Err(e) => assert_eq!(e, ProviderError::Api("MockProvider sequence exhausted".to_string())),
        Ok(_) => unreachable!(),
    }
}

#[test]
fn error_response_propagates() {
    let mut m = MockProvider::failing("boom".to_string());
    let err = m.complete(&req()).unwrap_err();
    assert!(matches!(err, ProviderError::Api(_)));
}

#[test]
fn captured_calls_record_prompts_and_label() {
    let mut m = MockProvider::returning("ok".to_string());
    m.complete(&req()).unwrap();
    let calls = m.captured_calls();
    assert_eq!(calls[0].label, "test");
    assert_eq!(calls[0].system_prompt, "sys");
    assert_eq!(calls[0].user_prompt, "user");
    assert_eq!(calls[0].max_tokens, 1000);
}

#[test]
fn audit_sink_receives_call_when_enabled() {
    let mut sink = AuditSink::new();
    sink.enable();
    let mut m = MockProvider::returning("ok".to_string()).with_audit_sink(sink);
    m.complete(&req()).unwrap();
    let sink = m.config.audit_sink.take().unwrap();
    let audit = sink.finalize(Classified::default(), String::new());
    assert_eq!(audit.llm_calls.len(), 1);
    assert_eq!(audit.llm_calls[0].label, "test");
    assert_eq!(audit.llm_calls[0].provider, "mock");
    assert_eq!(audit.llm_calls[0].tokens.input_tokens, 100);
}

#[test]
fn failed_call_is_audited_with_its_error() {
    let mut sink = AuditSink::new();
    sink.enable();
    let mut m = MockProvider::new(
        MockProviderConfig { provider_name: "p".into(), model: "m".into(), audit_sink: Some(sink) },
        MockResponse::Error("boom".into()),
    )
    .with_tokens(TokenUsage::new(1, 2, 0));
    assert!(m.complete(&req()).is_err());
    let sink = m.config.audit_sink.take().unwrap();
    let (n, totals) = sink.totals();
    assert_eq!(n, 1);
    assert_eq!(totals.output_tokens, 2);
    assert_eq!(
        sink.llm_calls[0].status,
        CallStatus::Failed { error: "LLM API error: boom".to_string() }
    );
    assert!(sink.llm_calls[0].response_hash.is_none());
}
