use chronikl::config::ProviderConfig;
use chronikl::providers::client::{provider_setup, retry_after, RigProvider};
use chronikl::providers::{ProviderError, ProviderName};

fn cfg(name: Option<&str>, model: Option<&str>, key: Option<&str>, url: Option<&str>) -> ProviderConfig {
    ProviderConfig {
        name: name.map(|s| s.to_string()),
        model: model.map(|s| s.to_string()),
        api_key: key.map(|s| s.to_string()),
        base_url: url.map(|s| s.to_string()),
    }
}

#[test]
fn missing_api_key_for_anthropic_errors() {
    let err = RigProvider::new(cfg(Some("anthropic"), Some("small-model-4-5"), None, None)).err().unwrap();
    assert!(matches!(err, ProviderError::NotConfigured(_)));
    match err {
        ProviderError::NotConfigured(m) => assert_eq!(
            m,
            "no API key resolved for provider 'anthropic'. Set CHRONIKL_API_KEY or the provider-specific env var."
        ),
        _ => unreachable!(),
    }
}

#[test]
fn missing_model_errors() {
    let err = RigProvider::new(cfg(Some("anthropic"), None, Some("sk"), None)).err().unwrap();
    assert!(matches!(err, ProviderError::NotConfigured(_)));
}

#[test]
fn unknown_provider_errors() {
    let err = RigProvider::new(cfg(Some("not-a-real-provider"), Some("x"), Some("sk"), None)).err().unwrap();
    assert!(matches!(err, ProviderError::NotConfigured(_)));
}

#[test]
fn ollama_does_not_require_api_key() {
    let p = RigProvider::new(cfg(Some("ollama"), Some("llama3"), None, Some("http://localhost:11434")));
    assert!(p.is_ok());
}

#[test]
fn openai_compatible_requires_base_url_at_call_time() {
    let p = RigProvider::new(cfg(Some("openai-compatible"), Some("custom"), Some("k"), None)).ok().unwrap();
    assert!(p.require_base_url().is_err());
}

#[test]
fn openai_compatible_with_base_url_constructs() {
    let p = RigProvider::new(cfg(Some("openai-compatible"), Some("custom"), Some("k"), Some("https://api.example.com")))
        .ok()
        .unwrap();
    assert_eq!(p.require_base_url().unwrap(), "https://api.example.com");
    assert_eq!(p.name(), ProviderName::OpenAICompatible);
    assert_eq!(p.model_id(), "custom");
    assert_eq!(p.api_key().unwrap(), "k");
}

#[test]
fn provider_setup_without_name() {
    match provider_setup(None, Some("m"), true) {
        Err(ProviderError::NotConfigured(m)) => assert_eq!(m, "provider name not set"),
        _ => panic!("expected NotConfigured"),
    }
}

#[test]
fn retry_after_backs_off_then_gives_up() {
    let err = ProviderError::Api("HTTP 429 Too Many Requests".into());
    assert_eq!(retry_after(&err, 0), Some(10));
    assert_eq!(retry_after(&err, 2), Some(40));
    assert_eq!(retry_after(&err, 3), None);
    assert_eq!(retry_after(&ProviderError::Api("401 Unauthorized".into()), 0), None);
}
