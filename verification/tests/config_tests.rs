use chronikl::config::{
    merge, parse_bool, Config, ConfigError, ConfigLayer, LadderLayer, OutputFormat, DEFAULT_BATCH_SIZE,
    DEFAULT_MAX_DIFF_TOKENS,
};
use chronikl::env::Env;

fn provider_layer(name: Option<&str>, model: Option<&str>) -> ConfigLayer {
    let mut c = ConfigLayer::default();
    c.provider.name = name.map(|s| s.to_string());
    c.provider.model = model.map(|s| s.to_string());
    c
}

#[test]
fn defaults_are_sensible() {
    let cfg = Config::default();
    assert!(cfg.telemetry.enabled);
    assert_eq!(cfg.ladder.batch_size, DEFAULT_BATCH_SIZE);
    assert_eq!(cfg.ladder.max_diff_tokens, DEFAULT_MAX_DIFF_TOKENS);
    assert!(matches!(cfg.output.format, OutputFormat::Markdown));
}

#[test]
fn loads_repo_toml() {
    let mut repo = provider_layer(Some("anthropic"), Some("large-model-4-6"));
    repo.ladder = LadderLayer {
        agent_fallback: Some(true),
        max_diff_tokens: Some(8000),
        confidence_threshold: Some(500),
        batch_size: Some(25),
    };
    let env = Env::mock(&[]);
    let cfg = Config::load(&env, None, Some(repo)).unwrap();
    assert_eq!(cfg.provider.name.as_deref(), Some("anthropic"));
    assert_eq!(cfg.provider.model.as_deref(), Some("large-model-4-6"));
    assert!(cfg.ladder.agent_fallback);
    assert_eq!(cfg.ladder.max_diff_tokens, 8000);
    assert_eq!(cfg.ladder.batch_size, 25);
}

#[test]
fn repo_toml_overrides_global_toml() {
    let global = provider_layer(Some("openai"), Some("gpt-5"));
    let repo = provider_layer(Some("anthropic"), None);
    let env = Env::mock(&[]);
    let cfg = Config::load(&env, Some(global), Some(repo)).unwrap();
    assert_eq!(cfg.provider.name.as_deref(), Some("anthropic"));
    assert_eq!(cfg.provider.model.as_deref(), Some("gpt-5"));
}

#[test]
fn env_overrides_toml() {
    let repo = provider_layer(Some("anthropic"), Some("large-model-4-6"));
    let env = Env::mock(&[
        ("CHRONIKL_PROVIDER", "openai"),
        ("CHRONIKL_MODEL", "gpt-5-mini"),
        ("CHRONIKL_TELEMETRY", "false"),
    ]);
    let cfg = Config::load(&env, None, Some(repo)).unwrap();
    assert_eq!(cfg.provider.name.as_deref(), Some("openai"));
    assert_eq!(cfg.provider.model.as_deref(), Some("gpt-5-mini"));
    assert!(!cfg.telemetry.enabled);
}

#[test]
fn provider_specific_api_key_fallback() {
    let env = Env::mock(&[
        ("CHRONIKL_PROVIDER", "anthropic"),
        ("ANTHROPIC_API_KEY", "sk-ant-test"),
    ]);
    let cfg = Config::load(&env, None, None).unwrap();
    assert_eq!(cfg.provider.api_key.as_deref(), Some("sk-ant-test"));
}

#[test]
fn chronikl_api_key_takes_precedence_over_provider_key() {
    let env = Env::mock(&[
        ("CHRONIKL_PROVIDER", "anthropic"),
        ("CHRONIKL_API_KEY", "from-chronikl"),
        ("ANTHROPIC_API_KEY", "from-anthropic"),
    ]);
    let cfg = Config::load(&env, None, None).unwrap();
    assert_eq!(cfg.provider.api_key.as_deref(), Some("from-chronikl"));
}

#[test]
fn invalid_telemetry_value_is_an_error() {
    let env = Env::mock(&[("CHRONIKL_TELEMETRY", "maybe")]);
    let err = Config::load(&env, None, None).unwrap_err();
    assert!(matches!(err, ConfigError::InvalidValue { .. }));
}

#[test]
fn telemetry_accepts_truthy_strings() {
    for v in ["1", "true", "yes", "on", "TRUE", "True"] {
        let env = Env::mock(&[("CHRONIKL_TELEMETRY", v)]);
        let cfg = Config::load(&env, None, None).unwrap();
        assert!(cfg.telemetry.enabled, "value `{v}` should parse to true");
    }
}

#[test]
fn telemetry_accepts_falsy_strings() {
    for v in ["0", "false", "no", "off", "FALSE"] {
        let env = Env::mock(&[("CHRONIKL_TELEMETRY", v)]);
        let cfg = Config::load(&env, None, None).unwrap();
        assert!(!cfg.telemetry.enabled, "value `{v}` should parse to false");
    }
}

#[test]
fn full_layering_global_repo_env() {
    let mut global = provider_layer(Some("anthropic"), Some("large-model-4-6"));
    global.ladder = LadderLayer {
        agent_fallback: Some(false),
        max_diff_tokens: Some(4000),
        confidence_threshold: Some(600),
        batch_size: Some(100),
    };
    let mut repo = provider_layer(None, Some("largest-model-4-7"));
    repo.telemetry_enabled = Some(false);
    let env = Env::mock(&[("CHRONIKL_MODEL", "small-model-4-5"), ("CHRONIKL_API_KEY", "k")]);
    let cfg = Config::load(&env, Some(global), Some(repo)).unwrap();
    assert_eq!(cfg.provider.name.as_deref(), Some("anthropic"));
    assert_eq!(cfg.provider.model.as_deref(), Some("small-model-4-5"));
    assert_eq!(cfg.provider.api_key.as_deref(), Some("k"));
    assert_eq!(cfg.ladder.batch_size, 100);
    assert!(!cfg.telemetry.enabled);
}

#[test]
fn provider_specific_api_key_picked_up_when_chronikl_one_is_absent() {
    let repo = provider_layer(Some("openai"), None);
    let env = Env::mock(&[("CHRONIKL_PROVIDER", "openai"), ("OPENAI_API_KEY", "sk-openai")]);
    let cfg = Config::load(&env, None, Some(repo)).unwrap();
    assert_eq!(cfg.provider.api_key.as_deref(), Some("sk-openai"));
}

#[test]
fn telemetry_off_via_env() {
    let env = Env::mock(&[("CHRONIKL_TELEMETRY", "false")]);
    let cfg = Config::load(&env, None, None).unwrap();
    assert!(!cfg.telemetry.enabled);
}

#[test]
fn merge_over_defaults_is_identity() {
    let mut c = Config::default();
    c.provider.name = Some("gemini".to_string());
    c.provider.model = Some("m".to_string());
    assert_eq!(merge(c.clone(), ConfigLayer::default()), c);
    assert_eq!(merge(c.clone(), provider_layer(Some("gemini"), Some("m"))), c);
}

#[test]
fn repo_layer_turns_telemetry_back_on() {
    let mut global = ConfigLayer::default();
    global.telemetry_enabled = Some(false);
    let mut repo = ConfigLayer::default();
    repo.telemetry_enabled = Some(true);
    let env = Env::mock(&[]);
    let cfg = Config::load(&env, Some(global.clone()), Some(repo)).unwrap();
    assert!(cfg.telemetry.enabled);
    let cfg = Config::load(&env, Some(global), Some(ConfigLayer::default())).unwrap();
    assert!(!cfg.telemetry.enabled);
}

#[test]
fn repo_layer_turns_rich_context_off() {
    let mut global = ConfigLayer::default();
    global.voice.rich_context = Some(true);
    let mut repo = ConfigLayer::default();
    repo.voice.rich_context = Some(false);
    repo.ladder.agent_fallback = Some(false);
    global.ladder.agent_fallback = Some(true);
    let env = Env::mock(&[]);
    let cfg = Config::load(&env, Some(global), Some(repo)).unwrap();
    assert!(!cfg.voice.rich_context);
    assert!(!cfg.ladder.agent_fallback);
}

#[test]
fn parse_bool_error_names_value() {
    assert_eq!(parse_bool("  On "), Ok(true));
    assert_eq!(
        parse_bool(" Maybe "),
        Err("expected boolean (true/false/1/0), got `maybe`".to_string())
    );
}

#[test]
fn gemini_key_falls_back_to_google() {
    let env = Env::mock(&[("CHRONIKL_PROVIDER", "Gemini"), ("GOOGLE_API_KEY", "g")]);
    let cfg = Config::load(&env, None, None).unwrap();
    assert_eq!(cfg.provider.api_key.as_deref(), Some("g"));
}
