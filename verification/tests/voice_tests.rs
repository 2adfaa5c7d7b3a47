use chronikl::config::{Config, ConfigLayer, VoiceLayer};
use chronikl::env::Env;
use chronikl::voice::{load_from_contents, resolve, VoiceError};

fn read_only(path: &'static str, body: &'static str) -> impl Fn(&str) -> Result<String, String> {
    move |p: &str| {
        if p == path {
            Ok(body.to_string())
        } else {
            Err("No such file or directory (os error 2)".to_string())
        }
    }
}

fn repo_voice(path: Option<&str>, profile: Option<&str>) -> ConfigLayer {
    let mut c = ConfigLayer::default();
    c.voice = VoiceLayer {
        path: path.map(|s| s.to_string()),
        profile: profile.map(|s| s.to_string()),
        extra_instructions: None,
        rich_context: None,
    };
    c
}

#[test]
fn load_from_file_missing_file_returns_io_err() {
    let read = read_only("elsewhere.md", "x");
    let err = load_from_contents("/definitely/not/here.md", read("/definitely/not/here.md")).unwrap_err();
    assert!(matches!(err, VoiceError::Io { .. }));
}

#[test]
fn voice_path_in_toml_is_loadable() {
    let mut repo = repo_voice(Some("release-voice.md"), None);
    repo.voice.extra_instructions = Some("Mention the release manager's name.".to_string());
    let env = Env::mock(&[]);
    let cfg = Config::load(&env, None, Some(repo)).unwrap();
    assert_eq!(cfg.voice.path.as_deref(), Some("release-voice.md"));
    assert!(cfg.voice.extra_instructions.is_some());
    let read = read_only("release-voice.md", "Write release notes like a pirate. Use 'arr' liberally.\n");
    let v = load_from_contents("release-voice.md", read("release-voice.md")).unwrap();
    assert!(v.is_custom);
    assert!(v.system_prompt.contains("pirate"));
}

#[test]
fn bundled_default_voice_is_usable_without_any_files() {
    let v = chronikl::voice::default();
    assert!(!v.system_prompt.is_empty());
    assert_eq!(v.bundled_name, Some("terse"));
    assert!(v.system_prompt.contains("Markdown"));
}

#[test]
fn missing_voice_file_surfaces_io_error() {
    let bogus = "/tmp/chronikl-test-no-such-file.md";
    let read = read_only("other.md", "x");
    let err = load_from_contents(bogus, read(bogus)).unwrap_err();
    assert!(err.message().contains("/tmp/chronikl-test-no-such-file.md"));
    assert_eq!(
        err.message(),
        "could not read voice file /tmp/chronikl-test-no-such-file.md: No such file or directory (os error 2)"
    );
}

#[test]
fn voice_profile_in_toml_loads_bundled() {
    let env = Env::mock(&[]);
    let cfg = Config::load(&env, None, Some(repo_voice(None, Some("prose")))).unwrap();
    assert_eq!(cfg.voice.profile.as_deref(), Some("prose"));
    let v = resolve(None, cfg.voice.path.as_deref(), cfg.voice.profile.as_deref(), read_only("", "")).unwrap();
    assert_eq!(v.bundled_name, Some("prose"));
    assert!(v.system_prompt.contains("Marquee bullets"));
}

#[test]
fn voice_path_beats_voice_profile_when_both_set() {
    let env = Env::mock(&[]);
    let cfg = Config::load(&env, None, Some(repo_voice(Some("custom.md"), Some("prose")))).unwrap();
    let v = resolve(
        None,
        cfg.voice.path.as_deref(),
        cfg.voice.profile.as_deref(),
        read_only("custom.md", "Custom voice body.\n"),
    )
    .unwrap();
    assert!(v.is_custom, "[voice].path should win over [voice].profile");
    assert_eq!(v.system_prompt, "Custom voice body.");
}

#[test]
fn unknown_voice_profile_surfaces_clear_error() {
    let err = resolve(None, None, Some("operatic"), read_only("", "")).unwrap_err();
    let msg = err.message();
    assert!(msg.contains("operatic"), "error should name the unknown profile: {msg}");
    assert!(msg.contains("terse"), "error should list known profiles: {msg}");
    assert!(msg.contains("prose"), "error should list known profiles: {msg}");
    assert_eq!(msg, "unknown voice profile `operatic` (known: terse, prose)");
}

#[test]
fn voice_rich_context_defaults_to_false_when_unset() {
    let env = Env::mock(&[]);
    let cfg = Config::load(&env, None, None).unwrap();
    assert!(!cfg.voice.rich_context);
}

#[test]
fn voice_rich_context_set_in_a_layer_survives() {
    let mut repo = repo_voice(None, Some("prose"));
    repo.voice.rich_context = Some(true);
    let env = Env::mock(&[]);
    let cfg = Config::load(&env, None, Some(repo)).unwrap();
    assert!(cfg.voice.rich_context);
    assert_eq!(cfg.voice.profile.as_deref(), Some("prose"));
}

#[test]
fn cli_voice_name_overrides_toml_path() {
    let env = Env::mock(&[]);
    let cfg = Config::load(&env, None, Some(repo_voice(Some("custom.md"), None))).unwrap();
    let v = resolve(
        Some("prose"),
        cfg.voice.path.as_deref(),
        cfg.voice.profile.as_deref(),
        read_only("custom.md", "Custom voice body.\n"),
    )
    .unwrap();
    assert_eq!(v.bundled_name, Some("prose"));
}

#[test]
fn empty_voice_file_message() {
    let err = load_from_contents("e.md", Ok("  \n".to_string())).unwrap_err();
    assert_eq!(err.message(), "voice file e.md is empty");
}
