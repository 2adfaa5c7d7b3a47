use chronikl::cache::sanitize_model_id;
use chronikl::progress::{divider_sides, format_bytes, format_count, format_duration, RULE_WIDTH};
use chronikl::project::ProjectContext;
use chronikl::tools::budget::ToolBudget;
use chronikl::tools::{safe_resolve, Canonical, ToolError};
use chronikl::update::{
    asset_name, is_newer_than, validate_platform, verify_checksum, version_of_tag, UpdateError,
};
use chronikl::voice::{load_bundled, load_from_contents, resolve, VoiceError};

#[test]
fn sanitize_model_id_replaces_specials() {
    assert_eq!(sanitize_model_id("large-model-4-6"), "large-model-4-6");
    assert_eq!(sanitize_model_id("provider/model:tag"), "provider_model_tag");
    assert_eq!(sanitize_model_id(""), "unknown");
}

#[test]
fn duration_formatting_chooses_unit() {
    assert_eq!(format_duration(0, 0), "0ms");
    assert_eq!(format_duration(0, 123_000_000), "123ms");
    assert_eq!(format_duration(1, 234_000_000), "1.2s");
    assert_eq!(format_duration(30, 0), "30.0s");
    assert_eq!(format_duration(75, 0), "1m 15s");
    assert_eq!(format_duration(125, 0), "2m 05s");
}

#[test]
fn bytes_formatting_chooses_unit() {
    assert_eq!(format_bytes(0), "0 B");
    assert_eq!(format_bytes(512), "512 B");
    assert_eq!(format_bytes(2048), "2.0 KB");
    assert_eq!(format_bytes(1_048_576), "1.0 MB");
}

#[test]
fn count_formatting_inserts_thousands_separators() {
    assert_eq!(format_count(0), "0");
    assert_eq!(format_count(999), "999");
    assert_eq!(format_count(1_234), "1,234");
    assert_eq!(format_count(1_234_567), "1,234,567");
}

#[test]
fn divider_label_is_centered() {
    let (l, r) = divider_sides("release notes", RULE_WIDTH);
    assert_eq!(l + r + 15, RULE_WIDTH);
    assert!(l == 27 && r == 28, "expected 27/28, got {l}/{r}");
}

#[test]
fn divider_handles_oversized_label_gracefully() {
    let (l, r) = divider_sides("a-very-very-long-label-that-exceeds", 20);
    assert_eq!(l, 0);
    assert_eq!(r, 0);
}

#[test]
fn project_context_is_empty_helper() {
    assert!(ProjectContext::default().is_empty());
    let with_desc = ProjectContext { description: Some("x".into()), readme_intro: None };
    assert!(!with_desc.is_empty());
}

#[test]
fn budget_grants_within_cap() {
    let mut b = ToolBudget::new(3);
    assert_eq!(b.try_consume().unwrap(), 1);
    assert_eq!(b.try_consume().unwrap(), 2);
    assert_eq!(b.try_consume().unwrap(), 3);
}

#[test]
fn budget_rejects_after_cap() {
    let mut b = ToolBudget::new(2);
    b.try_consume().unwrap();
    b.try_consume().unwrap();
    assert!(b.try_consume().is_err());
    assert_eq!(b.used(), 2, "should not over-count rejected calls");
}

#[test]
fn zero_cap_means_unlimited() {
    let mut b = ToolBudget::new(0);
    for _ in 0..1000 {
        assert!(b.try_consume().is_ok());
    }
}

#[test]
fn safe_resolve_accepts_simple_relative() {
    let p = safe_resolve("/repo", "src/lib.rs", None, Canonical::NotFound).unwrap();
    assert_eq!(p, "/repo/src/lib.rs");
}

#[test]
fn safe_resolve_rejects_empty() {
    assert!(safe_resolve("/repo", "", None, Canonical::NotFound).is_err());
}

#[test]
fn safe_resolve_rejects_absolute() {
    assert!(matches!(
        safe_resolve("/repo", "/etc/passwd", None, Canonical::NotFound),
        Err(ToolError::InvalidPath { .. })
    ));
}

#[test]
fn safe_resolve_rejects_parent_dir() {
    assert!(matches!(
        safe_resolve("/repo", "../etc/passwd", None, Canonical::NotFound),
        Err(ToolError::EscapesRoot { .. })
    ));
    assert!(matches!(
        safe_resolve("/repo", "src/../../etc", None, Canonical::NotFound),
        Err(ToolError::EscapesRoot { .. })
    ));
}

#[test]
fn safe_resolve_rejects_dot_git() {
    assert!(matches!(
        safe_resolve("/repo", ".git/config", None, Canonical::NotFound),
        Err(ToolError::InsideGitDir { .. })
    ));
    assert!(matches!(
        safe_resolve("/repo", "src/.git/refs", None, Canonical::NotFound),
        Err(ToolError::InsideGitDir { .. })
    ));
}

#[test]
fn safe_resolve_follows_canonical_forms() {
    let outside = safe_resolve(
        "/repo",
        "escape",
        Some("/repo".to_string()),
        Canonical::Found("/tmp/secret.txt".to_string()),
    );
    assert!(matches!(outside, Err(ToolError::EscapesRoot { .. })));
    let inside = safe_resolve(
        "/repo",
        "alias",
        Some("/repo".to_string()),
        Canonical::Found("/repo/real.txt".to_string()),
    );
    assert_eq!(inside.unwrap(), "/repo/real.txt");
}

#[test]
fn validate_platform_does_not_panic() {
    let _ = validate_platform("x86_64-unknown-linux-gnu");
    assert!(validate_platform("x86_64-unknown-linux-gnu").is_ok());
    assert!(validate_platform("aarch64-apple-darwin").is_ok());
    match validate_platform("riscv64-unknown-linux-gnu") {
        Err(UpdateError::UnsupportedPlatform(m)) => {
            assert!(m.starts_with("no pre-built binary available for 'riscv64-unknown-linux-gnu'"))
        },
        other => panic!("unexpected {other:?}"),
    }
}

#[test]
fn detects_higher_version() {
    assert!(is_newer_than("0.1.0", "0.2.0"));
    assert!(is_newer_than("0.1.0", "1.0.0"));
    assert!(is_newer_than("0.1.0", "0.1.1"));
}

#[test]
fn rejects_lower_or_equal() {
    assert!(!is_newer_than("0.2.0", "0.1.0"));
    assert!(!is_newer_than("0.1.0", "0.1.0"));
}

#[test]
fn invalid_version_falls_back_to_string_inequality() {
    assert!(is_newer_than("abc", "def"));
    assert!(!is_newer_than("abc", "abc"));
}

const HELLO_WORLD_SHA256: &str = "b94d27b9934d3e08a52e52d7da7dabfac484efe37a5380ee9088f7ace2efcde9";

#[test]
fn verify_checksum_success() {
    let data = b"hello world";
    let checksums = format!("{HELLO_WORLD_SHA256}  chronikl-x86_64-unknown-linux-gnu.tar.gz\n");
    assert!(verify_checksum(data, "chronikl-x86_64-unknown-linux-gnu.tar.gz", &checksums).is_ok());
}

#[test]
fn verify_checksum_mismatch() {
    let data = b"hello world";
    let checksums = "0000000000000000000000000000000000000000000000000000000000000000  chronikl-x86_64-unknown-linux-gnu.tar.gz\n";
    let result = verify_checksum(data, "chronikl-x86_64-unknown-linux-gnu.tar.gz", checksums);
    match result {
        Err(UpdateError::ChecksumMismatch { expected, actual }) => {
            assert_eq!(expected, "0".repeat(64));
            assert_eq!(actual, HELLO_WORLD_SHA256);
        },
        other => panic!("unexpected {other:?}"),
    }
}

#[test]
fn verify_checksum_not_found() {
    let data = b"hello world";
    let checksums = "abc123  some-other-file.tar.gz\n";
    let result = verify_checksum(data, "chronikl-x86_64-unknown-linux-gnu.tar.gz", checksums);
    assert!(matches!(result, Err(UpdateError::ChecksumNotFound(_))));
}

#[test]
fn verify_checksum_picks_correct_line() {
    let data = b"hello world";
    let checksums = format!("aaaa  some-other.tar.gz\n{HELLO_WORLD_SHA256}  target.tar.gz\nbbbb  another.tar.gz\n");
    assert!(verify_checksum(data, "target.tar.gz", &checksums).is_ok());
}

#[test]
fn release_names() {
    assert_eq!(asset_name("x86_64-apple-darwin"), "chronikl-x86_64-apple-darwin.tar.gz");
    assert_eq!(version_of_tag("v1.2.3"), "1.2.3");
    assert_eq!(version_of_tag("1.2.3"), "1.2.3");
    assert_eq!(
        UpdateError::ChecksumNotFound("a.tar.gz".into()).message(),
        "checksum file does not contain entry for a.tar.gz"
    );
}

fn no_files(_: &str) -> Result<String, String> {
    Err("No such file or directory (os error 2)".to_string())
}

#[test]
fn bundled_terse_loads_and_is_marked_not_custom() {
    let v = load_bundled("terse").unwrap();
    assert!(!v.is_custom);
    assert_eq!(v.bundled_name, Some("terse"));
    assert!(!v.system_prompt.is_empty());
    assert!(v.system_prompt.contains("Markdown"));
}

#[test]
fn bundled_prose_loads_and_is_marked_not_custom() {
    let v = load_bundled("prose").unwrap();
    assert!(!v.is_custom);
    assert_eq!(v.bundled_name, Some("prose"));
    assert!(v.system_prompt.contains("Marquee bullets"));
}

#[test]
fn default_alias_resolves_to_terse() {
    let v = load_bundled("default").unwrap();
    assert_eq!(v.bundled_name, Some("terse"));
    assert_eq!(v.system_prompt, load_bundled("terse").unwrap().system_prompt);
}

#[test]
fn default_function_returns_terse() {
    let v = chronikl::voice::default();
    assert_eq!(v.bundled_name, Some("terse"));
    assert!(!v.is_custom);
}

#[test]
fn load_bundled_unknown_name_errors_with_known_list() {
    let err = load_bundled("operatic").unwrap_err();
    match err {
        VoiceError::UnknownProfile { name, known } => {
            assert_eq!(name, "operatic");
            assert!(known.contains(&"terse"));
            assert!(known.contains(&"prose"));
        },
        other => panic!("expected UnknownProfile, got {other:?}"),
    }
}

#[test]
fn load_from_contents_trims_and_marks_custom() {
    let v = load_from_contents("custom.md", Ok("\n\n  Body with padding.  \n\n".to_string())).unwrap();
    assert!(v.is_custom);
    assert_eq!(v.bundled_name, None);
    assert_eq!(v.system_prompt, "Body with padding.");
    assert!(matches!(load_from_contents("e.md", Ok("   \n\n  \n".to_string())), Err(VoiceError::Empty { .. })));
    assert!(matches!(load_from_contents("m.md", Err("gone".to_string())), Err(VoiceError::Io { .. })));
}

#[test]
fn resolve_no_inputs_returns_terse_default() {
    let v = resolve(None, None, None, no_files).unwrap();
    assert_eq!(v.bundled_name, Some("terse"));
}

#[test]
fn resolve_cli_name_loads_bundled() {
    let v = resolve(Some("prose"), None, None, no_files).unwrap();
    assert_eq!(v.bundled_name, Some("prose"));
}

#[test]
fn resolve_cli_wins_over_toml_path_and_profile() {
    let v = resolve(Some("prose"), Some("/nope"), Some("terse"), no_files).unwrap();
    assert_eq!(v.bundled_name, Some("prose"));
}

#[test]
fn resolve_toml_profile_loads_bundled() {
    let v = resolve(None, None, Some("prose"), no_files).unwrap();
    assert_eq!(v.bundled_name, Some("prose"));
}

#[test]
fn resolve_cli_unknown_name_falls_through_to_path_and_errors() {
    let err = resolve(Some("nope"), None, None, no_files).unwrap_err();
    assert!(matches!(err, VoiceError::Io { .. }));
}

#[test]
fn resolve_path_reads_the_file() {
    let read = |p: &str| if p == "v.md" { Ok("custom body".to_string()) } else { Err("missing".to_string()) };
    let v = resolve(None, Some("v.md"), Some("prose"), read).unwrap();
    assert!(v.is_custom);
    assert_eq!(v.system_prompt, "custom body");
}

#[test]
fn format_duration_matches_f32_seconds_everywhere_below_a_minute() {
    assert_eq!(format_duration(1, 150_000_000), "1.1s");
    assert_eq!(format_duration(1, 250_000_000), "1.2s");
    assert_eq!(format_duration(1, 250_300_000), "1.3s");
    for ms in 1000u64..60000 {
        let d = std::time::Duration::from_millis(ms);
        assert_eq!(format_duration(d.as_secs(), d.subsec_nanos()), format!("{:.1}s", d.as_secs_f32()), "at {ms} ms");
    }
    // A fixed pseudo-random walk over seconds and nanoseconds.
    let mut x: u64 = 0x9e37_79b9_7f4a_7c15;
    for _ in 0..200_000 {
        x ^= x << 13;
        x ^= x >> 7;
        x ^= x << 17;
        let secs = 1 + (x % 59);
        let nanos = ((x >> 8) % 1_000_000_000) as u32;
        let d = std::time::Duration::new(secs, nanos);
        assert_eq!(format_duration(secs, nanos), format!("{:.1}s", d.as_secs_f32()), "at {secs}s {nanos}ns");
    }
    for nanos in [0u32, 1, 999_999_999, 999_999_960, 50_000_000, 149_999_999] {
        for secs in 1u64..60 {
            let d = std::time::Duration::new(secs, nanos);
            assert_eq!(format_duration(secs, nanos), format!("{:.1}s", d.as_secs_f32()));
        }
    }
    assert_eq!(format_duration(0, 999_999_999), "999ms");
}

#[test]
fn format_bytes_matches_f64_division() {
    let cases: [usize; 10] = [
        1024,
        1536,
        1048575,
        1048576,
        1572864,
        10 * 1048576 + 52429,
        0xffff_ffff_ffff,
        0x20_0000_0000_0001,
        0x20_0000_0000_0003,
        usize::MAX,
    ];
    for n in cases {
        let expected = if n < 1024 {
            format!("{} B", n)
        } else if n < 1048576 {
            format!("{:.1} KB", n as f64 / 1024.0)
        } else {
            format!("{:.1} MB", n as f64 / (1024.0 * 1024.0))
        };
        assert_eq!(format_bytes(n), expected, "at {n}");
    }
    for n in (1024usize..3_000_000).step_by(97) {
        let expected = if n < 1048576 {
            format!("{:.1} KB", n as f64 / 1024.0)
        } else {
            format!("{:.1} MB", n as f64 / (1024.0 * 1024.0))
        };
        assert_eq!(format_bytes(n), expected, "at {n}");
    }
}

#[test]
fn budget_counts_min_of_attempts_and_cap() {
    let mut b = ToolBudget::new(2);
    let results: Vec<Result<usize, usize>> = (0..4).map(|_| b.try_consume()).collect();
    assert_eq!(results, vec![Ok(1), Ok(2), Err(2), Err(2)]);
    assert_eq!(b.used(), 2);
    let mut unlimited = ToolBudget::new(0);
    for k in 1..=5 {
        assert_eq!(unlimited.try_consume(), Ok(k));
    }
}
