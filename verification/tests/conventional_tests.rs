use chronikl::git::conventional::{has_breaking_footer, parse};

#[test]
fn parses_simple_feat() {
    let c = parse("feat: add login flow", "").unwrap();
    assert_eq!(c.kind, "feat");
    assert_eq!(c.scope, None);
    assert!(!c.breaking);
    assert_eq!(c.description, "add login flow");
}

#[test]
fn parses_scope() {
    let c = parse("fix(parser): handle empty input", "").unwrap();
    assert_eq!(c.kind, "fix");
    assert_eq!(c.scope.as_deref(), Some("parser"));
}

#[test]
fn detects_bang_breaking() {
    let c = parse("feat!: drop Node 18 support", "").unwrap();
    assert!(c.breaking);
}

#[test]
fn detects_scope_with_bang() {
    let c = parse("chore(deps)!: bump major versions", "").unwrap();
    assert_eq!(c.kind, "chore");
    assert_eq!(c.scope.as_deref(), Some("deps"));
    assert!(c.breaking);
}

#[test]
fn detects_breaking_footer() {
    let c = parse(
        "feat: add v2 endpoint",
        "Adds /v2/users.\n\nBREAKING CHANGE: /v1/users is removed.",
    )
    .unwrap();
    assert!(c.breaking);
}

#[test]
fn detects_breaking_footer_with_hyphen() {
    let c = parse("feat: x", "BREAKING-CHANGE: y").unwrap();
    assert!(c.breaking);
}

#[test]
fn lowercase_kind() {
    let c = parse("FEAT: add thing", "").unwrap();
    assert_eq!(c.kind, "feat");
}

#[test]
fn rejects_missing_colon() {
    assert!(parse("feat add login flow", "").is_none());
}

#[test]
fn rejects_no_description() {
    assert!(parse("feat:", "").is_none());
}

#[test]
fn rejects_random_subject() {
    assert!(parse("WIP", "").is_none());
    assert!(parse("Merge pull request #42", "").is_none());
    assert!(parse("Update README", "").is_none());
}

#[test]
fn has_breaking_footer_works_alone() {
    assert!(has_breaking_footer("BREAKING CHANGE: yes"));
    assert!(has_breaking_footer("BREAKING-CHANGE: yes"));
    assert!(!has_breaking_footer("regular text"));
}

#[test]
fn header_is_read_from_the_trimmed_subject() {
    let c = parse("  feat(api):   spaced out  ", "").unwrap();
    assert_eq!(c.kind, "feat");
    assert_eq!(c.scope.as_deref(), Some("api"));
    assert_eq!(c.description, "spaced out");
}

#[test]
fn scope_is_trimmed_and_empty_scope_rejected() {
    let c = parse("fix( core ): x", "").unwrap();
    assert_eq!(c.scope.as_deref(), Some("core"));
    assert!(parse("fix(): x", "").is_none());
    assert!(parse("fix(core: x", "").is_none());
}

#[test]
fn kind_must_start_with_a_letter() {
    assert!(parse("1feat: x", "").is_none());
    let c = parse("feat-2_b: x", "").unwrap();
    assert_eq!(c.kind, "feat-2_b");
}

#[test]
fn colon_needs_whitespace_after_it() {
    assert!(parse("feat:x", "").is_none());
    assert!(parse("feat: a\nb", "").is_none());
}

#[test]
fn footer_must_start_a_line() {
    assert!(!has_breaking_footer("see BREAKING CHANGE: not at line start"));
    assert!(has_breaking_footer("intro\nBREAKING CHANGE: yes"));
    assert!(!has_breaking_footer("breaking change: lowercase"));
}

#[test]
fn parse_output_is_normalised() {
    let c = parse("  FEAT( Core ):   Add the thing  ", "").unwrap();
    assert_eq!(c.kind, "feat");
    assert_eq!(c.description, "Add the thing");
    assert_eq!(c.scope.as_deref(), Some("Core"));
    assert_eq!(c.kind, c.kind.to_ascii_lowercase());
    assert_eq!(c.description, c.description.trim());
    assert!(parse("fix: x", "body").is_some() == parse("fix: x", "").is_some());
}
