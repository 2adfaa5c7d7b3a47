use chronikl::models::{ParsedVersion, ReleaseKind, VersionBump, VersionScheme};
use chronikl::models::{Section, TokenUsage};


fn parse(s: &str) -> ParsedVersion {
    ParsedVersion::parse(s).unwrap()
}

// ── ReleaseKind ────────────────────────────────────────────────

#[test]
fn parses_stable_semver() {
    assert_eq!(ReleaseKind::from_tag("v1.2.3"), Some(ReleaseKind::Stable));
    assert_eq!(ReleaseKind::from_tag("0.1.0"), Some(ReleaseKind::Stable));
}

#[test]
fn parses_prerelease_semver() {
    let k = ReleaseKind::from_tag("v1.0.0-rc.1").unwrap();
    assert_eq!(
        k,
        ReleaseKind::Prerelease {
            label: "rc.1".into()
        }
    );
}

#[test]
fn parses_stable_calver_padded() {
    // Padded CalVer fails semver but should be recognised as stable.
    let k = ReleaseKind::from_tag("v2024.05.08").unwrap();
    assert_eq!(k, ReleaseKind::Stable);
}

#[test]
fn parses_calver_two_component() {
    let k = ReleaseKind::from_tag("2024.10").unwrap();
    assert_eq!(k, ReleaseKind::Stable);
}

#[test]
fn parses_short_calver_year() {
    let k = ReleaseKind::from_tag("v24.05.08").unwrap();
    assert_eq!(k, ReleaseKind::Stable);
}

#[test]
fn parses_calver_with_suffix_as_prerelease() {
    let k = ReleaseKind::from_tag("v2024.05.08-rc1").unwrap();
    assert_eq!(
        k,
        ReleaseKind::Prerelease {
            label: "rc1".into()
        }
    );
}

#[test]
fn rejects_non_version() {
    assert_eq!(ReleaseKind::from_tag("HEAD"), None);
    assert_eq!(ReleaseKind::from_tag("not-a-tag"), None);
    assert_eq!(ReleaseKind::from_tag("nightly-2024-05-08"), None);
    assert_eq!(ReleaseKind::from_tag("v1.2"), None);
}

// ── VersionScheme ──────────────────────────────────────────────

#[test]
fn detects_scheme_semver() {
    assert_eq!(parse("v1.2.3").scheme, VersionScheme::Semver);
    assert_eq!(parse("0.1.0").scheme, VersionScheme::Semver);
    assert_eq!(parse("v2024.5.8").scheme, VersionScheme::Semver);
}

#[test]
fn detects_scheme_calver() {
    // Padded forms aren't valid semver → must be recognised as CalVer.
    assert_eq!(parse("v2024.05.08").scheme, VersionScheme::Calver);
    assert_eq!(parse("2024.10").scheme, VersionScheme::Calver);
    assert_eq!(parse("v24.05.01").scheme, VersionScheme::Calver);
}

// ── VersionBump (semver) ───────────────────────────────────────

#[test]
fn bump_initial_when_no_from() {
    let to = parse("1.0.0");
    assert_eq!(
        VersionBump::from_parsed(None, Some(&to)),
        VersionBump::Initial
    );
}

#[test]
fn bump_unknown_when_no_to() {
    let from = parse("1.0.0");
    assert_eq!(
        VersionBump::from_parsed(Some(&from), None),
        VersionBump::Unknown
    );
}

#[test]
fn bump_major_minor_patch_semver() {
    let from = parse("1.5.3");
    assert_eq!(
        VersionBump::from_parsed(Some(&from), Some(&parse("2.0.0"))),
        VersionBump::Major
    );
    assert_eq!(
        VersionBump::from_parsed(Some(&from), Some(&parse("1.6.0"))),
        VersionBump::Minor
    );
    assert_eq!(
        VersionBump::from_parsed(Some(&from), Some(&parse("1.5.4"))),
        VersionBump::Patch
    );
}

#[test]
fn bump_unknown_for_same_or_downgrade() {
    let from = parse("1.0.0");
    assert_eq!(
        VersionBump::from_parsed(Some(&from), Some(&parse("1.0.0"))),
        VersionBump::Unknown
    );
    assert_eq!(
        VersionBump::from_parsed(Some(&parse("2.0.0")), Some(&parse("1.5.0"))),
        VersionBump::Unknown
    );
}

#[test]
fn bump_ignores_prerelease_label() {
    let from = parse("1.5.0");
    let to = parse("2.0.0-rc.1");
    assert_eq!(
        VersionBump::from_parsed(Some(&from), Some(&to)),
        VersionBump::Major
    );
}

// ── VersionBump (calver) ───────────────────────────────────────

#[test]
fn bump_calver_year_is_major() {
    let from = parse("2024.05.08");
    let to = parse("2025.01.15");
    assert_eq!(
        VersionBump::from_parsed(Some(&from), Some(&to)),
        VersionBump::Major
    );
}

#[test]
fn bump_calver_month_is_minor() {
    let from = parse("2024.05.08");
    let to = parse("2024.06.01");
    assert_eq!(
        VersionBump::from_parsed(Some(&from), Some(&to)),
        VersionBump::Minor
    );
}

#[test]
fn bump_calver_day_is_patch() {
    let from = parse("2024.05.08");
    let to = parse("2024.05.09");
    assert_eq!(
        VersionBump::from_parsed(Some(&from), Some(&to)),
        VersionBump::Patch
    );
}

// ── Cross-scheme refusal ───────────────────────────────────────

#[test]
fn cross_scheme_returns_unknown() {
    let from = parse("1.5.0"); // semver
    let to = parse("2024.05.08"); // calver
    assert_eq!(
        VersionBump::from_parsed(Some(&from), Some(&to)),
        VersionBump::Unknown
    );
}


#[test]
fn section_ordering_is_breaking_first() {
    let mut sections = vec![
        Section::Other,
        Section::Features,
        Section::Breaking,
        Section::Chore,
    ];
    sections.sort_by_key(|s| s.order_index());
    assert_eq!(
        sections,
        vec![
            Section::Breaking,
            Section::Features,
            Section::Chore,
            Section::Other
        ]
    );
}

#[test]
fn section_headers_are_title_case() {
    assert_eq!(Section::Breaking.header(), "Breaking Changes");
    assert_eq!(Section::BugFixes.header(), "Bug Fixes");
    assert_eq!(Section::Ci.header(), "CI");
}

#[test]
fn parse_lenient_accepts_synonyms() {
    assert_eq!(Section::parse_lenient("bug-fixes"), Some(Section::BugFixes));
    assert_eq!(Section::parse_lenient("Bug Fixes"), Some(Section::BugFixes));
    assert_eq!(Section::parse_lenient("FIX"), Some(Section::BugFixes));
    assert_eq!(Section::parse_lenient("fixes"), Some(Section::BugFixes));
    assert_eq!(Section::parse_lenient("perf"), Some(Section::Performance));
    assert_eq!(Section::parse_lenient("docs"), Some(Section::Documentation));
    assert_eq!(Section::parse_lenient("breaking"), Some(Section::Breaking));
    assert_eq!(
        Section::parse_lenient("breaking-changes"),
        Some(Section::Breaking)
    );
    assert_eq!(Section::parse_lenient("???"), None);
    assert_eq!(
        Section::parse_lenient("  features  "),
        Some(Section::Features)
    );
}


#[test]
fn add_assign_sums_each_field() {
    let mut a = TokenUsage::new(10, 20, 5);
    a += TokenUsage::new(100, 50, 30);
    assert_eq!(a.input_tokens, 110);
    assert_eq!(a.output_tokens, 70);
    assert_eq!(a.cached_input_tokens, 35);
    assert_eq!(a.total_tokens, 30 + 150);
}

#[test]
fn new_sets_total() {
    let u = TokenUsage::new(7, 13, 2);
    assert_eq!(u.total_tokens, 20);
}

#[test]
fn section_names_read_back() {
    for s in [
        Section::Breaking,
        Section::Features,
        Section::BugFixes,
        Section::Performance,
        Section::Refactor,
        Section::Documentation,
        Section::Tests,
        Section::Build,
        Section::Ci,
        Section::Chore,
        Section::Other,
    ] {
        assert_eq!(Section::parse_lenient(s.as_str()), Some(s));
    }
    assert_eq!(Section::BugFixes.as_str(), "bug-fixes");
}

#[test]
fn token_sum_saturates() {
    let mut a = TokenUsage::new(u64::MAX - 1, 0, 0);
    a += TokenUsage::new(5, 0, 0);
    assert_eq!(a.input_tokens, u64::MAX);
}

#[test]
fn release_kind_label_and_prerelease_flag() {
    let k = ReleaseKind::from_tag("v2.0.0-beta.2").unwrap();
    assert!(k.is_prerelease());
    assert_eq!(k.label(), Some("beta.2"));
    assert!(!ReleaseKind::Stable.is_prerelease());
    assert_eq!(ReleaseKind::Untagged.label(), None);
    assert_eq!(VersionBump::Major.as_str(), "major");
    assert_eq!(VersionScheme::Calver.as_str(), "calver");
}

#[test]
fn section_names_read_back_and_reader_normalises() {
    for s in [
        Section::Breaking,
        Section::Features,
        Section::BugFixes,
        Section::Performance,
        Section::Refactor,
        Section::Documentation,
        Section::Tests,
        Section::Build,
        Section::Ci,
        Section::Chore,
        Section::Other,
    ] {
        assert_eq!(Section::parse_lenient(s.as_str()), Some(s));
        let padded = format!("  {}\t", s.as_str().to_ascii_uppercase());
        assert_eq!(Section::parse_lenient(&padded), Some(s));
    }
    for raw in ["  Bug Fixes ", "FEAT", "nope", " Ci\n"] {
        let normal = raw.trim().to_ascii_lowercase();
        assert_eq!(Section::parse_lenient(raw), Section::parse_lenient(&normal));
    }
}
