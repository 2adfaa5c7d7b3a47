use chronikl::git::log::{attach_files, log_from_output, parse_files, parse_metadata};
use chronikl::git::{
    diff_from_show, head_tag_from, is_semver_tag, previous_tag, release_kind_from,
    resolve_range_with, tags_from, version_bump_from, GitError, Range, RangeSpec,
};
use chronikl::models::{ReleaseKind, VersionBump, VersionScheme};

const FS: char = '\x1f';
const RS: char = '\x1e';

#[test]
fn range_arg_with_from() {
    let r = Range {
        from: Some("v0.1.0".into()),
        to: "HEAD".into(),
    };
    assert_eq!(r.as_arg(), "v0.1.0..HEAD");
}

#[test]
fn range_arg_without_from() {
    let r = Range {
        from: None,
        to: "HEAD".into(),
    };
    assert_eq!(r.as_arg(), "HEAD");
}

#[test]
fn semver_tag_recognition() {
    assert!(is_semver_tag("v0.1.0"));
    assert!(is_semver_tag("v1.2.3"));
    assert!(is_semver_tag("v1.2.3-rc.1"));
    assert!(is_semver_tag("v1.2.3+build.4"));
    assert!(!is_semver_tag("v1"));
    assert!(!is_semver_tag("v1.2"));
    assert!(!is_semver_tag("1.2.3"));
    assert!(!is_semver_tag("foo"));
}

#[test]
fn semver_tag_edge_cases() {
    assert!(is_semver_tag("v1.2.3.4"));
    assert!(!is_semver_tag("v1..3"));
    assert!(!is_semver_tag("v1.2."));
    assert!(!is_semver_tag("va.2.3"));
}

#[test]
fn parse_metadata_single_commit() {
    let input = format!(
        "abc123def{FS}abc123d{FS}Ada{FS}ada@x.com{FS}2026-01-01T00:00:00+00:00{FS}p1 p2{FS}feat: hello{FS}body line 1\nbody line 2{RS}"
    );
    let commits = parse_metadata(&input).unwrap();
    assert_eq!(commits.len(), 1);
    let c = &commits[0];
    assert_eq!(c.sha, "abc123def");
    assert_eq!(c.short_sha, "abc123d");
    assert_eq!(c.author_name, "Ada");
    assert_eq!(c.author_email, "ada@x.com");
    assert_eq!(c.parents, vec!["p1", "p2"]);
    assert_eq!(c.subject, "feat: hello");
    assert!(c.body.starts_with("body line 1"));
    assert!(c.is_merge());
    let conv = c.conventional.as_ref().unwrap();
    assert_eq!(conv.kind, "feat");
    assert_eq!(conv.description, "hello");
}

#[test]
fn parse_metadata_multiple_commits() {
    let input = format!(
        "sha1{FS}s1{FS}A{FS}a@x{FS}2026-01-01T00:00:00+00:00{FS}p{FS}feat: a{FS}{RS}\nsha2{FS}s2{FS}B{FS}b@x{FS}2026-01-02T00:00:00+00:00{FS}p{FS}fix: b{FS}{RS}"
    );
    let commits = parse_metadata(&input).unwrap();
    assert_eq!(commits.len(), 2);
    assert_eq!(commits[0].subject, "feat: a");
    assert_eq!(commits[1].subject, "fix: b");
}

#[test]
fn parse_files_groups_by_sha() {
    let input = "__CHRONIKL_SHA__abc\nsrc/lib.rs\nREADME.md\n\n__CHRONIKL_SHA__def\nCargo.toml\n";
    let entries = parse_files(input);
    let get = |k: &str| entries.iter().find(|(s, _)| s == k).map(|(_, f)| f.clone());
    assert_eq!(
        get("abc").unwrap(),
        vec!["src/lib.rs".to_string(), "README.md".to_string()]
    );
    assert_eq!(get("def").unwrap(), vec!["Cargo.toml".to_string()]);
}

#[test]
fn parse_metadata_picks_up_breaking_footer() {
    let input = format!(
        "sha{FS}s{FS}A{FS}a@x{FS}2026-01-01T00:00:00+00:00{FS}p{FS}refactor: rename Foo{FS}This renames Foo to Bar.\n\nBREAKING CHANGE: Foo no longer exists.{RS}"
    );
    let commits = parse_metadata(&input).unwrap();
    assert!(commits[0].breaking);
}

#[test]
fn parse_metadata_picks_up_pr_id() {
    let input = format!(
        "sha{FS}s{FS}A{FS}a@x{FS}2026-01-01T00:00:00+00:00{FS}p{FS}Add login flow (#42){FS}{RS}"
    );
    let commits = parse_metadata(&input).unwrap();
    assert_eq!(commits[0].pr_id, Some(42));
}

#[test]
fn parse_metadata_reports_first_missing_field() {
    let input = format!("sha{FS}s{FS}A{RS}");
    match parse_metadata(&input) {
        Err(GitError::ParseError(m)) => assert_eq!(m, "missing author email"),
        other => panic!("unexpected: {other:?}"),
    }
    let input = format!("sha{RS}");
    match parse_metadata(&input) {
        Err(GitError::ParseError(m)) => assert_eq!(m, "missing short sha"),
        other => panic!("unexpected: {other:?}"),
    }
}

#[test]
fn parse_metadata_skips_blank_records_and_trims_body() {
    let input = format!(
        "\n\n{RS}sha{FS}s{FS}A{FS}a@x{FS}d{FS}{FS}plain subject{FS}body\n\n{RS}\n"
    );
    let commits = parse_metadata(&input).unwrap();
    assert_eq!(commits.len(), 1);
    assert_eq!(commits[0].body, "body");
    assert!(commits[0].parents.is_empty());
    assert!(commits[0].conventional.is_none());
    assert!(!commits[0].breaking);
}

#[test]
fn log_from_output_joins_files_by_sha() {
    let meta = format!(
        "sha1{FS}s1{FS}A{FS}a@x{FS}d{FS}p{FS}feat: a{FS}{RS}\nsha2{FS}s2{FS}B{FS}b@x{FS}d{FS}p{FS}fix: b{FS}{RS}"
    );
    let files = "__CHRONIKL_SHA__sha2\nsrc/b.rs\n__CHRONIKL_SHA__sha1\nsrc/a.rs\nsrc/a2.rs\n";
    let commits = log_from_output(&meta, files).unwrap();
    assert_eq!(commits[0].files, vec!["src/a.rs", "src/a2.rs"]);
    assert_eq!(commits[1].files, vec!["src/b.rs"]);
}

#[test]
fn attach_files_leaves_unlisted_commits_alone() {
    let meta = format!("sha1{FS}s1{FS}A{FS}a@x{FS}d{FS}p{FS}x{FS}{RS}");
    let commits = parse_metadata(&meta).unwrap();
    let out = attach_files(commits, &vec![("other".to_string(), vec!["f".to_string()])]);
    assert!(out[0].files.is_empty());
}

#[test]
fn head_tag_picks_first_semver_line() {
    assert_eq!(head_tag_from("latest\n v1.2.0 \nv1.3.0\n"), Some("v1.2.0".to_string()));
    assert_eq!(head_tag_from("nightly\n"), None);
}

#[test]
fn tag_list_and_previous_tag() {
    let tags = tags_from("v2.0.0\n\n  v1.1.0\nv1.0.0\n");
    assert_eq!(tags, vec!["v2.0.0", "v1.1.0", "v1.0.0"]);
    assert_eq!(previous_tag(&tags, "v1.1.0"), Some("v1.0.0".to_string()));
    assert_eq!(previous_tag(&tags, "v1.0.0"), None);
    assert_eq!(previous_tag(&tags, "v9.9.9"), None);
}

#[test]
fn resolve_range_variants() {
    let list = "v2.0.0\nv1.0.0\n";
    let auto_tagged = resolve_range_with(&RangeSpec::Auto, "v2.0.0\n", list);
    assert_eq!(auto_tagged.from.as_deref(), Some("v1.0.0"));
    assert_eq!(auto_tagged.to, "HEAD");
    let auto_untagged = resolve_range_with(&RangeSpec::Auto, "", list);
    assert_eq!(auto_untagged.from.as_deref(), Some("v2.0.0"));
    let since = resolve_range_with(&RangeSpec::SinceLastTag, "v2.0.0\n", list);
    assert_eq!(since.from.as_deref(), Some("v2.0.0"));
    let explicit = resolve_range_with(
        &RangeSpec::Explicit {
            from: None,
            to: "main".into(),
        },
        "",
        "",
    );
    assert_eq!(explicit, Range { from: None, to: "main".into() });
}

#[test]
fn release_kind_and_bump_from_tag_output() {
    assert_eq!(release_kind_from("HEAD", "junk\nv1.0.0-rc.1\n"), ReleaseKind::Prerelease { label: "rc.1".into() });
    assert_eq!(release_kind_from("v1.0.0", ""), ReleaseKind::Stable);
    assert_eq!(release_kind_from("HEAD", ""), ReleaseKind::Untagged);
    let (bump, scheme) = version_bump_from(Some("v1.0.0"), "", "HEAD", "v2.0.0\n");
    assert_eq!(bump, VersionBump::Major);
    assert_eq!(scheme, Some(VersionScheme::Semver));
    let (bump, scheme) = version_bump_from(None, "", "HEAD", "");
    assert_eq!(bump, VersionBump::Unknown);
    assert_eq!(scheme, None);
}

#[test]
fn diff_drops_leading_newlines() {
    assert_eq!(diff_from_show("\n\ndiff --git a b\n"), "diff --git a b\n");
}

#[test]
fn git_error_messages() {
    assert_eq!(
        GitError::NonZeroExit { status: -1, stderr: "boom".into() }.message(),
        "git exited with status -1: boom"
    );
    assert_eq!(GitError::ParseError("x".into()).message(), "malformed git log output: x");
}
