use chronikl::ladder::tier0;
use chronikl::models::{Classified, Commit, Conventional, EnrichedCommit, ReleaseKind};
use chronikl::output::markdown::{render, RenderOptions};

fn commit(subject: &str, kind: Option<&str>, breaking: bool, pr_id: Option<u64>) -> Commit {
    let conventional = kind.map(|k| Conventional {
        kind: k.to_string(),
        scope: None,
        breaking,
        description: subject.split(": ").nth(1).unwrap_or(subject).to_string(),
    });
    Commit {
        sha: "0".repeat(40),
        short_sha: "0000000".to_string(),
        author_name: "ada".to_string(),
        author_email: "ada@x".to_string(),
        author_date: "2026-01-01T00:00:00+00:00".to_string(),
        parents: vec!["p".to_string()],
        subject: subject.to_string(),
        body: String::new(),
        files: vec!["x".to_string()],
        pr_id,
        conventional,
        breaking,
    }
}

fn enriched(subject: &str, kind: Option<&str>, breaking: bool, pr_id: Option<u64>) -> EnrichedCommit {
    EnrichedCommit::from_commit(commit(subject, kind, breaking, pr_id))
}

#[test]
fn renders_grouped_sections_in_order() {
    let commits = vec![
        enriched("chore: bump", Some("chore"), false, None),
        enriched("feat: add login", Some("feat"), false, None),
        enriched("fix: race", Some("fix"), false, None),
        enriched("feat!: drop v1", Some("feat"), true, None),
    ];
    let classified = tier0::classify(&commits);
    let md = render(&classified, &RenderOptions::default());
    let breaking = md.find("### Breaking Changes").unwrap();
    let features = md.find("### Features").unwrap();
    let fixes = md.find("### Bug Fixes").unwrap();
    let chore = md.find("### Chore").unwrap();
    assert!(breaking < features);
    assert!(features < fixes);
    assert!(fixes < chore);
    assert!(md.contains("- drop v1"));
    assert!(md.contains("- add login"));
    assert!(md.contains("- race"));
}

#[test]
fn empty_classified_renders_no_changes_line() {
    let md = render(&Classified::default(), &RenderOptions::default());
    assert!(md.contains("_No changes._"));
    assert_eq!(md, "## What's Changed\n\n_No changes._\n");
}

#[test]
fn header_can_be_disabled() {
    let commits = vec![enriched("feat: x", Some("feat"), false, None)];
    let classified = tier0::classify(&commits);
    let md = render(&classified, &RenderOptions { header: None, footer: None });
    assert!(!md.lines().any(|l| l.starts_with("## ")), "no top-level `## ` header expected: {md}");
    assert!(md.contains("### Features"));
}

#[test]
fn footer_appears_at_end() {
    let commits = vec![enriched("feat: x", Some("feat"), false, None)];
    let classified = tier0::classify(&commits);
    let md = render(
        &classified,
        &RenderOptions { header: None, footer: Some("**Full Changelog**: https://example.com/compare".to_string()) },
    );
    assert!(md.trim_end().ends_with("**Full Changelog**: https://example.com/compare"));
}

#[test]
fn appends_pr_suffix_when_summary_lacks_it() {
    let mut c = commit("Add login", None, false, Some(42));
    c.conventional =
        Some(Conventional { kind: "feat".into(), scope: None, breaking: false, description: "Add login".into() });
    let classified = tier0::classify(&[EnrichedCommit::from_commit(c)]);
    let md = render(&classified, &RenderOptions::default());
    assert!(md.contains("- Add login (#42)"));
}

#[test]
fn does_not_double_append_pr_suffix() {
    let c = commit("Add login (#42)", None, false, Some(42));
    let classified = tier0::classify(&[EnrichedCommit::from_commit(c)]);
    let md = render(&classified, &RenderOptions::default());
    assert_eq!(md.matches("(#42)").count(), 1);
}

#[test]
fn prerelease_header() {
    let o = RenderOptions::for_release(&ReleaseKind::Prerelease { label: "rc.1".into() });
    assert_eq!(o.header.as_deref(), Some("Prerelease Notes — rc.1"));
    let s = RenderOptions::for_release(&ReleaseKind::Stable);
    assert_eq!(s.header.as_deref(), Some("What's Changed"));
}
