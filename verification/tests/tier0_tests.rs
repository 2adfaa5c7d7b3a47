use chronikl::ladder::tier0::{classify, classify_one, FALLBACK_CONFIDENCE};
use chronikl::models::{
    ClassificationSource, Commit, Conventional, EnrichedCommit, Section, CONFIDENCE_FULL,
};


fn commit(subject: &str, kind: Option<&str>, breaking: bool, files: &[&str]) -> Commit {
    let conventional = kind.map(|k| Conventional {
        kind: k.to_string(),
        scope: None,
        breaking,
        description: subject.split(": ").nth(1).unwrap_or(subject).to_string(),
    });
    Commit {
        sha: "0".repeat(40),
        short_sha: "0000000".to_string(),
        author_name: "ada".to_string(),
        author_email: "ada@example.com".to_string(),
        author_date: "2026-01-01T00:00:00+00:00".to_string(),
        parents: vec!["p".to_string()],
        subject: subject.to_string(),
        body: String::new(),
        files: files.iter().map(|s| s.to_string()).collect(),
        pr_id: None,
        conventional,
        breaking,
    }
}

fn enriched(
    subject: &str,
    kind: Option<&str>,
    breaking: bool,
    files: &[&str],
) -> EnrichedCommit {
    EnrichedCommit::from_commit(commit(subject, kind, breaking, files))
}

#[test]
fn feat_goes_to_features() {
    let c = classify_one(&enriched(
        "feat: add login",
        Some("feat"),
        false,
        &["src/lib.rs"],
    ));
    assert_eq!(c.classification.section, Section::Features);
    assert_eq!(c.classification.summary, "add login");
    assert_eq!(c.classification.confidence, CONFIDENCE_FULL);
}

#[test]
fn fix_goes_to_bug_fixes() {
    let c = classify_one(&enriched("fix: race", Some("fix"), false, &["src/lib.rs"]));
    assert_eq!(c.classification.section, Section::BugFixes);
}

#[test]
fn breaking_supersedes_kind() {
    let c = classify_one(&enriched(
        "feat!: drop legacy API",
        Some("feat"),
        true,
        &["src/lib.rs"],
    ));
    assert_eq!(c.classification.section, Section::Breaking);
}

#[test]
fn lockfile_only_is_chore() {
    let c = classify_one(&enriched("Bump deps", None, false, &["Cargo.lock"]));
    assert_eq!(c.classification.section, Section::Chore);
    assert!(matches!(
        c.classification.source,
        ClassificationSource::FilesHeuristic { .. }
    ));
}

#[test]
fn multiple_lockfiles_only_is_chore() {
    let c = classify_one(&enriched(
        "Bump deps",
        None,
        false,
        &["Cargo.lock", "package-lock.json"],
    ));
    assert_eq!(c.classification.section, Section::Chore);
}

#[test]
fn lockfile_plus_other_file_is_not_chore() {
    let c = classify_one(&enriched(
        "Bump deps and tweak",
        None,
        false,
        &["Cargo.lock", "src/main.rs"],
    ));
    assert_eq!(c.classification.section, Section::Other);
    assert_eq!(c.classification.confidence, FALLBACK_CONFIDENCE);
}

#[test]
fn docs_dir_only_is_documentation() {
    let c = classify_one(&enriched("Update guide", None, false, &["docs/guide.md"]));
    assert_eq!(c.classification.section, Section::Documentation);
}

#[test]
fn workflows_only_is_ci() {
    let c = classify_one(&enriched(
        "Bump action",
        None,
        false,
        &[".github/workflows/ci.yml"],
    ));
    assert_eq!(c.classification.section, Section::Ci);
}

#[test]
fn root_markdown_only_is_documentation() {
    let c = classify_one(&enriched("README tweaks", None, false, &["README.md"]));
    assert_eq!(c.classification.section, Section::Documentation);
}

#[test]
fn random_subject_with_random_files_falls_through() {
    let c = classify_one(&enriched("wip", None, false, &["src/main.rs"]));
    assert_eq!(c.classification.section, Section::Other);
    assert!(matches!(
        c.classification.source,
        ClassificationSource::Default
    ));
    assert_eq!(c.classification.confidence, FALLBACK_CONFIDENCE);
}

#[test]
fn classify_returns_input_order() {
    let commits = vec![
        enriched("feat: a", Some("feat"), false, &["x"]),
        enriched("fix: b", Some("fix"), false, &["y"]),
        enriched("chore: c", Some("chore"), false, &["z"]),
    ];
    let classified = classify(&commits);
    let summaries: Vec<&str> = classified
        .entries()
        .iter()
        .map(|c| c.classification.summary.as_str())
        .collect();
    assert_eq!(summaries, vec!["a", "b", "c"]);
}

#[test]
fn group_by_section_orders_breaking_first() {
    let commits = vec![
        enriched("chore: c", Some("chore"), false, &["x"]),
        enriched("feat!: bx", Some("feat"), true, &["y"]),
        enriched("feat: f", Some("feat"), false, &["z"]),
    ];
    let classified = classify(&commits);
    let groups = classified.group_by_section();
    let sections: Vec<Section> = groups.iter().map(|(s, _)| *s).collect();
    assert_eq!(
        sections,
        vec![Section::Breaking, Section::Features, Section::Chore]
    );
}
