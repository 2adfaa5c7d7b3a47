use chronikl::git::merge_style::{detect, extract_pr_id, has_squash_suffix, is_merge_subject};
use chronikl::models::{Commit, MergeStyle};

fn commit(subject: &str, parents: usize) -> Commit {
    Commit {
        sha: "0".repeat(40),
        short_sha: "0000000".to_string(),
        author_name: "x".to_string(),
        author_email: "x@example.com".to_string(),
        author_date: "2026-01-01T00:00:00+00:00".to_string(),
        parents: vec!["p".to_string(); parents],
        subject: subject.to_string(),
        body: String::new(),
        files: vec![],
        pr_id: None,
        conventional: None,
        breaking: false,
    }
}

#[test]
fn empty_is_rebase() {
    assert_eq!(detect(&[]), MergeStyle::Rebase);
}

#[test]
fn squash_dominated() {
    let commits = vec![
        commit("Add login flow (#10)", 1),
        commit("Fix race in cache (#11)", 1),
        commit("Bump deps (#12)", 1),
        commit("Refactor handler (#13)", 1),
    ];
    assert_eq!(detect(&commits), MergeStyle::Squash);
}

#[test]
fn merge_dominated() {
    let commits = vec![
        commit("Merge pull request #1 from foo/bar", 2),
        commit("Add foo", 1),
        commit("Merge pull request #2 from baz/qux", 2),
        commit("Fix baz", 1),
    ];
    assert_eq!(detect(&commits), MergeStyle::Merge);
}

#[test]
fn rebase_dominated() {
    let commits = vec![
        commit("Add login flow", 1),
        commit("Fix race in cache", 1),
        commit("Bump deps", 1),
        commit("wip", 1),
    ];
    assert_eq!(detect(&commits), MergeStyle::Rebase);
}

#[test]
fn mixed_signals() {
    let commits = vec![
        commit("Add login (#1)", 1),
        commit("raw fix", 1),
        commit("another raw", 1),
        commit("more raw", 1),
    ];
    assert_eq!(detect(&commits), MergeStyle::Mixed);
}

#[test]
fn extract_pr_id_basic() {
    assert_eq!(extract_pr_id("Add login (#42)"), Some(42));
    assert_eq!(extract_pr_id("Add login (#42) "), Some(42));
    assert_eq!(extract_pr_id("Add login"), None);
    assert_eq!(extract_pr_id("(#) empty"), None);
}

#[test]
fn extract_pr_id_overflow_and_non_ascii_digits() {
    assert_eq!(extract_pr_id("x (#99999999999999999999)"), None);
    assert_eq!(extract_pr_id("x (#\u{0663})"), None);
    assert_eq!(extract_pr_id("(#7)"), Some(7));
}

#[test]
fn squash_suffix_needs_space_before_paren() {
    assert!(has_squash_suffix("Add login (#42)"));
    assert!(has_squash_suffix("Add login (#42)\t "));
    assert!(!has_squash_suffix("Add login(#42)"));
    assert!(!has_squash_suffix("(#42)"));
    assert!(!has_squash_suffix("Add login (#42) more"));
}

#[test]
fn merge_subjects_recognised() {
    assert!(is_merge_subject("Merge pull request #12 from a/b"));
    assert!(!is_merge_subject("Merge pull request #x"));
    assert!(is_merge_subject("Merge branch 'main'"));
    assert!(is_merge_subject("Merge remote-tracking branch 'o/m'"));
    assert!(!is_merge_subject("merge branch 'main'"));
}

#[test]
fn merge_threshold_is_a_fifth() {
    let mut commits = vec![commit("Merge branch 'x'", 1)];
    for _ in 0..4 {
        commits.push(commit("plain", 1));
    }
    // exactly one in five: not over a fifth, and not under a twentieth
    assert_eq!(detect(&commits), MergeStyle::Mixed);
    commits.pop();
    assert_eq!(detect(&commits), MergeStyle::Merge);
}
