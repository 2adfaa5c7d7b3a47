use chronikl::ladder::tier1::{
    parse_batch_response, BatchResponse,
    apply_batch, batch_label, batches, debug_batch_prompt, truncate, BatchVerdict,
};
use chronikl::ladder::tier2::{apply_verdict, debug_prompt, estimate_tokens, truncate_diff};
use chronikl::ladder::tier3::{apply_agent_result, default_max_turns, agent_prompt_hash};
use chronikl::ladder::{pending_indices, Verdict};
use chronikl::models::{
    Classification, ClassificationSource, Classified, ClassifiedCommit, Commit, PrInfo, Section,
};

fn commit(sha: &str, subject: &str, body: &str, files: &[&str]) -> ClassifiedCommit {
    ClassifiedCommit {
        commit: Commit {
            sha: sha.to_string(),
            short_sha: sha[..7.min(sha.len())].to_string(),
            author_name: "ada".into(),
            author_email: "ada@x".into(),
            author_date: "2026-01-01T00:00:00+00:00".into(),
            parents: vec!["p".into()],
            subject: subject.into(),
            body: body.into(),
            files: files.iter().map(|s| s.to_string()).collect(),
            pr_id: None,
            conventional: None,
            breaking: false,
        },
        pr: None,
        classification: Classification {
            section: Section::Other,
            summary: subject.into(),
            source: ClassificationSource::Default,
            confidence: 500,
        },
    }
}

#[test]
fn truncate_keeps_short_strings() {
    assert_eq!(truncate("hello", 10), "hello");
}

#[test]
fn truncate_caps_long_strings() {
    let out = truncate("a".repeat(20).as_str(), 5);
    assert!(out.starts_with("aaaaa"));
    assert!(out.ends_with('…'));
    assert_eq!(out, "aaaaa …");
}

#[test]
fn estimate_tokens_basic() {
    assert_eq!(estimate_tokens(""), 0);
    assert_eq!(estimate_tokens("abcd"), 1);
    assert_eq!(estimate_tokens("abcdefgh"), 2);
}

#[test]
fn truncate_diff_passthrough_when_under_budget() {
    let diff = "diff --git a/x b/x\n@@ -1 +1 @@\n-old\n+new\n";
    let out = truncate_diff(diff, 1000);
    assert_eq!(out, diff);
}

#[test]
fn truncate_diff_appends_marker_when_over_budget() {
    let diff = "x".repeat(10_000);
    let out = truncate_diff(&diff, 100);
    assert!(out.contains("diff truncated"));
    assert!(out.len() < diff.len());
    assert_eq!(out, "\n[…diff truncated to fit ~100-token budget; original was ~2500 tokens]\n");
}

#[test]
fn truncate_diff_preserves_leading_lines() {
    let mut diff = String::from("diff --git a/x b/x\nfile-header-line\n");
    diff.push_str(&"x".repeat(20_000));
    let out = truncate_diff(&diff, 100);
    assert!(out.starts_with("diff --git a/x b/x"));
    assert!(out.contains("file-header-line"));
    assert!(out.contains("diff truncated"));
}

#[test]
fn truncate_diff_keeps_lines_that_fit() {
    // Budget of 2 tokens is 8 bytes: "abc\n" (4) fits, "defg\n" (5) does not.
    let out = truncate_diff("abc\ndefg\nhij\n", 2);
    assert_eq!(out, "abc\n\n[…diff truncated to fit ~2-token budget; original was ~3 tokens]\n");
}

#[test]
fn pending_picks_low_confidence_in_order() {
    let mut a = commit("a", "wip", "", &["x"]);
    a.classification.confidence = 1000;
    let classified = Classified(vec![commit("b", "x", "", &[]), a, commit("c", "y", "", &[])]);
    assert_eq!(pending_indices(&classified, 1000), vec![0, 2]);
    assert_eq!(pending_indices(&classified, 0), Vec::<usize>::new());
    assert_eq!(chronikl::ladder::tier3::pending(&classified, 800), vec![0, 2]);
}

#[test]
fn batches_split_evenly_with_remainder() {
    let items: Vec<usize> = (0..7).collect();
    assert_eq!(batches(&items, 3), vec![vec![0, 1, 2], vec![3, 4, 5], vec![6]]);
    assert_eq!(batches(&items, 0).len(), 7);
    assert_eq!(batches(&Vec::new(), 3), Vec::<Vec<usize>>::new());
    assert_eq!(batch_label(3), "tier-1-batch-3-commits");
}

fn bv(index: usize, section: &str, summary: &str, confidence: i64) -> BatchVerdict {
    BatchVerdict { index, section: section.into(), summary: summary.into(), confidence }
}

#[test]
fn batch_verdicts_write_back() {
    let mut classified = Classified(vec![
        commit("a", "weird", "", &["x"]),
        commit("b", "other", "", &["x"]),
        commit("c", "third", "", &["x"]),
    ]);
    let chunk = vec![0, 2];
    let verdicts = vec![
        bv(0, "bug-fixes", "  Fix weird ", 700),
        bv(1, "spaghetti", "x", 2000),
        bv(0, "features", "Add weird", -5),
        bv(9, "other", "ignored", 1),
    ];
    let updated = apply_batch(&mut classified, &chunk, &verdicts);
    assert_eq!(updated, 2);
    // Entry 0: the last verdict for position 0 wins.
    assert_eq!(classified.0[0].classification.section, Section::Features);
    assert_eq!(classified.0[0].classification.summary, "Add weird");
    assert_eq!(classified.0[0].classification.confidence, 0);
    assert_eq!(classified.0[0].classification.source, ClassificationSource::BatchedLlm);
    // Entry 1 is not in the batch.
    assert_eq!(classified.0[1].classification.source, ClassificationSource::Default);
    // Entry 2 (position 1): unknown section falls back to other, confidence clamped.
    assert_eq!(classified.0[2].classification.section, Section::Other);
    assert_eq!(classified.0[2].classification.confidence, 1000);
}

#[test]
fn batch_prompt_fences_each_commit() {
    let mut c = commit("a", "Add login", "long body", &["src/a.rs"]);
    c.pr = Some(PrInfo {
        number: 7,
        title: "Login".into(),
        body: "".into(),
        labels: vec!["enhancement".into(), "ui".into()],
        author: None,
        merged_at: None,
        url: None,
    });
    let d = commit("b", "Other", "", &[]);
    let p = debug_batch_prompt(&vec![&c, &d]);
    assert!(p.starts_with("Classify these commits.\n\n--- commit 0 ---\n<commit_subject>\nAdd login\n</commit_subject>\n"));
    assert!(p.contains("<commit_body>\nlong body\n</commit_body>\n"));
    assert!(p.contains("<pr_title>\nLogin\n</pr_title>\n"));
    assert!(!p.contains("<pr_body>"));
    assert!(p.contains("<pr_labels>\nenhancement, ui\n</pr_labels>\n"));
    assert!(p.contains("files: src/a.rs\n"));
    assert!(p.contains("--- commit 1 ---\n"));
    assert!(p.ends_with("\"confidence\": 0.0}]}.\n"));
}

#[test]
fn batch_prompt_lists_a_dozen_files() {
    let files: Vec<String> = (0..14).map(|i| format!("f{i}")).collect();
    let refs: Vec<&str> = files.iter().map(|s| s.as_str()).collect();
    let c = commit("a", "s", "", &refs);
    let p = debug_batch_prompt(&vec![&c]);
    assert!(p.contains("files: f0, f1, f2, f3, f4, f5, f6, f7, f8, f9, f10, f11\n  (+2 more files)\n"));
}

#[test]
fn tier2_verdict_breaking_forces_section() {
    let mut classified = Classified(vec![commit("a", "x", "", &[])]);
    let v = Verdict { section: "features".into(), summary: " s ".into(), confidence: 900, breaking: true };
    apply_verdict(&mut classified, 0, &v);
    assert_eq!(classified.0[0].classification.section, Section::Breaking);
    assert_eq!(classified.0[0].classification.summary, "s");
    assert_eq!(classified.0[0].classification.source, ClassificationSource::PerCommitLlm);
    let p = debug_prompt(&classified.0[0], "");
    assert!(p.contains("<diff>\n(no diff — root commit or empty change)\n</diff>"));
    assert!(p.ends_with("\"breaking\": false}.\n"));
}

#[test]
fn tier3_missing_verdict_leaves_entry() {
    let mut classified = Classified(vec![commit("abcdef123", "x", "", &[])]);
    assert!(!apply_agent_result(&mut classified, 0, None));
    assert_eq!(classified.0[0].classification.source, ClassificationSource::Default);
    let v = Verdict { section: "docs".into(), summary: "Document".into(), confidence: 800, breaking: false };
    assert!(apply_agent_result(&mut classified, 0, Some(v)));
    assert_eq!(classified.0[0].classification.section, Section::Documentation);
    assert_eq!(classified.0[0].classification.source, ClassificationSource::Agentic);
    assert_eq!(default_max_turns(), 10);
    let p = chronikl::ladder::tier3::debug_prompt(&classified.0[0], "d");
    assert!(p.starts_with("Classify the following commit (abcdef1).\n\n"));
    assert_eq!(agent_prompt_hash("s", "u").len(), 64);
}

fn verdicts_of(v: &serde_json::Value) -> Option<Vec<BatchVerdict>> {
    let mut out = Vec::new();
    for it in v.as_array()? {
        out.push(BatchVerdict {
            index: usize::try_from(it.get("index")?.as_u64()?).ok()?,
            section: it.get("section")?.as_str()?.to_string(),
            summary: it.get("summary")?.as_str()?.to_string(),
            confidence: (it.get("confidence")?.as_f64()? * 1000.0).round() as i64,
        });
    }
    Some(out)
}

fn wrapped_shape(c: &str) -> Option<BatchResponse> {
    let v: serde_json::Value = serde_json::from_str(c).ok()?;
    Some(BatchResponse { verdicts: verdicts_of(v.as_object()?.get("verdicts")?)? })
}

fn array_shape(c: &str) -> Option<Vec<BatchVerdict>> {
    let v: serde_json::Value = serde_json::from_str(c).ok()?;
    verdicts_of(&v)
}

#[test]
fn parses_wrapped_and_top_level_array_responses() {
    let wrapped = r#"{"verdicts":[{"index":0,"section":"features","summary":"Add x","confidence":0.9}]}"#;
    let v = parse_batch_response(wrapped, wrapped_shape, array_shape).unwrap();
    assert_eq!(v.len(), 1);
    assert_eq!(v[0].confidence, 900);
    let array = r#"Sure: [{"index":1,"section":"fixes","summary":"Fix y","confidence":0.75}]"#;
    let v = parse_batch_response(array, wrapped_shape, array_shape).unwrap();
    assert_eq!(v[0].index, 1);
    assert_eq!(v[0].section, "fixes");
    assert!(parse_batch_response("no json here", wrapped_shape, array_shape).is_err());
}
