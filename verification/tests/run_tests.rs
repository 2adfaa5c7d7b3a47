use chronikl::prompt_dump::{prompt_document_exec, DumpSettings};
use chronikl::voice::Voice;
use chronikl::config::Config;
use chronikl::run::{enrichment_detail, notes_markdown, snapshot_config, tier0_detail};
use chronikl::enrichment::EnrichOutcome;
use chronikl::models::{
    Classification, ClassificationSource, Classified, ClassifiedCommit, Commit, MergeStyle, ReleaseKind, Section,
    VersionBump, VersionScheme,
};
use chronikl::run::{
    append_footer, bump_label, cache_cleared_message, confident_count, count_below, heartbeat_merge_style,
    pipeline_step, range_label, release_label, should_run_llm, snapshot_range, stage_detail, tier1_detail,
    voice_label, PipelineAction, PipelineSettings, PipelineStage,
};

fn entry(sha: &str, confidence: u32) -> ClassifiedCommit {
    ClassifiedCommit {
        commit: Commit {
            sha: sha.into(),
            short_sha: sha.into(),
            author_name: "ada".into(),
            author_email: "ada@x".into(),
            author_date: "2026-01-01T00:00:00+00:00".into(),
            parents: vec!["p".into()],
            subject: "x".into(),
            body: String::new(),
            files: vec![],
            pr_id: None,
            conventional: None,
            breaking: false,
        },
        pr: None,
        classification: Classification {
            section: Section::Other,
            summary: "x".into(),
            source: ClassificationSource::Default,
            confidence,
        },
    }
}

#[test]
fn footer_is_appended_once() {
    assert_eq!(append_footer("# Notes\n\n".to_string(), Some("_by chronikl_")), "# Notes\n\n_by chronikl_\n");
    assert_eq!(append_footer("# Notes\n\n_by chronikl_\n\n".to_string(), Some("_by chronikl_")), "# Notes\n\n_by chronikl_\n");
    assert_eq!(append_footer("x".to_string(), None), "x");
}

#[test]
fn llm_runs_only_with_provider_and_key() {
    assert!(should_run_llm(false, Some("anthropic"), true));
    assert!(!should_run_llm(false, Some("anthropic"), false));
    assert!(should_run_llm(false, Some("ollama"), false));
    assert!(!should_run_llm(true, Some("ollama"), true));
    assert!(!should_run_llm(false, None, true));
}

#[test]
fn header_labels() {
    assert_eq!(release_label(&ReleaseKind::Prerelease { label: "rc.1".into() }), "prerelease (rc.1)");
    assert_eq!(release_label(&ReleaseKind::Stable), "stable");
    assert_eq!(bump_label(VersionBump::Minor, Some(VersionScheme::Semver)), "minor (semver)");
    assert_eq!(bump_label(VersionBump::Unknown, None), "unknown");
    assert_eq!(range_label(Some("v1.0.0"), "HEAD", 3, MergeStyle::Squash), "v1.0.0..HEAD (3 commits, squash)");
    assert_eq!(range_label(None, "HEAD", 1, MergeStyle::Rebase), "(initial)..HEAD (1 commits, rebase)");
    assert_eq!(voice_label(Some("terse"), None, None), "terse");
    assert_eq!(voice_label(None, Some("/a/b/pirate.md"), Some("x.md")), "pirate.md");
    assert_eq!(voice_label(None, None, None), "custom");
    assert_eq!(heartbeat_merge_style(""), "unknown");
    assert_eq!(heartbeat_merge_style("squash"), "squash");
}

#[test]
fn stage_details() {
    assert_eq!(tier1_detail(3, 5, 2), "3 of 5 commit(s) in 3 batches");
    assert_eq!(tier1_detail(1, 1, 50), "1 of 1 commit(s) in 1 batch");
    assert_eq!(tier1_detail(0, 4, 0), "0 of 4 commit(s) in 4 batches");
    assert_eq!(stage_detail(2, 3, " (with diff)"), "2 of 3 commit(s) (with diff)");
    assert_eq!(cache_cleared_message(1, Some("/c")), "cleared 1 cache entry at /c");
    assert_eq!(cache_cleared_message(2, None), "cleared 2 cache entries at (unknown)");
}

#[test]
fn counts_by_confidence() {
    let c = Classified(vec![entry("a", 1000), entry("b", 500), entry("c", 850)]);
    assert_eq!(confident_count(&c), 1);
    assert_eq!(count_below(&c, 1000), 2);
    assert_eq!(count_below(&c, 800), 1);
}

#[test]
fn pipeline_walks_every_stage() {
    let c = Classified(vec![entry("a", 1000), entry("b", 500)]);
    let s = PipelineSettings { threshold: 800, agent: true, cache_model: true };
    let mut stage = PipelineStage::Tier1;
    let mut actions = Vec::new();
    loop {
        let (a, next) = pipeline_step(stage, &s, &c);
        if a == PipelineAction::Finish {
            break;
        }
        actions.push(a);
        stage = next;
    }
    assert_eq!(
        actions,
        vec![
            PipelineAction::RunTier1 { pending: 1 },
            PipelineAction::RunTier2 { pending: 1 },
            PipelineAction::RunTier3 { pending: 1 },
            PipelineAction::Persist,
            PipelineAction::RunProse,
        ]
    );
}

#[test]
fn pipeline_skips_stages_without_work() {
    let c = Classified(vec![entry("a", 1000)]);
    let s = PipelineSettings { threshold: 650, agent: false, cache_model: false };
    let (a, next) = pipeline_step(PipelineStage::Tier1, &s, &c);
    assert_eq!(
        a,
        PipelineAction::Skip { stage: "Tier 1 batched LLM", reason: "no commits below confidence 1.0".to_string() }
    );
    assert_eq!(next, PipelineStage::Tier2);
    let (a, next) = pipeline_step(PipelineStage::Tier2, &s, &c);
    assert_eq!(a, PipelineAction::Skip { stage: "Tier 2 per-commit", reason: "none below threshold 0.65".to_string() });
    let (a, next) = pipeline_step(next, &s, &c);
    assert_eq!(a, PipelineAction::RunProse);
    assert_eq!(next, PipelineStage::Finished);
    let empty = Classified(vec![]);
    let (a, _) = pipeline_step(PipelineStage::Prose, &s, &empty);
    assert_eq!(a, PipelineAction::Skip { stage: "Prose pass", reason: "no commits to summarize".to_string() });
    let s3 = PipelineSettings { threshold: 650, agent: true, cache_model: false };
    let (a, next) = pipeline_step(PipelineStage::Tier3, &s3, &c);
    assert_eq!(a, PipelineAction::Skip { stage: "Tier 3 agentic", reason: "nothing left to classify".to_string() });
    assert_eq!(next, PipelineStage::Persist);
}

#[test]
fn range_snapshot_records_the_run() {
    let r = snapshot_range(
        Some("v1.0.0"),
        "v1.1.0-rc.1",
        7,
        MergeStyle::Squash,
        &ReleaseKind::Prerelease { label: "rc.1".into() },
        VersionBump::Minor,
        Some(VersionScheme::Semver),
    );
    assert_eq!(r.from.as_deref(), Some("v1.0.0"));
    assert_eq!(r.commit_count, 7);
    assert_eq!(r.detected_merge_style, "squash");
    assert!(r.prerelease);
    assert_eq!(r.release_label.as_deref(), Some("rc.1"));
    assert_eq!(r.version_bump, "minor");
    assert_eq!(r.version_scheme.as_deref(), Some("semver"));
}

#[test]
fn prompt_document_lists_each_tier() {
    let c = Classified(vec![entry("aaaaaaa", 1000), entry("bbbbbbb", 500)]);
    let voice = Voice { system_prompt: "be terse".into(), is_custom: false, bundled_name: Some("terse") };
    let kind = ReleaseKind::Stable;
    let s = DumpSettings {
        range_arg: "v1.0.0..HEAD",
        merge_style: MergeStyle::Rebase,
        release_kind: &kind,
        version_bump: VersionBump::Patch,
        version_scheme: None,
        batch_size: 50,
        threshold: 800,
        max_diff_tokens: 6000,
        voice: &voice,
        extra_instructions: None,
        inline_prompt: None,
        rich_context: false,
        from_ref: Some("v1.0.0"),
        to_ref: "HEAD",
    };
    let doc = prompt_document_exec(&c, &vec![String::new(), "diff --git a b".to_string()], &s);
    assert!(doc.starts_with("# Prompts that would be sent\n\nRange: `v1.0.0..HEAD` (commits: 2)\nMerge style: rebase\n"));
    assert!(doc.contains("1 commits would be sent in batches of 50."));
    assert!(doc.contains("### user (batch 1)"));
    assert!(doc.contains("### user (commit bbbbbbb)"));
    assert!(doc.contains("### user (commit bbbbbbb, initial turn)"));
    assert!(doc.contains("## Prose pass (would-send)"));
    assert!(!doc.contains("(commit aaaaaaa)"));
}

#[test]
fn prompt_document_notes_idle_tiers() {
    let c = Classified(vec![entry("aaaaaaa", 1000)]);
    let voice = Voice { system_prompt: "v".into(), is_custom: false, bundled_name: None };
    let kind = ReleaseKind::Untagged;
    let s = DumpSettings {
        range_arg: "HEAD",
        merge_style: MergeStyle::Squash,
        release_kind: &kind,
        version_bump: VersionBump::Unknown,
        version_scheme: None,
        batch_size: 10,
        threshold: 750,
        max_diff_tokens: 100,
        voice: &voice,
        extra_instructions: None,
        inline_prompt: None,
        rich_context: false,
        from_ref: None,
        to_ref: "HEAD",
    };
    let doc = prompt_document_exec(&c, &vec![String::new()], &s);
    assert!(doc.contains("_No commits below conf=1.0; Tier 1 wouldn't run._"));
    assert!(doc.contains("_No commits below conf=0.75; Tier 2 wouldn't run._"));
    assert!(doc.contains("_No commits below the threshold; Tier 3 wouldn't run._"));
}

#[test]
fn config_snapshot_has_no_secrets() {
    let mut cfg = Config::default();
    cfg.provider.name = Some("anthropic".into());
    cfg.provider.api_key = Some("sk-secret".into());
    let snap = snapshot_config(&cfg);
    assert_eq!(snap.provider.as_deref(), Some("anthropic"));
    assert_eq!(snap.batch_size, 50);
    assert_eq!(snap.confidence_threshold, 800);
    assert!(snap.merge_style_override.is_none());
    assert!(!format!("{snap:?}").contains("sk-secret"));
}

#[test]
fn notes_use_prose_or_render_with_footer() {
    let c = Classified(vec![entry("a", 1000)]);
    let kind = ReleaseKind::Prerelease { label: "rc.1".into() };
    let md = notes_markdown(Some("## Notes\n".into()), &c, &kind, Some("https://x/compare/a...b"));
    assert_eq!(md, "## Notes\n\n**Full Changelog**: https://x/compare/a...b\n");
    let plain = notes_markdown(None, &c, &kind, Some("https://x/compare/a...b"));
    assert!(plain.starts_with("## Prerelease Notes \u{2014} rc.1\n\n"));
    assert!(plain.contains("- x"));
    assert!(plain.contains("**Full Changelog**: https://x/compare/a...b"));
    let stable = notes_markdown(None, &c, &ReleaseKind::Stable, None);
    assert!(stable.starts_with("## What's Changed\n\n"));
    assert!(!stable.contains("Full Changelog"));
}

#[test]
fn tier0_and_enrichment_details() {
    assert_eq!(tier0_detail(3, 5), "3/5 placed");
    let ok = EnrichOutcome { enriched: 4, failed: 0, first_error: None };
    assert_eq!(enrichment_detail(&ok, 6), (false, "4 of 6 commit(s) enriched".to_string()));
    let bad = EnrichOutcome { enriched: 1, failed: 2, first_error: Some("abc1234: 404".into()) };
    assert_eq!(enrichment_detail(&bad, 3), (true, "1 ok / 2 failed (first: abc1234: 404)".to_string()));
}

#[test]
fn footer_added_twice_changes_nothing() {
    let f = "**Full Changelog**: https://example.com/compare/a...b";
    for md in ["## Notes\n- one\n\n", "", "already has **Full Changelog**: https://example.com/compare/a...b  \n"] {
        let once = append_footer(md.to_string(), Some(f));
        assert_eq!(append_footer(once.clone(), Some(f)), once);
    }
    assert_eq!(append_footer("x  \n".to_string(), None), "x  \n");
}
