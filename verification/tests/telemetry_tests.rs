use chronikl::env::Env;
use chronikl::telemetry::{is_debug, HeartbeatPayload, TierCounts, FULL_VERSION};

#[test]
fn payload_carries_counters_and_a_fresh_uuid() {
    let p = HeartbeatPayload::from_release(
        10,
        TierCounts { tier0: 10, tier1: 4, tier2: 1, tier3: 0, cache_hits: 5 },
        Some("anthropic".into()),
        Some("large-model-4-6".into()),
        "rebase".into(),
        false,
        "minor".into(),
        Some("semver".into()),
        false,
        false,
        true,
        false,
        false,
        true,
        false,
    );
    assert_eq!(p.commit_count, 10);
    assert_eq!(p.tier_counts.tier1, 4);
    assert_eq!(p.tier_counts.cache_hits, 5);
    assert_eq!(p.provider.as_deref(), Some("anthropic"));
    assert_eq!(p.merge_style, "rebase");
    assert!(p.pr_enrichment);
    assert!(p.success);
    assert_eq!(p.version, FULL_VERSION);
    assert_eq!(p.run_id.len(), 36);
    assert_eq!(p.run_id.as_bytes()[14], b'4');
    let q = HeartbeatPayload::from_release(
        3, TierCounts::default(), None, None, "rebase".into(), false, "unknown".into(), None, false, false, false,
        false, false, true, false,
    );
    assert_ne!(p.run_id, q.run_id);
}

#[test]
fn is_debug_reads_truthy_values() {
    assert!(is_debug(&Env::mock(&[("CHRONIKL_DEBUG", "1")])));
    assert!(is_debug(&Env::mock(&[("CHRONIKL_DEBUG", "on")])));
    assert!(!is_debug(&Env::mock(&[("CHRONIKL_DEBUG", "0")])));
    assert!(!is_debug(&Env::mock(&[])));
}

#[test]
fn is_debug_returns_a_bool() {
    let _ = is_debug(&Env::mock(&[]));
}
