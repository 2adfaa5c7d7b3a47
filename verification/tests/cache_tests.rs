use chronikl::cache::{default_cache_root, entry_classification, new_entry, MemoryCache, NullCache, CACHE_SCHEMA_VERSION};
use chronikl::env::Env;
use chronikl::models::{
    Classification, ClassificationSource, Classified, ClassifiedCommit, Commit, Section,
};

fn classification(source: ClassificationSource, conf: u32) -> Classification {
    Classification {
        section: Section::Features,
        summary: "x".into(),
        source,
        confidence: conf,
    }
}

fn commit_entry(sha: &str, source: ClassificationSource, conf: u32) -> ClassifiedCommit {
    ClassifiedCommit {
        commit: Commit {
            sha: sha.into(),
            short_sha: sha[..7.min(sha.len())].into(),
            author_name: "ada".into(),
            author_email: "ada@x".into(),
            author_date: "2026-01-01T00:00:00+00:00".into(),
            parents: vec!["p".into()],
            subject: "x".into(),
            body: String::new(),
            files: vec![],
            pr_id: None,
            conventional: None,
            breaking: false,
        },
        pr: None,
        classification: classification(source, conf),
    }
}

#[test]
fn null_cache_never_hits() {
    let c = NullCache;
    c.put("abc", "model", &classification(ClassificationSource::BatchedLlm, 900));
    assert!(c.get("abc", "model").is_none());
}

#[test]
fn memory_cache_round_trip() {
    let mut c = MemoryCache::new();
    c.put("abc", "model", &classification(ClassificationSource::BatchedLlm, 900));
    let got = c.get("abc", "model").unwrap();
    assert_eq!(got.summary, "x");
    assert_eq!(got.confidence, 900);
}

#[test]
fn memory_cache_isolates_models() {
    let mut c = MemoryCache::new();
    c.put("abc", "model-a", &classification(ClassificationSource::BatchedLlm, 900));
    assert!(c.get("abc", "model-b").is_none());
}

#[test]
fn memory_cache_put_replaces() {
    let mut c = MemoryCache::new();
    c.put("abc", "m", &classification(ClassificationSource::BatchedLlm, 900));
    c.put("abc", "m", &classification(ClassificationSource::Agentic, 700));
    assert_eq!(c.len(), 1);
    assert_eq!(c.get("abc", "m").unwrap().confidence, 700);
}

#[test]
fn populate_replaces_classification_for_hit_only() {
    let mut c = MemoryCache::new();
    c.put("abc", "model", &classification(ClassificationSource::PerCommitLlm, 800));
    let mut classified = Classified(vec![
        commit_entry("abc", ClassificationSource::Default, 500),
        commit_entry("def", ClassificationSource::Default, 500),
    ]);
    let hits = c.populate(&mut classified, "model");
    assert_eq!(hits, 1);
    assert!(matches!(
        classified.0[0].classification.source,
        ClassificationSource::PerCommitLlm
    ));
    assert!(matches!(
        classified.0[1].classification.source,
        ClassificationSource::Default
    ));
}

#[test]
fn persist_only_writes_llm_derived() {
    let mut c = MemoryCache::new();
    let classified = Classified(vec![
        commit_entry("a", ClassificationSource::Conventional, 1000),
        commit_entry("b", ClassificationSource::Default, 500),
        commit_entry(
            "c",
            ClassificationSource::FilesHeuristic { reason: "lockfile".into() },
            1000,
        ),
        commit_entry("d", ClassificationSource::BatchedLlm, 900),
        commit_entry("e", ClassificationSource::PerCommitLlm, 850),
        commit_entry("f", ClassificationSource::Agentic, 950),
    ]);
    let written = c.persist_llm_results(&classified, "model");
    assert_eq!(written, 3);
    assert!(c.get("d", "model").is_some());
    assert!(c.get("e", "model").is_some());
    assert!(c.get("f", "model").is_some());
    assert!(c.get("a", "model").is_none());
    assert!(c.get("b", "model").is_none());
    assert!(c.get("c", "model").is_none());
}

#[test]
fn clear_empties_the_cache() {
    let mut c = MemoryCache::new();
    c.put("a", "m", &classification(ClassificationSource::BatchedLlm, 900));
    c.put("b", "m", &classification(ClassificationSource::BatchedLlm, 900));
    let cleared = c.clear().unwrap();
    assert_eq!(cleared, 2);
    assert!(c.is_empty());
}

#[test]
fn cache_root_prefers_env_then_user_dir() {
    let env = Env::mock(&[("CHRONIKL_CACHE_DIR", "/tmp/c")]);
    assert_eq!(default_cache_root(&env, Some("/home/u/.cache"), "/repo"), "/tmp/c");
    let none = Env::mock(&[]);
    assert_eq!(default_cache_root(&none, Some("/home/u/.cache"), "/repo"), "/home/u/.cache/chronikl/classifications");
    assert_eq!(default_cache_root(&none, None, "/repo"), "/repo/.chronikl/cache/classifications");
}

#[test]
fn stored_entries_are_checked_before_use() {
    let c = classification(ClassificationSource::BatchedLlm, 900);
    let e = new_entry("abcdef", "m", c.clone(), 5);
    assert_eq!(e.schema, CACHE_SCHEMA_VERSION);
    assert_eq!(entry_classification(e, "abcdef", "m"), Some(c.clone()));
    assert_eq!(entry_classification(new_entry("abcdef", "m", c.clone(), 5), "abcdef", "other"), None);
    let mut old = new_entry("abcdef", "m", c.clone(), 5);
    old.schema = 0;
    assert_eq!(entry_classification(old, "abcdef", "m"), None);
}
