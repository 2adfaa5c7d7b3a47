use chronikl::enrichment::platform::{choose_enricher, first_set_env, EnricherChoice};
use chronikl::enrichment::remote::GitHubRepo;
use chronikl::enrichment::NoOpEnricher;
use chronikl::env::Env;

#[test]
fn first_set_env_picks_first_present() {
    let env = Env::mock(&[("GH_TOKEN", "gh"), ("GITHUB_TOKEN", "")]);
    let token = first_set_env(&env, &["GITHUB_TOKEN", "GH_TOKEN"]);
    assert_eq!(token.as_deref(), Some("gh"));
}

#[test]
fn first_set_env_none_when_all_empty() {
    let env = Env::mock(&[]);
    assert!(first_set_env(&env, &["GITHUB_TOKEN", "GH_TOKEN"]).is_none());
}

#[test]
fn env_later_pair_wins() {
    let env = Env::mock(&[("A", "1"), ("A", "2")]);
    assert_eq!(env.var("A").as_deref(), Some("2"));
    assert_eq!(env.var("B"), None);
}

#[test]
fn disabled_returns_no_op() {
    let env = Env::mock(&[]);
    let (choice, info) = choose_enricher(true, None, &env);
    assert_eq!(choice, EnricherChoice::NoOp);
    assert!(info.contains("disabled"));
    assert_eq!(NoOpEnricher.name(), "no-op");
}

#[test]
fn github_remote_chooses_github_with_token_note() {
    let env = Env::mock(&[("GITHUB_TOKEN", "t")]);
    let repo = GitHubRepo { owner: "o".into(), repo: "r".into() };
    let (choice, info) = choose_enricher(false, Some(repo.clone()), &env);
    assert_eq!(choice, EnricherChoice::GitHub { repo, token: Some("t".into()) });
    assert_eq!(info, "PR enrichment via GitHub for o/r (authenticated)");
    let (_, info) = choose_enricher(false, Some(GitHubRepo { owner: "o".into(), repo: "r".into() }), &Env::mock(&[]));
    assert_eq!(info, "PR enrichment via GitHub for o/r (anonymous (60 req/hour limit))");
    let (choice, info) = choose_enricher(false, None, &env);
    assert_eq!(choice, EnricherChoice::NoOp);
    assert_eq!(info, "PR enrichment skipped (no GitHub remote detected)");
}
