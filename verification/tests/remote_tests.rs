use chronikl::enrichment::remote::{
    parse_bitbucket_remote, parse_forge_url, parse_gitea_remote, parse_github_remote,
    parse_gitlab_remote, BitbucketRepo, Forge, GitHubRepo, GitLabRepo, GiteaRepo,
};


#[test]
fn parses_https_with_dot_git() {
    let p = parse_github_remote("https://github.com/foo/bar.git").unwrap();
    assert_eq!(p.owner, "foo");
    assert_eq!(p.repo, "bar");
}

#[test]
fn parses_https_without_dot_git() {
    let p = parse_github_remote("https://github.com/foo/bar").unwrap();
    assert_eq!(p.repo, "bar");
}

#[test]
fn parses_https_with_trailing_slash() {
    let p = parse_github_remote("https://github.com/foo/bar/").unwrap();
    assert_eq!(p.repo, "bar");
}

#[test]
fn parses_ssh_at_form() {
    let p = parse_github_remote("git@github.com:foo/bar.git").unwrap();
    assert_eq!(p.owner, "foo");
    assert_eq!(p.repo, "bar");
}

#[test]
fn parses_ssh_url_form() {
    let p = parse_github_remote("ssh://git@github.com/foo/bar.git").unwrap();
    assert_eq!(p.owner, "foo");
    assert_eq!(p.repo, "bar");
}

#[test]
fn parses_git_protocol_form() {
    let p = parse_github_remote("git://github.com/foo/bar").unwrap();
    assert_eq!(p.owner, "foo");
}

#[test]
fn rejects_non_github_remote() {
    assert!(parse_github_remote("https://gitlab.com/foo/bar").is_none());
    assert!(parse_github_remote("https://example.com/x/y").is_none());
}

#[test]
fn rejects_malformed() {
    assert!(parse_github_remote("https://github.com/").is_none());
    assert!(parse_github_remote("https://github.com/foo").is_none());
    assert!(parse_github_remote("not a url").is_none());
}

#[test]
fn handles_owner_with_hyphens() {
    let p = parse_github_remote("https://github.com/the-owner/the-repo.git").unwrap();
    assert_eq!(p.owner, "the-owner");
    assert_eq!(p.repo, "the-repo");
}

#[test]
fn compare_url_with_both_refs() {
    let r = GitHubRepo {
        owner: "foo".into(),
        repo: "bar".into(),
    };
    assert_eq!(
        r.compare_url(Some("v1.0.0"), "v1.1.0"),
        "https://github.com/foo/bar/compare/v1.0.0...v1.1.0"
    );
}

#[test]
fn compare_url_falls_back_to_commits_for_initial_release() {
    let r = GitHubRepo {
        owner: "foo".into(),
        repo: "bar".into(),
    };
    assert_eq!(
        r.compare_url(None, "v0.1.0"),
        "https://github.com/foo/bar/commits/v0.1.0"
    );
}

// ── GitLab ──────────────────────────────────────────────────────

#[test]
fn parses_gitlab_https() {
    let r = parse_gitlab_remote("https://gitlab.com/foo/bar.git").unwrap();
    assert_eq!(r.host, "gitlab.com");
    assert_eq!(r.path, "foo/bar");
}

#[test]
fn parses_gitlab_with_subgroups() {
    let r = parse_gitlab_remote("https://gitlab.com/group/sub/repo.git").unwrap();
    assert_eq!(r.path, "group/sub/repo");
}

#[test]
fn parses_self_hosted_gitlab() {
    let r = parse_gitlab_remote("https://gitlab.example.com/foo/bar.git").unwrap();
    assert_eq!(r.host, "gitlab.example.com");
    assert_eq!(r.path, "foo/bar");
}

#[test]
fn parses_gitlab_ssh() {
    let r = parse_gitlab_remote("git@gitlab.com:foo/bar.git").unwrap();
    assert_eq!(r.host, "gitlab.com");
    assert_eq!(r.path, "foo/bar");
}

#[test]
fn gitlab_compare_url_uses_dash_prefix() {
    let r = GitLabRepo {
        host: "gitlab.com".into(),
        path: "foo/bar".into(),
    };
    assert_eq!(
        r.compare_url(Some("v1.0.0"), "v1.1.0"),
        "https://gitlab.com/foo/bar/-/compare/v1.0.0...v1.1.0"
    );
}

#[test]
fn gitlab_compare_url_with_subgroups() {
    let r = GitLabRepo {
        host: "gitlab.com".into(),
        path: "group/sub/repo".into(),
    };
    assert_eq!(
        r.compare_url(Some("v1"), "v2"),
        "https://gitlab.com/group/sub/repo/-/compare/v1...v2"
    );
}

// ── Bitbucket ───────────────────────────────────────────────────

#[test]
fn parses_bitbucket() {
    let r = parse_bitbucket_remote("https://bitbucket.org/foo/bar.git").unwrap();
    assert_eq!(r.owner, "foo");
    assert_eq!(r.repo, "bar");
}

#[test]
fn bitbucket_compare_url_reverses_operands_and_uses_two_dots() {
    let r = BitbucketRepo {
        owner: "foo".into(),
        repo: "bar".into(),
    };
    // Note: target before source, two dots — Bitbucket's quirk.
    assert_eq!(
        r.compare_url(Some("v1.0.0"), "v1.1.0"),
        "https://bitbucket.org/foo/bar/branches/compare/v1.1.0..v1.0.0"
    );
}

#[test]
fn bitbucket_initial_release_links_to_tag_commits() {
    let r = BitbucketRepo {
        owner: "foo".into(),
        repo: "bar".into(),
    };
    assert_eq!(
        r.compare_url(None, "v0.1.0"),
        "https://bitbucket.org/foo/bar/commits/tag/v0.1.0"
    );
}

// ── Gitea / Codeberg ────────────────────────────────────────────

#[test]
fn parses_codeberg() {
    let r = parse_gitea_remote("https://codeberg.org/foo/bar.git").unwrap();
    assert_eq!(r.host, "codeberg.org");
    assert_eq!(r.owner, "foo");
    assert_eq!(r.repo, "bar");
}

#[test]
fn parses_self_hosted_gitea() {
    let r = parse_gitea_remote("https://gitea.example.com/foo/bar.git").unwrap();
    assert_eq!(r.host, "gitea.example.com");
}

#[test]
fn parses_self_hosted_forgejo() {
    let r = parse_gitea_remote("https://forgejo.example.com/foo/bar.git").unwrap();
    assert_eq!(r.host, "forgejo.example.com");
}

#[test]
fn gitea_compare_url() {
    let r = GiteaRepo {
        host: "codeberg.org".into(),
        owner: "foo".into(),
        repo: "bar".into(),
    };
    assert_eq!(
        r.compare_url(Some("v1.0.0"), "v1.1.0"),
        "https://codeberg.org/foo/bar/compare/v1.0.0...v1.1.0"
    );
}

// ── Dispatch ────────────────────────────────────────────────────

#[test]
fn parse_forge_url_dispatches_to_correct_forge() {
    let cases: &[(&str, &str)] = &[
        ("https://github.com/a/b.git", "github"),
        ("https://gitlab.com/a/b.git", "gitlab"),
        ("https://bitbucket.org/a/b.git", "bitbucket"),
        ("https://codeberg.org/a/b.git", "gitea"),
    ];
    for (url, expected) in cases {
        let f = parse_forge_url(url).unwrap_or_else(|| panic!("no forge for {url}"));
        assert_eq!(f.name(), *expected, "wrong forge for {url}");
    }
}

#[test]
fn parse_forge_url_returns_none_for_unknown_host() {
    assert!(parse_forge_url("https://random.example.com/foo/bar.git").is_none());
}

#[test]
fn gitea_initial_release_links_to_tag_commits() {
    let r = GiteaRepo {
        host: "codeberg.org".into(),
        owner: "foo".into(),
        repo: "bar".into(),
    };
    assert_eq!(r.compare_url(None, "v1"), "https://codeberg.org/foo/bar/commits/tag/v1");
}

#[test]
fn gitlab_initial_release_links_to_commits() {
    let r = GitLabRepo {
        host: "gitlab.com".into(),
        path: "foo/bar".into(),
    };
    assert_eq!(r.compare_url(None, "v1"), "https://gitlab.com/foo/bar/-/commits/v1");
}

#[test]
fn host_match_is_case_insensitive_and_path_normalised() {
    // `.git` is stripped before the trailing slashes, so it survives here.
    let p = parse_github_remote("  https://GitHub.COM/foo/bar.git.git//  ").unwrap();
    assert_eq!(p.owner, "foo");
    assert_eq!(p.repo, "bar.git.git");
    let q = parse_github_remote("https://github.com/foo/bar.git.git").unwrap();
    assert_eq!(q.repo, "bar");
    assert!(parse_github_remote("https://github.com/a/b/c").is_none());
    let g = parse_gitlab_remote("https://GitLab.Example.com/a/b").unwrap();
    assert_eq!(g.host, "gitlab.example.com");
    assert!(parse_gitlab_remote("https://gitlab.com/onlyone").is_none());
}

#[test]
fn scp_form_without_colon_is_not_a_remote() {
    assert!(parse_github_remote("git@github.com/foo/bar").is_none());
}

#[test]
fn github_remote_round_trips_owner_and_repo() {
    for (o, r) in [("octo", "hello-world"), ("a", "b"), ("my.org", "x.gi"), ("o", "git")] {
        let want = Some(GitHubRepo { owner: o.to_string(), repo: r.to_string() });
        assert_eq!(parse_github_remote(&format!("https://github.com/{o}/{r}")), want);
        assert_eq!(parse_github_remote(&format!("git@github.com:{o}/{r}.git")), want);
    }
}
