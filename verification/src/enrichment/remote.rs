//! Identify the forge behind a git remote URL and build its links.
//!
//! Recognised URL forms: `https://`, `http://`, `ssh://git@`, `ssh://`,
//! `git://` followed by `host/path`, and the SCP form `git@host:path`.
//! A trailing `.git` and trailing slashes are dropped from the path.

use vstd::prelude::*;

use crate::split::{
    split_once, split_once_exec, strip_prefix, strip_prefix_exec, trim_end_char,
    trim_end_char_exec, trim_end_seq, trim_end_seq_exec,
};
use crate::text::{
    ascii_lower, ascii_lower_exec, chars_of, contains, contains_exec, contains_char_exec,
    eq_str, push_str, string_of, trim, trim_exec,
};

verus! {

/// A forge: its short name and its link to the commits of a release.
pub trait Forge {
    /// `"github"`, `"gitlab"`, `"bitbucket"` or `"gitea"`.
    fn name(&self) -> &'static str;

    /// The compare page between two refs, or, with no lower bound, a
    /// commits view of the upper one.
    fn compare_url(&self, from: Option<&str>, to: &str) -> String;
}

#[derive(Debug, PartialEq, Eq)]
pub struct GitHubRepo {
    pub owner: String,
    pub repo: String,
}

#[derive(Debug, PartialEq, Eq)]
pub struct GitLabRepo {
    /// `gitlab.com` or a self-hosted instance, lowercased.
    pub host: String,
    /// Everything after the host; nested groups allowed.
    pub path: String,
}

#[derive(Debug, PartialEq, Eq)]
pub struct BitbucketRepo {
    pub owner: String,
    pub repo: String,
}

#[derive(Debug, PartialEq, Eq)]
pub struct GiteaRepo {
    /// `codeberg.org` or a self-hosted Gitea/Forgejo instance, lowercased.
    pub host: String,
    pub owner: String,
    pub repo: String,
}

impl Clone for GitHubRepo {
    fn clone(&self) -> (r: Self)
        ensures
            r == *self,
    {
        GitHubRepo { owner: self.owner.clone(), repo: self.repo.clone() }
    }
}

/// The GitHub compare link.
pub open spec fn github_url(owner: Seq<char>, repo: Seq<char>, from: Option<Seq<char>>, to: Seq<char>) -> Seq<char> {
    match from {
        Some(f) => "https://github.com/"@ + owner + "/"@ + repo + "/compare/"@ + f + "..."@ + to,
        None => "https://github.com/"@ + owner + "/"@ + repo + "/commits/"@ + to,
    }
}

/// The GitLab compare link.
pub open spec fn gitlab_url(host: Seq<char>, path: Seq<char>, from: Option<Seq<char>>, to: Seq<char>) -> Seq<char> {
    match from {
        Some(f) => "https://"@ + host + "/"@ + path + "/-/compare/"@ + f + "..."@ + to,
        None => "https://"@ + host + "/"@ + path + "/-/commits/"@ + to,
    }
}

/// The Bitbucket compare link: two dots, newer ref first.
pub open spec fn bitbucket_url(owner: Seq<char>, repo: Seq<char>, from: Option<Seq<char>>, to: Seq<char>) -> Seq<char> {
    match from {
        Some(f) => "https://bitbucket.org/"@ + owner + "/"@ + repo + "/branches/compare/"@ + to
            + ".."@ + f,
        None => "https://bitbucket.org/"@ + owner + "/"@ + repo + "/commits/tag/"@ + to,
    }
}

/// The Gitea compare link.
pub open spec fn gitea_url(
    host: Seq<char>,
    owner: Seq<char>,
    repo: Seq<char>,
    from: Option<Seq<char>>,
    to: Seq<char>,
) -> Seq<char> {
    match from {
        Some(f) => "https://"@ + host + "/"@ + owner + "/"@ + repo + "/compare/"@ + f + "..."@ + to,
        None => "https://"@ + host + "/"@ + owner + "/"@ + repo + "/commits/tag/"@ + to,
    }
}

pub open spec fn opt_str(o: Option<&str>) -> Option<Seq<char>> {
    match o {
        Some(s) => Some(s@),
        None => None,
    }
}

impl GitHubRepo {
    pub fn compare_link(&self, from: Option<&str>, to: &str) -> (r: String)
        ensures
            r@ == github_url(self.owner@, self.repo@, opt_str(from), to@),
    {
        let mut out = String::from_str("https://github.com/");
        push_str(&mut out, self.owner.as_str());
        push_str(&mut out, "/");
        push_str(&mut out, self.repo.as_str());
        match from {
            Some(f) => {
                push_str(&mut out, "/compare/");
                push_str(&mut out, f);
                push_str(&mut out, "...");
            },
            None => {
                push_str(&mut out, "/commits/");
            },
        }
        push_str(&mut out, to);
        proof {
            assert(out@ =~= github_url(self.owner@, self.repo@, opt_str(from), to@));
        }
        out
    }
}

impl GitLabRepo {
    pub fn compare_link(&self, from: Option<&str>, to: &str) -> (r: String)
        ensures
            r@ == gitlab_url(self.host@, self.path@, opt_str(from), to@),
    {
        let mut out = String::from_str("https://");
        push_str(&mut out, self.host.as_str());
        push_str(&mut out, "/");
        push_str(&mut out, self.path.as_str());
        match from {
            Some(f) => {
                push_str(&mut out, "/-/compare/");
                push_str(&mut out, f);
                push_str(&mut out, "...");
            },
            None => {
                push_str(&mut out, "/-/commits/");
            },
        }
        push_str(&mut out, to);
        proof {
            assert(out@ =~= gitlab_url(self.host@, self.path@, opt_str(from), to@));
        }
        out
    }
}

impl BitbucketRepo {
    pub fn compare_link(&self, from: Option<&str>, to: &str) -> (r: String)
        ensures
            r@ == bitbucket_url(self.owner@, self.repo@, opt_str(from), to@),
    {
        let mut out = String::from_str("https://bitbucket.org/");
        push_str(&mut out, self.owner.as_str());
        push_str(&mut out, "/");
        push_str(&mut out, self.repo.as_str());
        match from {
            Some(f) => {
                push_str(&mut out, "/branches/compare/");
                push_str(&mut out, to);
                push_str(&mut out, "..");
                push_str(&mut out, f);
            },
            None => {
                push_str(&mut out, "/commits/tag/");
                push_str(&mut out, to);
            },
        }
        proof {
            assert(out@ =~= bitbucket_url(self.owner@, self.repo@, opt_str(from), to@));
        }
        out
    }
}

impl GiteaRepo {
    pub fn compare_link(&self, from: Option<&str>, to: &str) -> (r: String)
        ensures
            r@ == gitea_url(self.host@, self.owner@, self.repo@, opt_str(from), to@),
    {
        let mut out = String::from_str("https://");
        push_str(&mut out, self.host.as_str());
        push_str(&mut out, "/");
        push_str(&mut out, self.owner.as_str());
        push_str(&mut out, "/");
        push_str(&mut out, self.repo.as_str());
        match from {
            Some(f) => {
                push_str(&mut out, "/compare/");
                push_str(&mut out, f);
                push_str(&mut out, "...");
            },
            None => {
                push_str(&mut out, "/commits/tag/");
            },
        }
        push_str(&mut out, to);
        proof {
            assert(out@ =~= gitea_url(self.host@, self.owner@, self.repo@, opt_str(from), to@));
        }
        out
    }
}

impl Forge for GitHubRepo {
    fn name(&self) -> (r: &'static str)
        ensures
            r@ == "github"@,
    {
        "github"
    }

    fn compare_url(&self, from: Option<&str>, to: &str) -> (r: String)
        ensures
            r@ == github_url(self.owner@, self.repo@, opt_str(from), to@),
    {
        self.compare_link(from, to)
    }
}

impl Forge for GitLabRepo {
    fn name(&self) -> (r: &'static str)
        ensures
            r@ == "gitlab"@,
    {
        "gitlab"
    }

    fn compare_url(&self, from: Option<&str>, to: &str) -> (r: String)
        ensures
            r@ == gitlab_url(self.host@, self.path@, opt_str(from), to@),
    {
        self.compare_link(from, to)
    }
}

impl Forge for BitbucketRepo {
    fn name(&self) -> (r: &'static str)
        ensures
            r@ == "bitbucket"@,
    {
        "bitbucket"
    }

    fn compare_url(&self, from: Option<&str>, to: &str) -> (r: String)
        ensures
            r@ == bitbucket_url(self.owner@, self.repo@, opt_str(from), to@),
    {
        self.compare_link(from, to)
    }
}

impl Forge for GiteaRepo {
    fn name(&self) -> (r: &'static str)
        ensures
            r@ == "gitea"@,
    {
        "gitea"
    }

    fn compare_url(&self, from: Option<&str>, to: &str) -> (r: String)
        ensures
            r@ == gitea_url(self.host@, self.owner@, self.repo@, opt_str(from), to@),
    {
        self.compare_link(from, to)
    }
}

/// A recognised forge, one variant per kind.
#[derive(Debug, PartialEq, Eq)]
pub enum AnyForge {
    GitHub(GitHubRepo),
    GitLab(GitLabRepo),
    Bitbucket(BitbucketRepo),
    Gitea(GiteaRepo),
}

impl Forge for AnyForge {
    fn name(&self) -> (r: &'static str)
        ensures
            r@ == match self {
                AnyForge::GitHub(_) => "github"@,
                AnyForge::GitLab(_) => "gitlab"@,
                AnyForge::Bitbucket(_) => "bitbucket"@,
                AnyForge::Gitea(_) => "gitea"@,
            },
    {
        match self {
            AnyForge::GitHub(f) => f.name(),
            AnyForge::GitLab(f) => f.name(),
            AnyForge::Bitbucket(f) => f.name(),
            AnyForge::Gitea(f) => f.name(),
        }
    }

    fn compare_url(&self, from: Option<&str>, to: &str) -> (r: String)
        ensures
            r@ == match self {
                AnyForge::GitHub(f) => github_url(f.owner@, f.repo@, opt_str(from), to@),
                AnyForge::GitLab(f) => gitlab_url(f.host@, f.path@, opt_str(from), to@),
                AnyForge::Bitbucket(f) => bitbucket_url(f.owner@, f.repo@, opt_str(from), to@),
                AnyForge::Gitea(f) => gitea_url(f.host@, f.owner@, f.repo@, opt_str(from), to@),
            },
    {
        match self {
            AnyForge::GitHub(f) => f.compare_link(from, to),
            AnyForge::GitLab(f) => f.compare_link(from, to),
            AnyForge::Bitbucket(f) => f.compare_link(from, to),
            AnyForge::Gitea(f) => f.compare_link(from, to),
        }
    }
}

/// Host and path of a remote URL, the path still raw.
pub open spec fn host_and_path(url: Seq<char>) -> Option<(Seq<char>, Seq<char>)> {
    let t = trim(url);
    let scp = match strip_prefix(t, "git@"@) {
        Some(rest) => split_once(rest, ':'),
        None => None,
    };
    if scp is Some {
        scp
    } else {
        let rest = if strip_prefix(t, "https://"@) is Some {
            strip_prefix(t, "https://"@)
        } else if strip_prefix(t, "http://"@) is Some {
            strip_prefix(t, "http://"@)
        } else if strip_prefix(t, "ssh://git@"@) is Some {
            strip_prefix(t, "ssh://git@"@)
        } else if strip_prefix(t, "ssh://"@) is Some {
            strip_prefix(t, "ssh://"@)
        } else {
            strip_prefix(t, "git://"@)
        };
        match rest {
            Some(r) => split_once(r, '/'),
            None => None,
        }
    }
}

/// The path without trailing `.git` and trailing slashes.
pub open spec fn normalized_path(p: Seq<char>) -> Seq<char> {
    trim_end_char(trim_end_seq(p, ".git"@), '/')
}

/// `owner/repo` of a path: exactly two non-empty segments.
pub open spec fn owner_repo(path: Seq<char>) -> Option<(Seq<char>, Seq<char>)> {
    match split_once(normalized_path(path), '/') {
        Some((o, r)) => if o.len() > 0 && r.len() > 0 && !r.contains('/') {
            Some((o, r))
        } else {
            None
        },
        None => None,
    }
}

/// `(owner, repo)` of a GitHub remote.
pub open spec fn github_remote(url: Seq<char>) -> Option<(Seq<char>, Seq<char>)> {
    match host_and_path(url) {
        Some((h, p)) => if ascii_lower(h) == "github.com"@ {
            owner_repo(p)
        } else {
            None
        },
        None => None,
    }
}

/// `(host, path)` of a GitLab remote: a host mentioning `gitlab`.
pub open spec fn gitlab_remote(url: Seq<char>) -> Option<(Seq<char>, Seq<char>)> {
    match host_and_path(url) {
        Some((h, p)) => {
            let hl = ascii_lower(h);
            let np = normalized_path(p);
            if (hl == "gitlab.com"@ || contains(hl, "gitlab"@)) && np.contains('/') && np.len() > 0 {
                Some((hl, np))
            } else {
                None
            }
        },
        None => None,
    }
}

/// `(owner, repo)` of a Bitbucket Cloud remote.
pub open spec fn bitbucket_remote(url: Seq<char>) -> Option<(Seq<char>, Seq<char>)> {
    match host_and_path(url) {
        Some((h, p)) => if ascii_lower(h) == "bitbucket.org"@ {
            owner_repo(p)
        } else {
            None
        },
        None => None,
    }
}

/// `(host, owner, repo)` of a Gitea, Forgejo or Codeberg remote.
pub open spec fn gitea_remote(url: Seq<char>) -> Option<(Seq<char>, Seq<char>, Seq<char>)> {
    match host_and_path(url) {
        Some((h, p)) => {
            let hl = ascii_lower(h);
            if hl == "codeberg.org"@ || contains(hl, "gitea"@) || contains(hl, "forgejo"@) {
                match owner_repo(p) {
                    Some((o, r)) => Some((hl, o, r)),
                    None => None,
                }
            } else {
                None
            }
        },
        None => None,
    }
}

proof fn lemma_split_at_first(a: Seq<char>, c: char, b: Seq<char>)
    requires
        !a.contains(c),
    ensures
        split_once(a + seq![c] + b, c) == Some((a, b)),
{
    let s = a + seq![c] + b;
    assert forall|j: int| 0 <= j < a.len() implies #[trigger] s[j] != c by {
        assert(s[j] == a[j]);
    }
    assert(s[a.len() as int] == c);
    crate::text::lemma_char_pos_is(s, c, a.len() as int);
    assert(s.take(a.len() as int) =~= a);
    assert(s.skip(a.len() + 1int) =~= b);
}

proof fn lemma_trim_unchanged(s: Seq<char>)
    requires
        s.len() > 0,
        !crate::text::is_ws(s[0]),
        !crate::text::is_ws(s.last()),
    ensures
        trim(s) == s,
{
    crate::text::lemma_lead_ws_char(s, 0);
    assert(crate::text::trim_start(s) =~= s);
    crate::text::lemma_trail_ws_char(s, 0);
    assert(crate::text::trim_end(s) =~= s);
}

/// `owner/repo` and `owner/repo.git` both read back as owner and repo.
proof fn lemma_owner_repo_of(o: Seq<char>, r: Seq<char>)
    requires
        o.len() > 0,
        r.len() > 0,
        !o.contains('/'),
        !r.contains('/'),
        !crate::text::ends_with(r, ".git"@),
    ensures
        owner_repo(o + "/"@ + r) == Some((o, r)),
        owner_repo(o + "/"@ + r + ".git"@) == Some((o, r)),
{
    reveal_strlit("/");
    reveal_strlit(".git");
    let p = o + "/"@ + r;
    assert(p == o + seq!['/'] + r);
    if crate::text::ends_with(p, ".git"@) {
        if r.len() >= 4 {
            assert(r.skip(r.len() - 4) =~= p.skip(p.len() - 4));
        } else {
            let k = o.len() - (p.len() - 4);
            assert(p.skip(p.len() - 4)[k] == p[o.len() as int]);
            assert(".git"@[k] != '/');
        }
    }
    assert(trim_end_seq(p, ".git"@) == p);
    assert(p.last() == r.last());
    assert(r.last() != '/') by {
        if r.last() == '/' {
            assert(r.contains('/'));
        }
    }
    assert(crate::split::trail_count(p, '/') == 0);
    assert(trim_end_char(p, '/') =~= p);
    lemma_split_at_first(o, '/', r);
    let q = p + ".git"@;
    assert(crate::text::ends_with(q, ".git"@)) by {
        assert(q.skip(q.len() - 4) =~= ".git"@);
    }
    assert(q.take(q.len() - 4) =~= p);
    assert(trim_end_seq(q, ".git"@) == trim_end_seq(p, ".git"@));
}

/// A github.com remote written from an owner and a repository name, as an
/// HTTPS URL or as an SCP-style SSH address with `.git`, reads back as
/// that owner and repository.
pub proof fn lemma_github_remote_round_trip(o: Seq<char>, r: Seq<char>)
    requires
        o.len() > 0,
        r.len() > 0,
        !o.contains('/'),
        !r.contains('/'),
        !crate::text::ends_with(r, ".git"@),
        !crate::text::is_ws(r.last()),
    ensures
        github_remote("https://github.com/"@ + o + "/"@ + r) == Some((o, r)),
        github_remote("git@github.com:"@ + o + "/"@ + r + ".git"@) == Some((o, r)),
{
    lemma_owner_repo_of(o, r);
    reveal_strlit("https://github.com/");
    reveal_strlit("git@github.com:");
    reveal_strlit("github.com");
    reveal_strlit("git@");
    reveal_strlit("https://");
    reveal_strlit("/");
    reveal_strlit(".git");
    let p = o + "/"@ + r;
    let host = "github.com"@;
    assert(ascii_lower(host) =~= host);
    assert(!host.contains('/') && !host.contains(':')) by {
        assert forall|j: int| 0 <= j < host.len() implies host[j] != '/' && host[j] != ':' by {}
    }
    // HTTPS form.
    let u1 = "https://github.com/"@ + o + "/"@ + r;
    lemma_trim_unchanged(u1);
    assert(u1.take(4) != "git@"@) by {
        assert(u1[0] != "git@"@[0]);
    }
    let rest1 = host + seq!['/'] + p;
    assert(u1.take(8) =~= "https://"@);
    assert(u1.skip(8) =~= rest1);
    lemma_split_at_first(host, '/', p);
    // SCP form.
    let u2 = "git@github.com:"@ + o + "/"@ + r + ".git"@;
    assert(u2.last() == 't');
    lemma_trim_unchanged(u2);
    let rest2 = host + seq![':'] + (p + ".git"@);
    assert(u2.take(4) =~= "git@"@);
    assert(u2.skip(4) =~= rest2);
    lemma_split_at_first(host, ':', p + ".git"@);
}

/// [`host_and_path`], executable.
fn split_host_and_path(url: &str) -> (r: Option<(Vec<char>, Vec<char>)>)
    ensures
        match r {
            Some((h, p)) => host_and_path(url@) == Some((h@, p@)),
            None => host_and_path(url@) is None,
        },
{
    let t = trim_exec(&chars_of(url));
    match strip_prefix_exec(&t, "git@") {
        Some(rest) => match split_once_exec(&rest, ':') {
            Some(hp) => {
                return Some(hp);
            },
            None => {},
        },
        None => {},
    }
    let rest = match strip_prefix_exec(&t, "https://") {
        Some(r) => Some(r),
        None => match strip_prefix_exec(&t, "http://") {
            Some(r) => Some(r),
            None => match strip_prefix_exec(&t, "ssh://git@") {
                Some(r) => Some(r),
                None => match strip_prefix_exec(&t, "ssh://") {
                    Some(r) => Some(r),
                    None => strip_prefix_exec(&t, "git://"),
                },
            },
        },
    };
    match rest {
        Some(r) => split_once_exec(&r, '/'),
        None => None,
    }
}

/// [`normalized_path`], executable.
fn normalize_path(p: &[char]) -> (r: Vec<char>)
    ensures
        r@ == normalized_path(p@),
{
    trim_end_char_exec(&trim_end_seq_exec(p, ".git"), '/')
}

/// [`owner_repo`], executable.
fn split_owner_repo(path: &[char]) -> (r: Option<(String, String)>)
    ensures
        match r {
            Some((o, rp)) => owner_repo(path@) == Some((o@, rp@)),
            None => owner_repo(path@) is None,
        },
{
    let np = normalize_path(path);
    match split_once_exec(&np, '/') {
        Some((o, r)) => {
            if o.len() > 0 && r.len() > 0 && !contains_char_exec(&r, '/') {
                Some((string_of(&o), string_of(&r)))
            } else {
                None
            }
        },
        None => None,
    }
}

/// Parse a github.com remote URL.
pub fn parse_github_remote(url: &str) -> (r: Option<GitHubRepo>)
    ensures
        match r {
            Some(g) => github_remote(url@) == Some((g.owner@, g.repo@)),
            None => github_remote(url@) is None,
        },
{
    let (host, path) = match split_host_and_path(url) {
        Some(hp) => hp,
        None => return None,
    };
    if !eq_str(&ascii_lower_exec(&host), "github.com") {
        return None;
    }
    match split_owner_repo(&path) {
        Some((owner, repo)) => Some(GitHubRepo { owner, repo }),
        None => None,
    }
}

/// Parse a GitLab remote URL: gitlab.com or a host mentioning `gitlab`.
pub fn parse_gitlab_remote(url: &str) -> (r: Option<GitLabRepo>)
    ensures
        match r {
            Some(g) => gitlab_remote(url@) == Some((g.host@, g.path@)),
            None => gitlab_remote(url@) is None,
        },
{
    let (host, path) = match split_host_and_path(url) {
        Some(hp) => hp,
        None => return None,
    };
    let hl = ascii_lower_exec(&host);
    if !(eq_str(&hl, "gitlab.com") || contains_exec(&hl, &chars_of("gitlab"))) {
        return None;
    }
    let np = normalize_path(&path);
    if !contains_char_exec(&np, '/') || np.len() == 0 {
        return None;
    }
    Some(GitLabRepo { host: string_of(&hl), path: string_of(&np) })
}

/// Parse a Bitbucket Cloud remote URL.
pub fn parse_bitbucket_remote(url: &str) -> (r: Option<BitbucketRepo>)
    ensures
        match r {
            Some(g) => bitbucket_remote(url@) == Some((g.owner@, g.repo@)),
            None => bitbucket_remote(url@) is None,
        },
{
    let (host, path) = match split_host_and_path(url) {
        Some(hp) => hp,
        None => return None,
    };
    if !eq_str(&ascii_lower_exec(&host), "bitbucket.org") {
        return None;
    }
    match split_owner_repo(&path) {
        Some((owner, repo)) => Some(BitbucketRepo { owner, repo }),
        None => None,
    }
}

/// Parse a Gitea / Forgejo / Codeberg remote URL.
pub fn parse_gitea_remote(url: &str) -> (r: Option<GiteaRepo>)
    ensures
        match r {
            Some(g) => gitea_remote(url@) == Some((g.host@, g.owner@, g.repo@)),
            None => gitea_remote(url@) is None,
        },
{
    let (host, path) = match split_host_and_path(url) {
        Some(hp) => hp,
        None => return None,
    };
    let hl = ascii_lower_exec(&host);
    if !(eq_str(&hl, "codeberg.org") || contains_exec(&hl, &chars_of("gitea")) || contains_exec(
        &hl,
        &chars_of("forgejo"),
    )) {
        return None;
    }
    match split_owner_repo(&path) {
        Some((owner, repo)) => Some(GiteaRepo { host: string_of(&hl), owner, repo }),
        None => None,
    }
}

/// The forge a URL belongs to, tried in order GitHub, GitLab,
/// Bitbucket, Gitea.
pub open spec fn forge_of(url: Seq<char>, f: Option<AnyForge>) -> bool {
    match f {
        Some(AnyForge::GitHub(g)) => github_remote(url) == Some((g.owner@, g.repo@)),
        Some(AnyForge::GitLab(g)) => github_remote(url) is None && gitlab_remote(url) == Some(
            (g.host@, g.path@),
        ),
        Some(AnyForge::Bitbucket(g)) => github_remote(url) is None && gitlab_remote(url) is None
            && bitbucket_remote(url) == Some((g.owner@, g.repo@)),
        Some(AnyForge::Gitea(g)) => github_remote(url) is None && gitlab_remote(url) is None
            && bitbucket_remote(url) is None && gitea_remote(url) == Some(
            (g.host@, g.owner@, g.repo@),
        ),
        None => github_remote(url) is None && gitlab_remote(url) is None && bitbucket_remote(url)
            is None && gitea_remote(url) is None,
    }
}

/// Dispatch a URL to the forge parsers, most specific first.
pub fn parse_forge_url(url: &str) -> (r: Option<AnyForge>)
    ensures
        forge_of(url@, r),
{
    if let Some(r) = parse_github_remote(url) {
        return Some(AnyForge::GitHub(r));
    }
    if let Some(r) = parse_gitlab_remote(url) {
        return Some(AnyForge::GitLab(r));
    }
    if let Some(r) = parse_bitbucket_remote(url) {
        return Some(AnyForge::Bitbucket(r));
    }
    if let Some(r) = parse_gitea_remote(url) {
        return Some(AnyForge::Gitea(r));
    }
    None
}

/// The URL `git remote get-url` printed, trimmed; `None` when blank.
pub fn remote_url_from(stdout: &str) -> (r: Option<String>)
    ensures
        match r {
            Some(u) => trim(stdout@).len() > 0 && u@ == trim(stdout@),
            None => trim(stdout@).len() == 0,
        },
{
    let t = trim_exec(&chars_of(stdout));
    if t.len() == 0 {
        None
    } else {
        Some(string_of(&t))
    }
}

} // verus!
