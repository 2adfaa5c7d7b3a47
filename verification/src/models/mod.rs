//! Shared data types passed between the pipeline stages.

pub mod classification;
pub mod pr;
pub mod release;
pub mod tokens;

pub use classification::{
    Classification, ClassificationSource, Classified, ClassifiedCommit, Section, CONFIDENCE_FULL,
};
pub use pr::PrInfo;
pub use release::{ParsedVersion, ReleaseKind, VersionBump, VersionScheme};
pub use tokens::TokenUsage;

use vstd::prelude::*;

verus! {

/// Copy of a list of strings.
pub fn clone_strings(v: &Vec<String>) -> (r: Vec<String>)
    ensures
        r@ == v@,
{
    let mut out: Vec<String> = Vec::new();
    let mut i: usize = 0;
    while i < v.len()
        invariant
            i <= v@.len(),
            out@ == v@.take(i as int),
        decreases v@.len() - i,
    {
        out.push(v[i].clone());
        i = i + 1;
        proof {
            assert(out@ =~= v@.take(i as int));
        }
    }
    proof {
        assert(v@.take(v@.len() as int) =~= v@);
    }
    out
}

/// Copy of a slice of strings.
pub fn clone_strings_slice(v: &[String]) -> (r: Vec<String>)
    ensures
        r@ == v@,
{
    let mut out: Vec<String> = Vec::new();
    let mut i: usize = 0;
    while i < v.len()
        invariant
            i <= v@.len(),
            out@ == v@.take(i as int),
        decreases v@.len() - i,
    {
        out.push(v[i].clone());
        i = i + 1;
        proof {
            assert(out@ =~= v@.take(i as int));
        }
    }
    proof {
        assert(v@.take(v@.len() as int) =~= v@);
    }
    out
}

pub fn clone_opt_string(v: &Option<String>) -> (r: Option<String>)
    ensures
        r == *v,
{
    match v {
        Some(s) => Some(s.clone()),
        None => None,
    }
}

/// Conventional Commits header parsed from a commit subject.
#[derive(Debug, PartialEq, Eq)]
pub struct Conventional {
    /// e.g. `feat`, `fix`, lowercased.
    pub kind: String,
    /// `feat(api): …` gives `Some("api")`.
    pub scope: Option<String>,
    /// `!` in the header or a `BREAKING CHANGE:` footer in the body.
    pub breaking: bool,
    /// The descriptive part after the colon.
    pub description: String,
}

impl Clone for Conventional {
    fn clone(&self) -> (r: Self)
        ensures
            r == *self,
    {
        Conventional {
            kind: self.kind.clone(),
            scope: clone_opt_string(&self.scope),
            breaking: self.breaking,
            description: self.description.clone(),
        }
    }
}

/// Single commit plus what parsing derived from it.
#[derive(Debug, PartialEq, Eq)]
pub struct Commit {
    pub sha: String,
    pub short_sha: String,
    pub author_name: String,
    pub author_email: String,
    /// Author date as ISO 8601.
    pub author_date: String,
    /// Parent SHAs; a merge commit has two or more.
    pub parents: Vec<String>,
    pub subject: String,
    pub body: String,
    pub files: Vec<String>,
    /// Parsed from squash-merge subjects like `... (#123)`.
    pub pr_id: Option<u64>,
    pub conventional: Option<Conventional>,
    /// `!` marker or `BREAKING CHANGE:` footer present.
    pub breaking: bool,
}

impl Commit {
    /// Equal field by field, lists compared by content.
    pub open spec fn same_as(self, o: Commit) -> bool {
        &&& self.sha == o.sha
        &&& self.short_sha == o.short_sha
        &&& self.author_name == o.author_name
        &&& self.author_email == o.author_email
        &&& self.author_date == o.author_date
        &&& self.parents@ == o.parents@
        &&& self.subject == o.subject
        &&& self.body == o.body
        &&& self.files@ == o.files@
        &&& self.pr_id == o.pr_id
        &&& self.conventional == o.conventional
        &&& self.breaking == o.breaking
    }
}

impl Clone for Commit {
    fn clone(&self) -> (r: Self)
        ensures
            r.same_as(*self),
    {
        Commit {
            sha: self.sha.clone(),
            short_sha: self.short_sha.clone(),
            author_name: self.author_name.clone(),
            author_email: self.author_email.clone(),
            author_date: self.author_date.clone(),
            parents: clone_strings(&self.parents),
            subject: self.subject.clone(),
            body: self.body.clone(),
            files: clone_strings(&self.files),
            pr_id: self.pr_id,
            conventional: match &self.conventional {
                Some(c) => Some(c.clone()),
                None => None,
            },
            breaking: self.breaking,
        }
    }
}

impl Commit {
    /// Whether this commit has more than one parent.
    pub fn is_merge(&self) -> (r: bool)
        ensures
            r == (self.parents@.len() > 1),
    {
        self.parents.len() > 1
    }
}

/// A [`Commit`] paired with the PR metadata found for it, if any.
#[derive(Debug, PartialEq, Eq)]
pub struct EnrichedCommit {
    pub commit: Commit,
    pub pr: Option<PrInfo>,
}

impl Clone for EnrichedCommit {
    fn clone(&self) -> (r: Self)
        ensures
            r.commit.same_as(self.commit),
            pr::same_opt_pr(r.pr, self.pr),
    {
        EnrichedCommit {
            commit: self.commit.clone(),
            pr: match &self.pr {
                Some(p) => Some(p.clone()),
                None => None,
            },
        }
    }
}

impl EnrichedCommit {
    pub fn from_commit(commit: Commit) -> (r: Self)
        ensures
            r.commit == commit,
            r.pr is None,
    {
        EnrichedCommit { commit, pr: None }
    }

    pub fn from_commits(commits: Vec<Commit>) -> (r: Vec<Self>)
        ensures
            r@.len() == commits@.len(),
            forall|i: int| 0 <= i < r@.len() ==> #[trigger] r@[i].commit == commits@[i] && r@[i].pr is None,
    {
        let mut out: Vec<EnrichedCommit> = Vec::new();
        let mut rest = commits;
        let ghost all = rest@;
        let mut taken: Vec<Commit> = Vec::new();
        // Move the commits out front-to-back.
        rest = reverse_vec(rest);
        let ghost rev = rest@;
        while rest.len() > 0
            invariant
                rev.len() == all.len(),
                forall|k: int| 0 <= k < rev.len() ==> rev[k] == all[all.len() - 1 - k],
                rest@ == rev.take(rest@.len() as int),
                out@.len() + rest@.len() == all.len(),
                forall|i: int| 0 <= i < out@.len() ==> #[trigger] out@[i].commit == all[i] && out@[i].pr is None,
            decreases rest@.len(),
        {
            let c = rest.pop().unwrap();
            proof {
                assert(c == rev[rest@.len() as int]);
            }
            out.push(EnrichedCommit::from_commit(c));
            proof {
                assert(rest@ =~= rev.take(rest@.len() as int));
            }
        }
        out
    }
}

/// The elements of `v` in reverse order.
pub fn reverse_vec<T>(v: Vec<T>) -> (r: Vec<T>)
    ensures
        r@.len() == v@.len(),
        forall|k: int| 0 <= k < r@.len() ==> r@[k] == v@[v@.len() - 1 - k],
{
    let mut src = v;
    let ghost orig = src@;
    let mut out: Vec<T> = Vec::new();
    while src.len() > 0
        invariant
            src@ == orig.take(src@.len() as int),
            out@.len() + src@.len() == orig.len(),
            forall|k: int| 0 <= k < out@.len() ==> out@[k] == orig[orig.len() - 1 - k],
        decreases src@.len(),
    {
        let x = src.pop().unwrap();
        out.push(x);
        proof {
            assert(src@ =~= orig.take(src@.len() as int));
        }
    }
    out
}

/// Detected integration style of a commit range.
#[derive(Debug, Clone, Copy, PartialEq, Eq, Structural)]
pub enum MergeStyle {
    /// Most subjects look like `<PR title> (#NNN)`.
    Squash,
    /// Many `Merge pull request #NNN …` commits.
    Merge,
    /// Single-parent commits without PR-ID suffixes.
    Rebase,
    /// Mixed signals.
    Mixed,
}

impl MergeStyle {
    /// Lowercase name, as displayed.
    pub fn as_str(self) -> (r: &'static str)
        ensures
            r@ == merge_style_name(self),
    {
        match self {
            MergeStyle::Squash => "squash",
            MergeStyle::Merge => "merge",
            MergeStyle::Rebase => "rebase",
            MergeStyle::Mixed => "mixed",
        }
    }
}

pub open spec fn merge_style_name(m: MergeStyle) -> Seq<char> {
    match m {
        MergeStyle::Squash => "squash"@,
        MergeStyle::Merge => "merge"@,
        MergeStyle::Rebase => "rebase"@,
        MergeStyle::Mixed => "mixed"@,
    }
}

} // verus!
