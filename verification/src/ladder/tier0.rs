//! Tier 0: deterministic classification, no model involved.
//!
//! 1. A Conventional Commits header gives the section of its type; a
//!    breaking commit goes to Breaking Changes.
//! 2. Otherwise, a commit whose files all fit one pattern (lockfiles,
//!    `docs/`, `.github/workflows/`, top-level Markdown) is placed by it.
//! 3. Otherwise the commit lands in Other with half confidence, for the
//!    later tiers to revisit.

use vstd::prelude::*;

use crate::models::classification::Section;
use crate::models::pr::same_opt_pr;
use crate::models::{
    Classification, ClassificationSource, Classified, ClassifiedCommit, Commit, EnrichedCommit,
    CONFIDENCE_FULL,
};
use crate::text::{
    chars_of, contains_char_exec, ends_with, ends_with_exec, eq_str, starts_with,
    starts_with_exec, string_views,
};

verus! {

/// Confidence of the fallback placement, in thousandths.
pub const FALLBACK_CONFIDENCE: u32 = 500;

/// Section a Conventional Commits type maps to.
pub open spec fn kind_section(k: Seq<char>) -> Section {
    if k == "feat"@ {
        Section::Features
    } else if k == "fix"@ {
        Section::BugFixes
    } else if k == "perf"@ {
        Section::Performance
    } else if k == "refactor"@ {
        Section::Refactor
    } else if k == "docs"@ {
        Section::Documentation
    } else if k == "test"@ || k == "tests"@ {
        Section::Tests
    } else if k == "build"@ {
        Section::Build
    } else if k == "ci"@ {
        Section::Ci
    } else if k == "chore"@ || k == "style"@ {
        Section::Chore
    } else {
        Section::Other
    }
}

/// Lockfile names that alone justify a dependency-chore placement.
pub open spec fn lockfile_name(n: Seq<char>) -> bool {
    ||| n == "Cargo.lock"@
    ||| n == "package-lock.json"@
    ||| n == "yarn.lock"@
    ||| n == "pnpm-lock.yaml"@
    ||| n == "go.sum"@
    ||| n == "Pipfile.lock"@
    ||| n == "poetry.lock"@
    ||| n == "uv.lock"@
    ||| n == "composer.lock"@
    ||| n == "Gemfile.lock"@
}

/// What `Path::file_name` gives for a path, as text, read the Unix way:
/// `/` alone separates components (a `\` is part of a name), as in the
/// `/`-separated paths git reports.
pub uninterp spec fn path_file_name(path: Seq<char>) -> Option<Seq<char>>;

/// Calls `std::path::Path::file_name`. Claims only that the result is
/// [`path_file_name`] of the path; `None` also when the name is not UTF-8.
/// The claim relies on the Unix reading of paths: on a Windows target a
/// `\` would separate components as well, and the name would differ for
/// paths holding one.
#[verifier::external_body]
pub(crate) fn file_name_of(path: &str) -> (r: Option<String>)
    ensures
        match r {
            Some(n) => path_file_name(path@) == Some(n@),
            None => path_file_name(path@) is None,
        },
{
    match std::path::Path::new(path).file_name() {
        Some(n) => match n.to_str() {
            Some(s) => Some(s.to_string()),
            None => None,
        },
        None => None,
    }
}

pub open spec fn is_lockfile_path(p: Seq<char>) -> bool {
    match path_file_name(p) {
        Some(n) => lockfile_name(n),
        None => false,
    }
}

pub open spec fn is_root_markdown(p: Seq<char>) -> bool {
    !p.contains('/') && ends_with(p, ".md"@)
}

/// The file-pattern placement of a commit's files: section and reason.
pub open spec fn files_rule(files: Seq<Seq<char>>) -> Option<(Section, Seq<char>)> {
    if files.len() == 0 {
        None
    } else if forall|i: int| 0 <= i < files.len() ==> is_lockfile_path(#[trigger] files[i]) {
        Some((Section::Chore, "files-only-lockfiles"@))
    } else if forall|i: int| 0 <= i < files.len() ==> starts_with(#[trigger] files[i], "docs/"@) {
        Some((Section::Documentation, "files-only-docs-dir"@))
    } else if forall|i: int|
        0 <= i < files.len() ==> starts_with(#[trigger] files[i], ".github/workflows/"@) {
        Some((Section::Ci, "files-only-workflows"@))
    } else if forall|i: int| 0 <= i < files.len() ==> is_root_markdown(#[trigger] files[i]) {
        Some((Section::Documentation, "files-only-root-markdown"@))
    } else {
        None
    }
}

/// `c` is the Tier 0 classification of `commit`.
pub open spec fn tier0_of(c: Classification, commit: Commit) -> bool {
    match commit.conventional {
        Some(conv) => {
            &&& c.section == if commit.breaking || conv.breaking {
                Section::Breaking
            } else {
                kind_section(conv.kind@)
            }
            &&& c.summary@ == conv.description@
            &&& c.source is Conventional
            &&& c.confidence == CONFIDENCE_FULL
        },
        None => match files_rule(string_views(commit.files@)) {
            Some((s, reason)) => {
                &&& c.section == s
                &&& c.summary@ == commit.subject@
                &&& c.source matches ClassificationSource::FilesHeuristic { reason: r } && r@ == reason
                &&& c.confidence == CONFIDENCE_FULL
            },
            None => {
                &&& c.section == Section::Other
                &&& c.summary@ == commit.subject@
                &&& c.source is Default
                &&& c.confidence == FALLBACK_CONFIDENCE
            },
        },
    }
}

/// Tier 0 places a commit with a Conventional Commits header by its type,
/// unless it is breaking: `feat` under Features, `fix` under Bug Fixes,
/// `perf` under Performance, `refactor` under Refactoring, `docs` under
/// Documentation, `test`/`tests` under Tests, `build` under Build, `ci`
/// under CI, `chore`/`style` under Chore, any other type under Other; a
/// breaking commit goes under Breaking Changes whatever its type. The
/// summary is the header's description and the placement is certain.
pub proof fn lemma_conventional_placement(c: Classification, commit: Commit)
    requires
        tier0_of(c, commit),
        commit.conventional is Some,
    ensures
        ({
            let conv = commit.conventional->0;
            let k = conv.kind@;
            &&& (commit.breaking || conv.breaking) ==> c.section == Section::Breaking
            &&& !(commit.breaking || conv.breaking) ==> {
                &&& k == "feat"@ ==> c.section == Section::Features
                &&& k == "fix"@ ==> c.section == Section::BugFixes
                &&& k == "perf"@ ==> c.section == Section::Performance
                &&& k == "refactor"@ ==> c.section == Section::Refactor
                &&& k == "docs"@ ==> c.section == Section::Documentation
                &&& (k == "test"@ || k == "tests"@) ==> c.section == Section::Tests
                &&& k == "build"@ ==> c.section == Section::Build
                &&& k == "ci"@ ==> c.section == Section::Ci
                &&& (k == "chore"@ || k == "style"@) ==> c.section == Section::Chore
                &&& !(k == "feat"@ || k == "fix"@ || k == "perf"@ || k == "refactor"@ || k == "docs"@
                    || k == "test"@ || k == "tests"@ || k == "build"@ || k == "ci"@ || k == "chore"@
                    || k == "style"@) ==> c.section == Section::Other
            }
            &&& c.summary@ == conv.description@
            &&& c.confidence == CONFIDENCE_FULL
        }),
{
    reveal_strlit("feat");
    reveal_strlit("fix");
    reveal_strlit("perf");
    reveal_strlit("refactor");
    reveal_strlit("docs");
    reveal_strlit("test");
    reveal_strlit("tests");
    reveal_strlit("build");
    reveal_strlit("ci");
    reveal_strlit("chore");
    reveal_strlit("style");
    assert("fix"@.len() != "feat"@.len());
    assert("perf"@[0] != "feat"@[0]);
    assert("perf"@.len() != "fix"@.len());
    assert("refactor"@.len() != "feat"@.len());
    assert("refactor"@.len() != "fix"@.len());
    assert("refactor"@.len() != "perf"@.len());
    assert("docs"@[0] != "feat"@[0]);
    assert("docs"@.len() != "fix"@.len());
    assert("docs"@[0] != "perf"@[0]);
    assert("docs"@.len() != "refactor"@.len());
    assert("test"@[0] != "feat"@[0]);
    assert("test"@.len() != "fix"@.len());
    assert("test"@[0] != "perf"@[0]);
    assert("test"@.len() != "refactor"@.len());
    assert("test"@[0] != "docs"@[0]);
    assert("tests"@.len() != "feat"@.len());
    assert("tests"@.len() != "fix"@.len());
    assert("tests"@.len() != "perf"@.len());
    assert("tests"@.len() != "refactor"@.len());
    assert("tests"@.len() != "docs"@.len());
    assert("tests"@.len() != "test"@.len());
    assert("build"@.len() != "feat"@.len());
    assert("build"@.len() != "fix"@.len());
    assert("build"@.len() != "perf"@.len());
    assert("build"@.len() != "refactor"@.len());
    assert("build"@.len() != "docs"@.len());
    assert("build"@.len() != "test"@.len());
    assert("build"@[0] != "tests"@[0]);
    assert("ci"@.len() != "feat"@.len());
    assert("ci"@.len() != "fix"@.len());
    assert("ci"@.len() != "perf"@.len());
    assert("ci"@.len() != "refactor"@.len());
    assert("ci"@.len() != "docs"@.len());
    assert("ci"@.len() != "test"@.len());
    assert("ci"@.len() != "tests"@.len());
    assert("ci"@.len() != "build"@.len());
    assert("chore"@.len() != "feat"@.len());
    assert("chore"@.len() != "fix"@.len());
    assert("chore"@.len() != "perf"@.len());
    assert("chore"@.len() != "refactor"@.len());
    assert("chore"@.len() != "docs"@.len());
    assert("chore"@.len() != "test"@.len());
    assert("chore"@[0] != "tests"@[0]);
    assert("chore"@[0] != "build"@[0]);
    assert("chore"@.len() != "ci"@.len());
    assert("style"@.len() != "feat"@.len());
    assert("style"@.len() != "fix"@.len());
    assert("style"@.len() != "perf"@.len());
    assert("style"@.len() != "refactor"@.len());
    assert("style"@.len() != "docs"@.len());
    assert("style"@.len() != "test"@.len());
    assert("style"@[0] != "tests"@[0]);
    assert("style"@[0] != "build"@[0]);
    assert("style"@.len() != "ci"@.len());
    assert("style"@[0] != "chore"@[0]);
}

/// Section of a Conventional Commits type.
pub fn section_from_kind(kind: &str) -> (r: Section)
    ensures
        r == kind_section(kind@),
{
    let k = chars_of(kind);
    if eq_str(&k, "feat") {
        Section::Features
    } else if eq_str(&k, "fix") {
        Section::BugFixes
    } else if eq_str(&k, "perf") {
        Section::Performance
    } else if eq_str(&k, "refactor") {
        Section::Refactor
    } else if eq_str(&k, "docs") {
        Section::Documentation
    } else if eq_str(&k, "test") || eq_str(&k, "tests") {
        Section::Tests
    } else if eq_str(&k, "build") {
        Section::Build
    } else if eq_str(&k, "ci") {
        Section::Ci
    } else if eq_str(&k, "chore") || eq_str(&k, "style") {
        Section::Chore
    } else {
        Section::Other
    }
}

fn is_lockfile_path_exec(p: &str) -> (r: bool)
    ensures
        r == is_lockfile_path(p@),
{
    match file_name_of(p) {
        Some(n) => {
            let v = chars_of(n.as_str());
            eq_str(&v, "Cargo.lock") || eq_str(&v, "package-lock.json") || eq_str(&v, "yarn.lock")
                || eq_str(&v, "pnpm-lock.yaml") || eq_str(&v, "go.sum") || eq_str(
                &v,
                "Pipfile.lock",
            ) || eq_str(&v, "poetry.lock") || eq_str(&v, "uv.lock") || eq_str(&v, "composer.lock")
                || eq_str(&v, "Gemfile.lock")
        },
        None => false,
    }
}

fn is_root_markdown_exec(p: &str) -> (r: bool)
    ensures
        r == is_root_markdown(p@),
{
    let v = chars_of(p);
    !contains_char_exec(&v, '/') && ends_with_exec(&v, &chars_of(".md"))
}

/// Which pattern every file fits: 0 lockfiles, 1 `docs/`, 2 workflows,
/// 3 top-level Markdown; each flag says whether all files fit it.
fn all_fit(files: &Vec<String>) -> (r: (bool, bool, bool, bool))
    ensures
        r.0 == forall|i: int|
            0 <= i < files@.len() ==> is_lockfile_path(#[trigger] string_views(files@)[i]),
        r.1 == forall|i: int|
            0 <= i < files@.len() ==> starts_with(#[trigger] string_views(files@)[i], "docs/"@),
        r.2 == forall|i: int|
            0 <= i < files@.len() ==> starts_with(
                #[trigger] string_views(files@)[i],
                ".github/workflows/"@,
            ),
        r.3 == forall|i: int|
            0 <= i < files@.len() ==> is_root_markdown(#[trigger] string_views(files@)[i]),
{
    let ghost fs = string_views(files@);
    let docs = chars_of("docs/");
    let wf = chars_of(".github/workflows/");
    let mut a = true;
    let mut b = true;
    let mut c = true;
    let mut d = true;
    let mut i: usize = 0;
    while i < files.len()
        invariant
            i <= files@.len(),
            fs == string_views(files@),
            docs@ == "docs/"@,
            wf@ == ".github/workflows/"@,
            a == forall|j: int| 0 <= j < i ==> is_lockfile_path(#[trigger] fs[j]),
            b == forall|j: int| 0 <= j < i ==> starts_with(#[trigger] fs[j], "docs/"@),
            c == forall|j: int| 0 <= j < i ==> starts_with(#[trigger] fs[j], ".github/workflows/"@),
            d == forall|j: int| 0 <= j < i ==> is_root_markdown(#[trigger] fs[j]),
        decreases files@.len() - i,
    {
        let f = files[i].as_str();
        let v = chars_of(f);
        proof {
            assert(fs[i as int] == files@[i as int]@);
        }
        let fa = is_lockfile_path_exec(f);
        let fb = starts_with_exec(&v, &docs);
        let fc = starts_with_exec(&v, &wf);
        let fd = is_root_markdown_exec(f);
        proof {
            assert((a && fa) == forall|j: int| 0 <= j < i + 1 ==> is_lockfile_path(#[trigger] fs[j]));
            assert((b && fb) == forall|j: int| 0 <= j < i + 1 ==> starts_with(#[trigger] fs[j], "docs/"@));
            assert((c && fc) == forall|j: int|
                0 <= j < i + 1 ==> starts_with(#[trigger] fs[j], ".github/workflows/"@));
            assert((d && fd) == forall|j: int| 0 <= j < i + 1 ==> is_root_markdown(#[trigger] fs[j]));
        }
        a = a && fa;
        b = b && fb;
        c = c && fc;
        d = d && fd;
        i = i + 1;
    }
    (a, b, c, d)
}

fn files_heuristic(section: Section, summary: &String, reason: &str) -> (r: Classification)
    ensures
        r.section == section,
        r.summary@ == summary@,
        r.source matches ClassificationSource::FilesHeuristic { reason: x } && x@ == reason@,
        r.confidence == CONFIDENCE_FULL,
{
    Classification {
        section,
        summary: summary.clone(),
        source: ClassificationSource::FilesHeuristic { reason: String::from_str(reason) },
        confidence: CONFIDENCE_FULL,
    }
}

/// Placement from the files alone, when every file fits one pattern.
pub fn classify_files_only(commit: &Commit) -> (r: Option<Classification>)
    ensures
        match (r, files_rule(string_views(commit.files@))) {
            (Some(c), Some((s, reason))) => c.section == s && c.summary@ == commit.subject@
                && (c.source matches ClassificationSource::FilesHeuristic { reason: x } && x@ == reason)
                && c.confidence == CONFIDENCE_FULL,
            (None, None) => true,
            _ => false,
        },
{
    if commit.files.len() == 0 {
        return None;
    }
    let (a, b, c, d) = all_fit(&commit.files);
    proof {
        reveal_strlit("files-only-lockfiles");
    }
    if a {
        Some(files_heuristic(Section::Chore, &commit.subject, "files-only-lockfiles"))
    } else if b {
        Some(files_heuristic(Section::Documentation, &commit.subject, "files-only-docs-dir"))
    } else if c {
        Some(files_heuristic(Section::Ci, &commit.subject, "files-only-workflows"))
    } else if d {
        Some(files_heuristic(Section::Documentation, &commit.subject, "files-only-root-markdown"))
    } else {
        None
    }
}

/// Placement from the Conventional Commits header, when there is one.
pub fn classify_conventional(commit: &Commit) -> (r: Option<Classification>)
    ensures
        match commit.conventional {
            Some(conv) => r matches Some(c) && c.section == (if commit.breaking || conv.breaking {
                Section::Breaking
            } else {
                kind_section(conv.kind@)
            }) && c.summary@ == conv.description@ && c.source is Conventional && c.confidence
                == CONFIDENCE_FULL,
            None => r is None,
        },
{
    match &commit.conventional {
        Some(conv) => {
            let section = if commit.breaking || conv.breaking {
                Section::Breaking
            } else {
                section_from_kind(conv.kind.as_str())
            };
            Some(
                Classification {
                    section,
                    summary: conv.description.clone(),
                    source: ClassificationSource::Conventional,
                    confidence: CONFIDENCE_FULL,
                },
            )
        },
        None => None,
    }
}

/// Tier 0 placement of one commit.
pub fn classify_one(entry: &EnrichedCommit) -> (r: ClassifiedCommit)
    ensures
        r.commit.same_as(entry.commit),
        same_opt_pr(r.pr, entry.pr),
        tier0_of(r.classification, entry.commit),
{
    let classification = match classify_conventional(&entry.commit) {
        Some(c) => c,
        None => match classify_files_only(&entry.commit) {
            Some(c) => c,
            None => Classification {
                section: Section::Other,
                summary: entry.commit.subject.clone(),
                source: ClassificationSource::Default,
                confidence: FALLBACK_CONFIDENCE,
            },
        },
    };
    ClassifiedCommit {
        commit: entry.commit.clone(),
        pr: match &entry.pr {
            Some(p) => Some(p.clone()),
            None => None,
        },
        classification,
    }
}

/// Run Tier 0 over the commits, keeping their order.
pub fn classify(commits: &[EnrichedCommit]) -> (r: Classified)
    ensures
        r.0@.len() == commits@.len(),
        forall|i: int|
            0 <= i < commits@.len() ==> {
                &&& (#[trigger] r.0@[i]).commit.same_as(commits@[i].commit)
                &&& same_opt_pr(r.0@[i].pr, commits@[i].pr)
                &&& tier0_of(r.0@[i].classification, commits@[i].commit)
            },
{
    let mut out: Vec<ClassifiedCommit> = Vec::new();
    let mut i: usize = 0;
    while i < commits.len()
        invariant
            i <= commits@.len(),
            out@.len() == i,
            forall|j: int|
                0 <= j < i ==> {
                    &&& (#[trigger] out@[j]).commit.same_as(commits@[j].commit)
                    &&& same_opt_pr(out@[j].pr, commits@[j].pr)
                    &&& tier0_of(out@[j].classification, commits@[j].commit)
                },
        decreases commits@.len() - i,
    {
        out.push(classify_one(&commits[i]));
        i = i + 1;
    }
    Classified::new(out)
}

} // verus!
