//! Classification of commits into release-notes sections.

use vstd::prelude::*;

use crate::models::{clone_strings, Commit, EnrichedCommit, PrInfo};
use crate::text::{ascii_lower, ascii_lower_exec, chars_of, eq_str, trim, trim_range};

verus! {

/// Confidence is kept in thousandths: this value means certain.
pub const CONFIDENCE_FULL: u32 = 1000;

/// Sections of the rendered notes, in display order.
#[derive(Debug, Clone, Copy, PartialEq, Eq, Hash, PartialOrd, Ord, Structural)]
pub enum Section {
    /// Breaking changes; supersedes the kind-based section.
    Breaking,
    Features,
    BugFixes,
    Performance,
    Refactor,
    Documentation,
    Tests,
    Build,
    Ci,
    Chore,
    /// Catch-all for commits that couldn't be placed.
    Other,
}

/// Section named by a (trimmed, lowercased) label, with the synonyms a
/// model tends to produce.
pub open spec fn section_named(n: Seq<char>) -> Option<Section> {
    if n == "breaking"@ || n == "breaking-changes"@ || n == "breaking changes"@ {
        Some(Section::Breaking)
    } else if n == "features"@ || n == "feature"@ || n == "feat"@ {
        Some(Section::Features)
    } else if n == "bug-fixes"@ || n == "bug_fixes"@ || n == "bug fixes"@ || n == "fix"@ || n
        == "fixes"@ {
        Some(Section::BugFixes)
    } else if n == "performance"@ || n == "perf"@ {
        Some(Section::Performance)
    } else if n == "refactor"@ || n == "refactoring"@ {
        Some(Section::Refactor)
    } else if n == "documentation"@ || n == "docs"@ || n == "doc"@ {
        Some(Section::Documentation)
    } else if n == "tests"@ || n == "test"@ {
        Some(Section::Tests)
    } else if n == "build"@ {
        Some(Section::Build)
    } else if n == "ci"@ {
        Some(Section::Ci)
    } else if n == "chore"@ {
        Some(Section::Chore)
    } else if n == "other"@ {
        Some(Section::Other)
    } else {
        None
    }
}

pub open spec fn section_header(s: Section) -> Seq<char> {
    match s {
        Section::Breaking => "Breaking Changes"@,
        Section::Features => "Features"@,
        Section::BugFixes => "Bug Fixes"@,
        Section::Performance => "Performance"@,
        Section::Refactor => "Refactoring"@,
        Section::Documentation => "Documentation"@,
        Section::Tests => "Tests"@,
        Section::Build => "Build"@,
        Section::Ci => "CI"@,
        Section::Chore => "Chore"@,
        Section::Other => "Other"@,
    }
}

pub open spec fn section_order(s: Section) -> u8 {
    match s {
        Section::Breaking => 0,
        Section::Features => 1,
        Section::BugFixes => 2,
        Section::Performance => 3,
        Section::Refactor => 4,
        Section::Documentation => 5,
        Section::Tests => 6,
        Section::Build => 7,
        Section::Ci => 8,
        Section::Chore => 9,
        Section::Other => 10,
    }
}

/// Section whose display position is `k`.
pub open spec fn section_at(k: int) -> Section {
    if k == 0 {
        Section::Breaking
    } else if k == 1 {
        Section::Features
    } else if k == 2 {
        Section::BugFixes
    } else if k == 3 {
        Section::Performance
    } else if k == 4 {
        Section::Refactor
    } else if k == 5 {
        Section::Documentation
    } else if k == 6 {
        Section::Tests
    } else if k == 7 {
        Section::Build
    } else if k == 8 {
        Section::Ci
    } else if k == 9 {
        Section::Chore
    } else {
        Section::Other
    }
}

/// Number of sections.
pub const SECTION_COUNT: u8 = 11;

impl Section {
    /// Parse a lenient section name from model output: surrounding
    /// whitespace and ASCII case are ignored, common synonyms accepted.
    pub fn parse_lenient(raw: &str) -> (r: Option<Section>)
        ensures
            r == section_named(ascii_lower(trim(raw@))),
    {
        let v = chars_of(raw);
        let (lo, hi) = trim_range(&v);
        let mut t: Vec<char> = Vec::new();
        let mut i = lo;
        while i < hi
            invariant
                lo <= i <= hi <= v@.len(),
                t@ == v@.subrange(lo as int, i as int),
            decreases hi - i,
        {
            t.push(v[i]);
            i = i + 1;
            proof {
                assert(t@ =~= v@.subrange(lo as int, i as int));
            }
        }
        let n = ascii_lower_exec(&t);
        if eq_str(&n, "breaking") || eq_str(&n, "breaking-changes") || eq_str(&n, "breaking changes") {
            Some(Section::Breaking)
        } else if eq_str(&n, "features") || eq_str(&n, "feature") || eq_str(&n, "feat") {
            Some(Section::Features)
        } else if eq_str(&n, "bug-fixes") || eq_str(&n, "bug_fixes") || eq_str(&n, "bug fixes")
            || eq_str(&n, "fix") || eq_str(&n, "fixes") {
            Some(Section::BugFixes)
        } else if eq_str(&n, "performance") || eq_str(&n, "perf") {
            Some(Section::Performance)
        } else if eq_str(&n, "refactor") || eq_str(&n, "refactoring") {
            Some(Section::Refactor)
        } else if eq_str(&n, "documentation") || eq_str(&n, "docs") || eq_str(&n, "doc") {
            Some(Section::Documentation)
        } else if eq_str(&n, "tests") || eq_str(&n, "test") {
            Some(Section::Tests)
        } else if eq_str(&n, "build") {
            Some(Section::Build)
        } else if eq_str(&n, "ci") {
            Some(Section::Ci)
        } else if eq_str(&n, "chore") {
            Some(Section::Chore)
        } else if eq_str(&n, "other") {
            Some(Section::Other)
        } else {
            None
        }
    }

    /// Markdown section header.
    pub fn header(self) -> (r: &'static str)
        ensures
            r@ == section_header(self),
    {
        match self {
            Section::Breaking => "Breaking Changes",
            Section::Features => "Features",
            Section::BugFixes => "Bug Fixes",
            Section::Performance => "Performance",
            Section::Refactor => "Refactoring",
            Section::Documentation => "Documentation",
            Section::Tests => "Tests",
            Section::Build => "Build",
            Section::Ci => "CI",
            Section::Chore => "Chore",
            Section::Other => "Other",
        }
    }

    /// Stable ordering key; lower comes first.
    pub fn order_index(self) -> (r: u8)
        ensures
            r == section_order(self),
            r < SECTION_COUNT,
            section_at(r as int) == self,
    {
        match self {
            Section::Breaking => 0,
            Section::Features => 1,
            Section::BugFixes => 2,
            Section::Performance => 3,
            Section::Refactor => 4,
            Section::Documentation => 5,
            Section::Tests => 6,
            Section::Build => 7,
            Section::Ci => 8,
            Section::Chore => 9,
            Section::Other => 10,
        }
    }

    /// The section at display position `k`.
    pub fn at(k: u8) -> (r: Section)
        requires
            k < SECTION_COUNT,
        ensures
            r == section_at(k as int),
            section_order(r) == k,
    {
        if k == 0 {
            Section::Breaking
        } else if k == 1 {
            Section::Features
        } else if k == 2 {
            Section::BugFixes
        } else if k == 3 {
            Section::Performance
        } else if k == 4 {
            Section::Refactor
        } else if k == 5 {
            Section::Documentation
        } else if k == 6 {
            Section::Tests
        } else if k == 7 {
            Section::Build
        } else if k == 8 {
            Section::Ci
        } else if k == 9 {
            Section::Chore
        } else {
            Section::Other
        }
    }

    /// Kebab-case name (`bug-fixes`).
    pub fn as_str(self) -> (r: &'static str)
        ensures
            r@ == section_name(self),
    {
        match self {
            Section::Breaking => "breaking",
            Section::Features => "features",
            Section::BugFixes => "bug-fixes",
            Section::Performance => "performance",
            Section::Refactor => "refactor",
            Section::Documentation => "documentation",
            Section::Tests => "tests",
            Section::Build => "build",
            Section::Ci => "ci",
            Section::Chore => "chore",
            Section::Other => "other",
        }
    }
}

/// Kebab-case name of a section.
pub open spec fn section_name(s: Section) -> Seq<char> {
    match s {
        Section::Breaking => "breaking"@,
        Section::Features => "features"@,
        Section::BugFixes => "bug-fixes"@,
        Section::Performance => "performance"@,
        Section::Refactor => "refactor"@,
        Section::Documentation => "documentation"@,
        Section::Tests => "tests"@,
        Section::Build => "build"@,
        Section::Ci => "ci"@,
        Section::Chore => "chore"@,
        Section::Other => "other"@,
    }
}

/// The section reader ignores surrounding whitespace and ASCII case: a
/// text reads as what its trimmed, lower-cased form reads as; and every
/// section's kebab-case name reads back, through the whole reader, as
/// that section.
pub proof fn lemma_section_reader_normalises(raw: Seq<char>, s: Section)
    ensures
        section_named(ascii_lower(trim(ascii_lower(trim(raw))))) == section_named(ascii_lower(trim(raw))),
        section_named(ascii_lower(trim(section_name(s)))) == Some(s),
{
    crate::text::lemma_lower_trim_normal(raw);
    lemma_section_name_round_trip(s);
    let n = section_name(s);
    match s {
        Section::Breaking => { reveal_strlit("breaking"); },
        Section::Features => { reveal_strlit("features"); },
        Section::BugFixes => { reveal_strlit("bug-fixes"); },
        Section::Performance => { reveal_strlit("performance"); },
        Section::Refactor => { reveal_strlit("refactor"); },
        Section::Documentation => { reveal_strlit("documentation"); },
        Section::Tests => { reveal_strlit("tests"); },
        Section::Build => { reveal_strlit("build"); },
        Section::Ci => { reveal_strlit("ci"); },
        Section::Chore => { reveal_strlit("chore"); },
        Section::Other => { reveal_strlit("other"); },
    }
    assert(crate::text::all_plain(n)) by {
        reveal_with_fuel(crate::text::all_plain, 14);
    }
    crate::text::lemma_lower_trim_fixed(n);
}

/// The kebab-case name of every section reads back as that section.
pub proof fn lemma_section_name_round_trip(s: Section)
    ensures
        section_named(section_name(s)) == Some(s),
{
    match s {
        Section::Breaking => {
            reveal_strlit("breaking");
        },
        Section::Features => {
            reveal_strlit("features");
            reveal_strlit("breaking");
            assert("features"@[0] != "breaking"@[0]);
            reveal_strlit("breaking-changes");
            assert("features"@.len() != "breaking-changes"@.len());
            reveal_strlit("breaking changes");
            assert("features"@.len() != "breaking changes"@.len());
        },
        Section::BugFixes => {
            reveal_strlit("bug-fixes");
            reveal_strlit("breaking");
            assert("bug-fixes"@.len() != "breaking"@.len());
            reveal_strlit("breaking-changes");
            assert("bug-fixes"@.len() != "breaking-changes"@.len());
            reveal_strlit("breaking changes");
            assert("bug-fixes"@.len() != "breaking changes"@.len());
            reveal_strlit("features");
            assert("bug-fixes"@.len() != "features"@.len());
            reveal_strlit("feature");
            assert("bug-fixes"@.len() != "feature"@.len());
            reveal_strlit("feat");
            assert("bug-fixes"@.len() != "feat"@.len());
        },
        Section::Performance => {
            reveal_strlit("performance");
            reveal_strlit("breaking");
            assert("performance"@.len() != "breaking"@.len());
            reveal_strlit("breaking-changes");
            assert("performance"@.len() != "breaking-changes"@.len());
            reveal_strlit("breaking changes");
            assert("performance"@.len() != "breaking changes"@.len());
            reveal_strlit("features");
            assert("performance"@.len() != "features"@.len());
            reveal_strlit("feature");
            assert("performance"@.len() != "feature"@.len());
            reveal_strlit("feat");
            assert("performance"@.len() != "feat"@.len());
            reveal_strlit("bug-fixes");
            assert("performance"@.len() != "bug-fixes"@.len());
            reveal_strlit("bug_fixes");
            assert("performance"@.len() != "bug_fixes"@.len());
            reveal_strlit("bug fixes");
            assert("performance"@.len() != "bug fixes"@.len());
            reveal_strlit("fix");
            assert("performance"@.len() != "fix"@.len());
            reveal_strlit("fixes");
            assert("performance"@.len() != "fixes"@.len());
        },
        Section::Refactor => {
            reveal_strlit("refactor");
            reveal_strlit("breaking");
            assert("refactor"@[0] != "breaking"@[0]);
            reveal_strlit("breaking-changes");
            assert("refactor"@.len() != "breaking-changes"@.len());
            reveal_strlit("breaking changes");
            assert("refactor"@.len() != "breaking changes"@.len());
            reveal_strlit("features");
            assert("refactor"@[0] != "features"@[0]);
            reveal_strlit("feature");
            assert("refactor"@.len() != "feature"@.len());
            reveal_strlit("feat");
            assert("refactor"@.len() != "feat"@.len());
            reveal_strlit("bug-fixes");
            assert("refactor"@.len() != "bug-fixes"@.len());
            reveal_strlit("bug_fixes");
            assert("refactor"@.len() != "bug_fixes"@.len());
            reveal_strlit("bug fixes");
            assert("refactor"@.len() != "bug fixes"@.len());
            reveal_strlit("fix");
            assert("refactor"@.len() != "fix"@.len());
            reveal_strlit("fixes");
            assert("refactor"@.len() != "fixes"@.len());
            reveal_strlit("performance");
            assert("refactor"@.len() != "performance"@.len());
            reveal_strlit("perf");
            assert("refactor"@.len() != "perf"@.len());
        },
        Section::Documentation => {
            reveal_strlit("documentation");
            reveal_strlit("breaking");
            assert("documentation"@.len() != "breaking"@.len());
            reveal_strlit("breaking-changes");
            assert("documentation"@.len() != "breaking-changes"@.len());
            reveal_strlit("breaking changes");
            assert("documentation"@.len() != "breaking changes"@.len());
            reveal_strlit("features");
            assert("documentation"@.len() != "features"@.len());
            reveal_strlit("feature");
            assert("documentation"@.len() != "feature"@.len());
            reveal_strlit("feat");
            assert("documentation"@.len() != "feat"@.len());
            reveal_strlit("bug-fixes");
            assert("documentation"@.len() != "bug-fixes"@.len());
            reveal_strlit("bug_fixes");
            assert("documentation"@.len() != "bug_fixes"@.len());
            reveal_strlit("bug fixes");
            assert("documentation"@.len() != "bug fixes"@.len());
            reveal_strlit("fix");
            assert("documentation"@.len() != "fix"@.len());
            reveal_strlit("fixes");
            assert("documentation"@.len() != "fixes"@.len());
            reveal_strlit("performance");
            assert("documentation"@.len() != "performance"@.len());
            reveal_strlit("perf");
            assert("documentation"@.len() != "perf"@.len());
            reveal_strlit("refactor");
            assert("documentation"@.len() != "refactor"@.len());
            reveal_strlit("refactoring");
            assert("documentation"@.len() != "refactoring"@.len());
        },
        Section::Tests => {
            reveal_strlit("tests");
            reveal_strlit("breaking");
            assert("tests"@.len() != "breaking"@.len());
            reveal_strlit("breaking-changes");
            assert("tests"@.len() != "breaking-changes"@.len());
            reveal_strlit("breaking changes");
            assert("tests"@.len() != "breaking changes"@.len());
            reveal_strlit("features");
            assert("tests"@.len() != "features"@.len());
            reveal_strlit("feature");
            assert("tests"@.len() != "feature"@.len());
            reveal_strlit("feat");
            assert("tests"@.len() != "feat"@.len());
            reveal_strlit("bug-fixes");
            assert("tests"@.len() != "bug-fixes"@.len());
            reveal_strlit("bug_fixes");
            assert("tests"@.len() != "bug_fixes"@.len());
            reveal_strlit("bug fixes");
            assert("tests"@.len() != "bug fixes"@.len());
            reveal_strlit("fix");
            assert("tests"@.len() != "fix"@.len());
            reveal_strlit("fixes");
            assert("tests"@[0] != "fixes"@[0]);
            reveal_strlit("performance");
            assert("tests"@.len() != "performance"@.len());
            reveal_strlit("perf");
            assert("tests"@.len() != "perf"@.len());
            reveal_strlit("refactor");
            assert("tests"@.len() != "refactor"@.len());
            reveal_strlit("refactoring");
            assert("tests"@.len() != "refactoring"@.len());
            reveal_strlit("documentation");
            assert("tests"@.len() != "documentation"@.len());
            reveal_strlit("docs");
            assert("tests"@.len() != "docs"@.len());
            reveal_strlit("doc");
            assert("tests"@.len() != "doc"@.len());
        },
        Section::Build => {
            reveal_strlit("build");
            reveal_strlit("breaking");
            assert("build"@.len() != "breaking"@.len());
            reveal_strlit("breaking-changes");
            assert("build"@.len() != "breaking-changes"@.len());
            reveal_strlit("breaking changes");
            assert("build"@.len() != "breaking changes"@.len());
            reveal_strlit("features");
            assert("build"@.len() != "features"@.len());
            reveal_strlit("feature");
            assert("build"@.len() != "feature"@.len());
            reveal_strlit("feat");
            assert("build"@.len() != "feat"@.len());
            reveal_strlit("bug-fixes");
            assert("build"@.len() != "bug-fixes"@.len());
            reveal_strlit("bug_fixes");
            assert("build"@.len() != "bug_fixes"@.len());
            reveal_strlit("bug fixes");
            assert("build"@.len() != "bug fixes"@.len());
            reveal_strlit("fix");
            assert("build"@.len() != "fix"@.len());
            reveal_strlit("fixes");
            assert("build"@[0] != "fixes"@[0]);
            reveal_strlit("performance");
            assert("build"@.len() != "performance"@.len());
            reveal_strlit("perf");
            assert("build"@.len() != "perf"@.len());
            reveal_strlit("refactor");
            assert("build"@.len() != "refactor"@.len());
            reveal_strlit("refactoring");
            assert("build"@.len() != "refactoring"@.len());
            reveal_strlit("documentation");
            assert("build"@.len() != "documentation"@.len());
            reveal_strlit("docs");
            assert("build"@.len() != "docs"@.len());
            reveal_strlit("doc");
            assert("build"@.len() != "doc"@.len());
            reveal_strlit("tests");
            assert("build"@[0] != "tests"@[0]);
            reveal_strlit("test");
            assert("build"@.len() != "test"@.len());
        },
        Section::Ci => {
            reveal_strlit("ci");
            reveal_strlit("breaking");
            assert("ci"@.len() != "breaking"@.len());
            reveal_strlit("breaking-changes");
            assert("ci"@.len() != "breaking-changes"@.len());
            reveal_strlit("breaking changes");
            assert("ci"@.len() != "breaking changes"@.len());
            reveal_strlit("features");
            assert("ci"@.len() != "features"@.len());
            reveal_strlit("feature");
            assert("ci"@.len() != "feature"@.len());
            reveal_strlit("feat");
            assert("ci"@.len() != "feat"@.len());
            reveal_strlit("bug-fixes");
            assert("ci"@.len() != "bug-fixes"@.len());
            reveal_strlit("bug_fixes");
            assert("ci"@.len() != "bug_fixes"@.len());
            reveal_strlit("bug fixes");
            assert("ci"@.len() != "bug fixes"@.len());
            reveal_strlit("fix");
            assert("ci"@.len() != "fix"@.len());
            reveal_strlit("fixes");
            assert("ci"@.len() != "fixes"@.len());
            reveal_strlit("performance");
            assert("ci"@.len() != "performance"@.len());
            reveal_strlit("perf");
            assert("ci"@.len() != "perf"@.len());
            reveal_strlit("refactor");
            assert("ci"@.len() != "refactor"@.len());
            reveal_strlit("refactoring");
            assert("ci"@.len() != "refactoring"@.len());
            reveal_strlit("documentation");
            assert("ci"@.len() != "documentation"@.len());
            reveal_strlit("docs");
            assert("ci"@.len() != "docs"@.len());
            reveal_strlit("doc");
            assert("ci"@.len() != "doc"@.len());
            reveal_strlit("tests");
            assert("ci"@.len() != "tests"@.len());
            reveal_strlit("test");
            assert("ci"@.len() != "test"@.len());
            reveal_strlit("build");
            assert("ci"@.len() != "build"@.len());
        },
        Section::Chore => {
            reveal_strlit("chore");
            reveal_strlit("breaking");
            assert("chore"@.len() != "breaking"@.len());
            reveal_strlit("breaking-changes");
            assert("chore"@.len() != "breaking-changes"@.len());
            reveal_strlit("breaking changes");
            assert("chore"@.len() != "breaking changes"@.len());
            reveal_strlit("features");
            assert("chore"@.len() != "features"@.len());
            reveal_strlit("feature");
            assert("chore"@.len() != "feature"@.len());
            reveal_strlit("feat");
            assert("chore"@.len() != "feat"@.len());
            reveal_strlit("bug-fixes");
            assert("chore"@.len() != "bug-fixes"@.len());
            reveal_strlit("bug_fixes");
            assert("chore"@.len() != "bug_fixes"@.len());
            reveal_strlit("bug fixes");
            assert("chore"@.len() != "bug fixes"@.len());
            reveal_strlit("fix");
            assert("chore"@.len() != "fix"@.len());
            reveal_strlit("fixes");
            assert("chore"@[0] != "fixes"@[0]);
            reveal_strlit("performance");
            assert("chore"@.len() != "performance"@.len());
            reveal_strlit("perf");
            assert("chore"@.len() != "perf"@.len());
            reveal_strlit("refactor");
            assert("chore"@.len() != "refactor"@.len());
            reveal_strlit("refactoring");
            assert("chore"@.len() != "refactoring"@.len());
            reveal_strlit("documentation");
            assert("chore"@.len() != "documentation"@.len());
            reveal_strlit("docs");
            assert("chore"@.len() != "docs"@.len());
            reveal_strlit("doc");
            assert("chore"@.len() != "doc"@.len());
            reveal_strlit("tests");
            assert("chore"@[0] != "tests"@[0]);
            reveal_strlit("test");
            assert("chore"@.len() != "test"@.len());
            reveal_strlit("build");
            assert("chore"@[0] != "build"@[0]);
            reveal_strlit("ci");
            assert("chore"@.len() != "ci"@.len());
        },
        Section::Other => {
            reveal_strlit("other");
            reveal_strlit("breaking");
            assert("other"@.len() != "breaking"@.len());
            reveal_strlit("breaking-changes");
            assert("other"@.len() != "breaking-changes"@.len());
            reveal_strlit("breaking changes");
            assert("other"@.len() != "breaking changes"@.len());
            reveal_strlit("features");
            assert("other"@.len() != "features"@.len());
            reveal_strlit("feature");
            assert("other"@.len() != "feature"@.len());
            reveal_strlit("feat");
            assert("other"@.len() != "feat"@.len());
            reveal_strlit("bug-fixes");
            assert("other"@.len() != "bug-fixes"@.len());
            reveal_strlit("bug_fixes");
            assert("other"@.len() != "bug_fixes"@.len());
            reveal_strlit("bug fixes");
            assert("other"@.len() != "bug fixes"@.len());
            reveal_strlit("fix");
            assert("other"@.len() != "fix"@.len());
            reveal_strlit("fixes");
            assert("other"@[0] != "fixes"@[0]);
            reveal_strlit("performance");
            assert("other"@.len() != "performance"@.len());
            reveal_strlit("perf");
            assert("other"@.len() != "perf"@.len());
            reveal_strlit("refactor");
            assert("other"@.len() != "refactor"@.len());
            reveal_strlit("refactoring");
            assert("other"@.len() != "refactoring"@.len());
            reveal_strlit("documentation");
            assert("other"@.len() != "documentation"@.len());
            reveal_strlit("docs");
            assert("other"@.len() != "docs"@.len());
            reveal_strlit("doc");
            assert("other"@.len() != "doc"@.len());
            reveal_strlit("tests");
            assert("other"@[0] != "tests"@[0]);
            reveal_strlit("test");
            assert("other"@.len() != "test"@.len());
            reveal_strlit("build");
            assert("other"@[0] != "build"@[0]);
            reveal_strlit("ci");
            assert("other"@.len() != "ci"@.len());
            reveal_strlit("chore");
            assert("other"@[0] != "chore"@[0]);
        },
    }
}

/// Why a classification was chosen.
#[derive(Debug, PartialEq, Eq)]
pub enum ClassificationSource {
    /// Subject matched the Conventional Commits header.
    Conventional,
    /// Files-only heuristic (only lockfiles, only `docs/`, …).
    FilesHeuristic { reason: String },
    /// No signal matched.
    Default,
    /// Batched LLM pass.
    BatchedLlm,
    /// Per-commit LLM pass with the diff.
    PerCommitLlm,
    /// Agent loop with repository tools.
    Agentic,
}

impl Clone for ClassificationSource {
    fn clone(&self) -> (r: Self)
        ensures
            r == *self,
    {
        match self {
            ClassificationSource::Conventional => ClassificationSource::Conventional,
            ClassificationSource::FilesHeuristic { reason } => ClassificationSource::FilesHeuristic {
                reason: reason.clone(),
            },
            ClassificationSource::Default => ClassificationSource::Default,
            ClassificationSource::BatchedLlm => ClassificationSource::BatchedLlm,
            ClassificationSource::PerCommitLlm => ClassificationSource::PerCommitLlm,
            ClassificationSource::Agentic => ClassificationSource::Agentic,
        }
    }
}

impl ClassificationSource {
    /// Whether this classification came from an LLM tier.
    pub fn is_llm_derived(&self) -> (r: bool)
        ensures
            r == (self is BatchedLlm || self is PerCommitLlm || self is Agentic),
    {
        match self {
            ClassificationSource::BatchedLlm | ClassificationSource::PerCommitLlm
            | ClassificationSource::Agentic => true,
            _ => false,
        }
    }
}

/// One commit's classification.
#[derive(Debug, PartialEq, Eq)]
pub struct Classification {
    pub section: Section,
    /// One-line summary used in rendered output.
    pub summary: String,
    pub source: ClassificationSource,
    /// In thousandths, `0..=CONFIDENCE_FULL`.
    pub confidence: u32,
}

impl Clone for Classification {
    fn clone(&self) -> (r: Self)
        ensures
            r == *self,
    {
        Classification {
            section: self.section,
            summary: self.summary.clone(),
            source: self.source.clone(),
            confidence: self.confidence,
        }
    }
}

/// A commit, its classification and any PR enrichment.
#[derive(Debug, PartialEq, Eq)]
pub struct ClassifiedCommit {
    pub commit: Commit,
    pub pr: Option<PrInfo>,
    pub classification: Classification,
}

impl Clone for ClassifiedCommit {
    fn clone(&self) -> (r: Self)
        ensures
            r.commit.same_as(self.commit),
            super::pr::same_opt_pr(r.pr, self.pr),
            r.classification == self.classification,
    {
        ClassifiedCommit {
            commit: self.commit.clone(),
            pr: match &self.pr {
                Some(p) => Some(p.clone()),
                None => None,
            },
            classification: self.classification.clone(),
        }
    }
}

impl ClassifiedCommit {
    pub fn from_enriched(enriched: EnrichedCommit, classification: Classification) -> (r: Self)
        ensures
            r.commit == enriched.commit,
            r.pr == enriched.pr,
            r.classification == classification,
    {
        ClassifiedCommit { commit: enriched.commit, pr: enriched.pr, classification }
    }
}

/// The entries of `e` placed in section `s`, in input order.
pub open spec fn entries_in(e: Seq<ClassifiedCommit>, s: Section) -> Seq<ClassifiedCommit> {
    e.filter(in_section(s))
}

/// Whether an entry is placed in section `s`.
pub open spec fn in_section(s: Section) -> spec_fn(ClassifiedCommit) -> bool {
    |c: ClassifiedCommit| c.classification.section == s
}

/// Grouping of `e` by section: one group per section that has entries,
/// groups in display order, each group in input order.
pub open spec fn grouped(e: Seq<ClassifiedCommit>) -> Seq<(Section, Seq<ClassifiedCommit>)> {
    grouped_upto(e, SECTION_COUNT as int)
}

pub open spec fn grouped_upto(e: Seq<ClassifiedCommit>, k: int) -> Seq<(Section, Seq<ClassifiedCommit>)>
    decreases k,
{
    if k <= 0 {
        seq![]
    } else {
        let prev = grouped_upto(e, k - 1);
        let g = entries_in(e, section_at(k - 1));
        if g.len() > 0 {
            prev.push((section_at(k - 1), g))
        } else {
            prev
        }
    }
}

/// The entries behind a sequence of borrows.
pub open spec fn derefs(v: Seq<&ClassifiedCommit>) -> Seq<ClassifiedCommit> {
    v.map_values(|c: &ClassifiedCommit| *c)
}

/// All commits in a range, paired with classifications.
#[derive(Debug, Clone, Default, PartialEq, Eq)]
pub struct Classified(pub Vec<ClassifiedCommit>);

impl Classified {
    pub fn new(items: Vec<ClassifiedCommit>) -> (r: Self)
        ensures
            r.0@ == items@,
    {
        Classified(items)
    }

    pub fn len(&self) -> (r: usize)
        ensures
            r == self.0@.len(),
    {
        self.0.len()
    }

    pub fn is_empty(&self) -> (r: bool)
        ensures
            r == (self.0@.len() == 0),
    {
        self.0.len() == 0
    }

    /// Entries in input order.
    pub fn entries(&self) -> (r: &Vec<ClassifiedCommit>)
        ensures
            r@ == self.0@,
    {
        &self.0
    }

    /// Group entries by section: sections in display order, only those
    /// that have entries, each group in input order.
    pub fn group_by_section(&self) -> (r: Vec<(Section, Vec<&ClassifiedCommit>)>)
        ensures
            r@.len() == grouped(self.0@).len(),
            forall|k: int|
                0 <= k < r@.len() ==> #[trigger] r@[k].0 == grouped(self.0@)[k].0 && derefs(r@[k].1@)
                    == grouped(self.0@)[k].1,
    {
        let ghost e = self.0@;
        let mut out: Vec<(Section, Vec<&ClassifiedCommit>)> = Vec::new();
        let mut k: u8 = 0;
        while k < SECTION_COUNT
            invariant
                e == self.0@,
                k <= SECTION_COUNT,
                out@.len() == grouped_upto(e, k as int).len(),
                forall|j: int|
                    0 <= j < out@.len() ==> #[trigger] out@[j].0 == grouped_upto(e, k as int)[j].0
                        && derefs(out@[j].1@) == grouped_upto(e, k as int)[j].1,
            decreases SECTION_COUNT - k,
        {
            let s = Section::at(k);
            let mut g: Vec<&ClassifiedCommit> = Vec::new();
            let mut i: usize = 0;
            while i < self.0.len()
                invariant
                    e == self.0@,
                    i <= e.len(),
                    derefs(g@) == e.take(i as int).filter(in_section(s)),
                decreases e.len() - i,
            {
                let c = &self.0[i];
                proof {
                    assert(e.take(i + 1).drop_last() =~= e.take(i as int));
                    reveal(Seq::filter);
                }
                let ghost g0 = g@;
                if c.classification.section == s {
                    g.push(c);
                    proof {
                        assert(derefs(g@) =~= derefs(g0).push(*c));
                    }
                }
                i = i + 1;
            }
            proof {
                assert(e.take(e.len() as int) =~= e);
            }
            if g.len() > 0 {
                out.push((s, g));
            }
            k = k + 1;
        }
        out
    }
}

} // verus!
