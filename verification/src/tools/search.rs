//! `search_text`: what the walk over the repository keeps of each file.
//!
//! Patterns are compiled and matched by the `regex` crate, path filters
//! by `globset`; the walk itself (reading directories and files) is done
//! by the caller, which hands each file's text to [`search_lines`].

use vstd::prelude::*;

use super::files::Match;
use super::{components, components_exec, has_segment, ToolError};
use crate::split::{lines, lines_exec};
use crate::text::{push_str, string_of, views};

verus! {

/// Matches reported at most.
pub const MAX_MATCHES: usize = 50;

/// Files larger than this are skipped, in bytes.
pub const MAX_FILE_BYTES: u64 = 1048576;

/// Characters of a matching line reported.
pub const LINE_PREVIEW: usize = 300;

#[verifier::external_type_specification]
#[verifier::external_body]
pub struct ExRegex(regex::Regex);

#[verifier::external_type_specification]
#[verifier::external_body]
pub struct ExGlobSet(globset::GlobSet);

/// Whether the regular expression `pattern` matches somewhere in `line`.
pub uninterp spec fn regex_matches(pattern: Seq<char>, line: Seq<char>) -> bool;

/// The message of the error compiling `pattern`, or `None` when it
/// compiles.
pub uninterp spec fn regex_error(pattern: Seq<char>) -> Option<Seq<char>>;

/// `regex::Regex::new`. The contract names the outcome: whether the
/// pattern compiles, and the error's message when it does not.
#[verifier::external_body]
fn compile_regex(pattern: &str) -> (r: Result<regex::Regex, String>)
    ensures
        match r {
            Ok(_) => regex_error(pattern@) is None,
            Err(m) => regex_error(pattern@) == Some(m@),
        },
{
    regex::Regex::new(pattern).map_err(|e| e.to_string())
}

/// A compiled search pattern and its text.
pub struct Pattern {
    text: String,
    re: regex::Regex,
}

impl Pattern {
    /// The text the pattern was compiled from.
    pub closed spec fn text(&self) -> Seq<char> {
        self.text@
    }

    /// Compile a search pattern; an invalid one is `InvalidArgs` naming
    /// the pattern and the compiler's message.
    pub fn new(pattern: &str) -> (r: Result<Pattern, ToolError>)
        ensures
            match regex_error(pattern@) {
                None => r matches Ok(p) && p.text() == pattern@,
                Some(m) => r matches Err(ToolError::InvalidArgs(msg)) && msg@ == "invalid regex `"@ + pattern@
                    + "`: "@ + m,
            },
    {
        match compile_regex(pattern) {
            Ok(re) => Ok(Pattern { text: String::from_str(pattern), re }),
            Err(m) => {
                let mut msg = String::from_str("invalid regex `");
                push_str(&mut msg, pattern);
                push_str(&mut msg, "`: ");
                push_str(&mut msg, m.as_str());
                Err(ToolError::InvalidArgs(msg))
            },
        }
    }
}

/// `regex::Regex::is_match` of the pattern's compiled form on a line.
#[verifier::external_body]
fn pattern_matches(p: &Pattern, line: &str) -> (r: bool)
    ensures
        r == regex_matches(p.text(), line@),
{
    p.re.is_match(line)
}

/// Whether the glob `glob` matches the relative path `path`.
pub uninterp spec fn glob_matches(glob: Seq<char>, path: Seq<char>) -> bool;

/// The message of the error parsing `glob` or building its matcher, or
/// `None` when both succeed.
pub uninterp spec fn glob_error(glob: Seq<char>) -> Option<Seq<char>>;

/// Longest glob (in characters) that [`PathFilter::new`] takes.
pub const MAX_GLOB_CHARS: usize = 0x1000_0000;

/// Most `{` characters a glob that [`PathFilter::new`] compiles may hold.
/// Alternation groups deeper than this are refused by the regex build
/// anyway.
pub const MAX_GLOB_NESTING: usize = 250;

/// Number of `{` characters in `s`.
pub open spec fn open_braces(s: Seq<char>) -> nat
    decreases s.len(),
{
    if s.len() == 0 {
        0
    } else {
        open_braces(s.drop_last()) + if s.last() == '{' { 1nat } else { 0nat }
    }
}

/// [`open_braces`], executable.
pub fn count_open_braces(s: &str) -> (r: usize)
    ensures
        r == open_braces(s@),
{
    let v = crate::text::chars_of(s);
    let mut n: usize = 0;
    let mut i: usize = 0;
    while i < v.len()
        invariant
            i <= v@.len(),
            v@ == s@,
            n == open_braces(v@.take(i as int)),
            n <= i,
        decreases v@.len() - i,
    {
        proof {
            assert(v@.take(i + 1).drop_last() =~= v@.take(i as int));
        }
        if v[i] == '{' {
            n = n + 1;
        }
        i = i + 1;
    }
    proof {
        assert(v@.take(v@.len() as int) =~= v@);
    }
    n
}

/// `globset::Glob::new(glob)`, then a `globset::GlobSetBuilder` holding
/// that one glob and its fallible `build`; the contract names the outcome.
/// What the source shows of failures: the regex build reports its nesting
/// and size limits as errors; the build unwraps the construction of an
/// Aho-Corasick automaton for the glob's literal parts, which fails only
/// past about 2^31 automaton states (the length bound keeps every glob far
/// below that); parsing and translating nested `{...}` groups recurse once
/// per level with no limit, so deep nesting would exhaust the stack (the
/// bound on `{` characters keeps the depth at most 250).
#[verifier::external_body]
fn compile_glob(glob: &str) -> (r: Result<globset::GlobSet, String>)
    requires
        glob@.len() <= MAX_GLOB_CHARS,
        open_braces(glob@) <= MAX_GLOB_NESTING,
    ensures
        match r {
            Ok(_) => glob_error(glob@) is None,
            Err(m) => glob_error(glob@) == Some(m@),
        },
{
    let g = globset::Glob::new(glob).map_err(|e| e.to_string())?;
    globset::GlobSetBuilder::new().add(g).build().map_err(|e| e.to_string())
}

/// A compiled path filter and its text.
pub struct PathFilter {
    text: String,
    matcher: globset::GlobSet,
}

impl PathFilter {
    pub closed spec fn text(&self) -> Seq<char> {
        self.text@
    }

    /// Compile a path filter. An empty glob means no filter (`Ok(None)`);
    /// one with more than [`MAX_GLOB_NESTING`] `{` characters, or an
    /// invalid one, is `InvalidArgs`.
    pub fn new(glob: Option<&str>) -> (r: Result<Option<PathFilter>, ToolError>)
        requires
            glob matches Some(g) ==> g@.len() <= MAX_GLOB_CHARS,
        ensures
            match glob {
                None => r matches Ok(None),
                Some(g) => if g@.len() == 0 {
                    r matches Ok(None)
                } else if open_braces(g@) > MAX_GLOB_NESTING {
                    r matches Err(ToolError::InvalidArgs(msg)) && msg@
                        == "invalid path_glob: more than 250 `{` characters"@
                } else {
                    match glob_error(g@) {
                        None => r matches Ok(Some(f)) && f.text() == g@,
                        Some(m) => r matches Err(ToolError::InvalidArgs(msg)) && msg@ == "invalid path_glob: "@ + m,
                    }
                },
            },
    {
        match glob {
            None => Ok(None),
            Some(g) => {
                if g.is_empty() {
                    return Ok(None);
                }
                if count_open_braces(g) > MAX_GLOB_NESTING {
                    return Err(
                        ToolError::InvalidArgs(String::from_str("invalid path_glob: more than 250 `{` characters")),
                    );
                }
                match compile_glob(g) {
                    Ok(matcher) => Ok(Some(PathFilter { text: String::from_str(g), matcher })),
                    Err(m) => {
                        let mut msg = String::from_str("invalid path_glob: ");
                        push_str(&mut msg, m.as_str());
                        Err(ToolError::InvalidArgs(msg))
                    },
                }
            },
        }
    }

    /// Whether a relative path passes the filter.
    pub fn allows(&self, path: &str) -> (r: bool)
        ensures
            r == glob_matches(self.text(), path@),
    {
        glob_allows(self, path)
    }
}

/// `globset::GlobSet::is_match` (true when the set's one glob matches)
/// on a relative path.
#[verifier::external_body]
fn glob_allows(f: &PathFilter, path: &str) -> (r: bool)
    ensures
        r == glob_matches(f.text(), path@),
{
    f.matcher.is_match(path)
}

/// Whether the walk searches a file at the relative path `rel`: nothing
/// inside `.git`, only paths the filter (when there is one) matches, and
/// nothing over [`MAX_FILE_BYTES`] when the size is known.
pub open spec fn file_searched(filter: Option<Seq<char>>, rel: Seq<char>, size: Option<u64>) -> bool {
    &&& !components(rel).contains(".git"@)
    &&& match filter {
        None => true,
        Some(g) => glob_matches(g, rel),
    }
    &&& match size {
        None => true,
        Some(n) => n <= MAX_FILE_BYTES,
    }
}

/// [`file_searched`], executable.
pub fn searches_file(filter: &Option<PathFilter>, rel: &str, size: Option<u64>) -> (r: bool)
    ensures
        r == file_searched(
            match filter {
                None => None,
                Some(f) => Some(f.text()),
            },
            rel@,
            size,
        ),
{
    let comps = components_exec(rel);
    if has_segment(&comps, ".git") {
        return false;
    }
    match filter {
        Some(f) => {
            if !f.allows(rel) {
                return false;
            }
        },
        None => {},
    }
    match size {
        Some(n) => n <= MAX_FILE_BYTES,
        None => true,
    }
}

/// A match as path, line number and line.
pub open spec fn match_view(m: Match) -> (Seq<char>, u32, Seq<char>) {
    (m.path@, m.line_number, m.line@)
}

pub open spec fn match_views(v: Seq<Match>) -> Seq<(Seq<char>, u32, Seq<char>)> {
    v.map_values(|m: Match| match_view(m))
}

/// The matches of a file's lines: each matching line with its 1-based
/// number (as a `u32`) and its first [`LINE_PREVIEW`] characters.
pub open spec fn line_hits(pattern: Seq<char>, path: Seq<char>, ls: Seq<Seq<char>>) -> Seq<(Seq<char>, u32, Seq<char>)>
    decreases ls.len(),
{
    if ls.len() == 0 {
        seq![]
    } else {
        let l = ls.last();
        let rest = line_hits(pattern, path, ls.drop_last());
        if regex_matches(pattern, l) {
            rest.push((path, (ls.len() as int) as u32, if l.len() <= LINE_PREVIEW { l } else { l.take(LINE_PREVIEW as int) }))
        } else {
            rest
        }
    }
}

/// Add the matches of one file to `matches`, up to [`MAX_MATCHES`] in
/// all. Returns whether a match was left out for want of room.
pub fn search_lines(p: &Pattern, path: &str, content: &str, matches: &mut Vec<Match>) -> (r: bool)
    requires
        old(matches)@.len() <= MAX_MATCHES,
    ensures
        ({
            let hits = line_hits(p.text(), path@, lines(content@));
            let room = MAX_MATCHES - old(matches)@.len();
            &&& r == (hits.len() > room)
            &&& match_views(final(matches)@) == match_views(old(matches)@) + if hits.len() <= room {
                hits
            } else {
                hits.take(room)
            }
        }),
{
    let ls = lines_exec(&crate::text::chars_of(content));
    let ghost all = views(ls@);
    let ghost start = match_views(matches@);
    let ghost room = MAX_MATCHES - matches@.len();
    let mut i: usize = 0;
    let mut truncated = false;
    proof {
        assert(all.take(0) =~= Seq::<Seq<char>>::empty());
        assert(all.take(ls@.len() as int) =~= all);
    }
    while i < ls.len()
        invariant_except_break
            !truncated,
            match_views(matches@) == start + line_hits(p.text(), path@, all.take(i as int)),
            matches@.len() == old(matches)@.len() + line_hits(p.text(), path@, all.take(i as int)).len(),
        invariant
            i <= ls@.len(),
            all == views(ls@),
            all == lines(content@),
            all.take(ls@.len() as int) == all,
            room == MAX_MATCHES - old(matches)@.len(),
            start == match_views(old(matches)@),
            matches@.len() <= MAX_MATCHES,
        ensures
            truncated ==> line_hits(p.text(), path@, all).len() > room && match_views(matches@) == start
                + line_hits(p.text(), path@, all).take(room as int),
            !truncated ==> line_hits(p.text(), path@, all).len() <= room && match_views(matches@) == start
                + line_hits(p.text(), path@, all),
        decreases ls@.len() - i,
    {
        proof {
            assert(all.take(i + 1).drop_last() =~= all.take(i as int));
            assert(all.take(i + 1).last() == ls@[i as int]@);
        }
        let line = string_of(&ls[i]);
        if pattern_matches(p, line.as_str()) {
            if matches.len() >= MAX_MATCHES {
                proof {
                    lemma_hits_prefix(p.text(), path@, all, i + 1);
                    let before = line_hits(p.text(), path@, all.take(i as int));
                    let upto = line_hits(p.text(), path@, all.take(i + 1));
                    let every = line_hits(p.text(), path@, all);
                    assert(upto.len() == room + 1);
                    assert(every.take(room as int) =~= upto.take(room as int));
                    assert(upto.take(room as int) =~= before);
                }
                truncated = true;
                break;
            }
            let shown = crate::prompts::take_chars(&ls[i], LINE_PREVIEW);
            let ghost before = matches@;
            matches.push(Match { path: String::from_str(path), line_number: (i + 1) as u32, line: string_of(&shown) });
            proof {
                assert(match_views(matches@) =~= match_views(before).push(
                    (path@, ((i + 1) as int) as u32, shown@),
                ));
            }
        }
        i = i + 1;
    }
    proof {
        if !truncated {
            assert(match_views(matches@).len() == matches@.len());
        }
    }
    truncated
}

/// The hits of a prefix of the lines are a prefix of the hits.
proof fn lemma_hits_prefix(pattern: Seq<char>, path: Seq<char>, ls: Seq<Seq<char>>, k: int)
    requires
        0 <= k <= ls.len(),
    ensures
        line_hits(pattern, path, ls.take(k)).len() <= line_hits(pattern, path, ls).len(),
        line_hits(pattern, path, ls).take(line_hits(pattern, path, ls.take(k)).len() as int) == line_hits(
            pattern,
            path,
            ls.take(k),
        ),
    decreases ls.len() - k,
{
    if k < ls.len() {
        lemma_hits_prefix(pattern, path, ls, k + 1);
        assert(ls.take(k + 1).drop_last() =~= ls.take(k));
        let a = line_hits(pattern, path, ls.take(k));
        let b = line_hits(pattern, path, ls.take(k + 1));
        assert(b.take(a.len() as int) =~= a);
        let c = line_hits(pattern, path, ls);
        assert(c.take(a.len() as int) =~= c.take(b.len() as int).take(a.len() as int));
    } else {
        assert(ls.take(k) =~= ls);
        let c = line_hits(pattern, path, ls);
        assert(c.take(c.len() as int) =~= c);
    }
}

} // verus!
