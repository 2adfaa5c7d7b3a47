//! What the project is, for the prose pass: a one-line description from
//! a language manifest and the intro of the README.
//!
//! Reading files is the caller's job; this module picks which files
//! matter, reads the description out of a manifest's text and cleans a
//! README down to its intro.

use vstd::prelude::*;

use crate::split::{lines, lines_exec, strip_prefix, strip_prefix_exec};
use crate::text::{
    chars_of, ends_with, ends_with_exec, find_from, first_occ_from, occurs_at, push_chars,
    push_str, slice_vec, starts_with, starts_with_exec, string_of, trim, trim_exec, trim_start,
    views,
};

verus! {

/// Characters of README intro kept.
pub const README_INTRO_MAX_CHARS: usize = 800;

/// Characters of manifest description kept.
pub const DESCRIPTION_MAX_CHARS: usize = 300;

/// The project context handed to the prose pass.
#[derive(Debug, Clone, Default, PartialEq, Eq)]
pub struct ProjectContext {
    pub description: Option<String>,
    pub readme_intro: Option<String>,
}

impl ProjectContext {
    pub fn is_empty(&self) -> (r: bool)
        ensures
            r == (self.description is None && self.readme_intro is None),
    {
        self.description.is_none() && self.readme_intro.is_none()
    }
}

/// Overrides for the project context: the command line wins over TOML,
/// TOML over detection.
#[derive(Debug, Clone, Copy, Default, PartialEq, Eq)]
pub struct ResolveInputs<'a> {
    pub cli_description: Option<&'a str>,
    pub cli_readme: Option<&'a str>,
    pub cli_no_readme: bool,
    pub toml_description: Option<&'a str>,
    pub toml_readme: Option<&'a str>,
    pub toml_no_readme: bool,
}

/// `s` trimmed and cut to `max` characters, with an ellipsis when cut.
pub open spec fn truncated(s: Seq<char>, max: nat) -> Seq<char> {
    let t = trim(s);
    if t.len() <= max {
        t
    } else {
        t.take(max as int).push('\u{2026}')
    }
}

/// [`truncated`], executable.
pub fn truncate(s: &str, max_chars: usize) -> (r: String)
    ensures
        r@ == truncated(s@, max_chars as nat),
{
    let t = trim_exec(&chars_of(s));
    if t.len() <= max_chars {
        return string_of(&t);
    }
    let mut p = slice_vec(&t, 0, max_chars);
    p.push('\u{2026}');
    proof {
        assert(p@ =~= t@.take(max_chars as int).push('\u{2026}'));
    }
    string_of(&p)
}

/// README file names, in the order they are looked for.
pub fn readme_candidates() -> (r: Vec<&'static str>)
    ensures
        r@.len() == 4,
        r@[0]@ == "README.md"@,
        r@[1]@ == "README.rst"@,
        r@[2]@ == "README.txt"@,
        r@[3]@ == "README"@,
{
    vec!["README.md", "README.rst", "README.txt", "README"]
}

/// The first README file name, in [`readme_candidates`] order, that
/// `is_file` reports present.
pub fn find_readme<F: Fn(&str) -> bool>(is_file: F) -> (r: Option<&'static str>)
    requires
        forall|n: &str| #[trigger] is_file.requires((n,)),
    ensures
        ({
            let names = seq!["README.md"@, "README.rst"@, "README.txt"@, "README"@];
            match r {
                Some(n) => exists|k: int|
                    0 <= k < 4 && n@ == names[k] && #[trigger] is_file.ensures((n,), true) && forall|j: int|
                        0 <= j < k ==> absent(is_file, #[trigger] names[j]),
                None => forall|j: int| 0 <= j < 4 ==> absent(is_file, #[trigger] names[j]),
            }
        }),
{
    let names = readme_candidates();
    let ghost want = seq!["README.md"@, "README.rst"@, "README.txt"@, "README"@];
    let mut i: usize = 0;
    while i < names.len()
        invariant
            names@.len() == 4,
            want == seq!["README.md"@, "README.rst"@, "README.txt"@, "README"@],
            i <= 4,
            forall|k: int| 0 <= k < 4 ==> #[trigger] names@[k]@ == want[k],
            forall|n: &str| #[trigger] is_file.requires((n,)),
            forall|j: int| 0 <= j < i ==> absent(is_file, #[trigger] want[j]),
        decreases 4 - i,
    {
        let n = names[i];
        let present = is_file(n);
        if present {
            let r: Option<&'static str> = Some(n);
            proof {
                assert(n@ == want[i as int]);
                assert(r matches Some(m) && m == n);
                assert(is_file.ensures((n,), true));
            }
            return r;
        }
        proof {
            assert(n@ == want[i as int]);
            assert(absent(is_file, want[i as int]));
        }
        i = i + 1;
    }
    None
}

/// `is_file` may report the file named `name` missing.
pub open spec fn absent<F: Fn(&str) -> bool>(is_file: F, name: Seq<char>) -> bool {
    exists|s: &str| s@ == name && #[trigger] is_file.ensures((s,), false)
}

/// The README path: from the command line, else TOML, else the file
/// found in the repository; none when README reading is disabled.
pub fn readme_path(inputs: &ResolveInputs, found: Option<String>) -> (r: Option<String>)
    ensures
        inputs.cli_no_readme || inputs.toml_no_readme ==> r is None,
        !(inputs.cli_no_readme || inputs.toml_no_readme) ==> match inputs.cli_readme {
            Some(p) => r matches Some(x) && x@ == p@,
            None => match inputs.toml_readme {
                Some(p) => r matches Some(x) && x@ == p@,
                None => r == found,
            },
        },
{
    if inputs.cli_no_readme || inputs.toml_no_readme {
        return None;
    }
    match inputs.cli_readme {
        Some(p) => Some(String::from_str(p)),
        None => match inputs.toml_readme {
            Some(p) => Some(String::from_str(p)),
            None => found,
        },
    }
}

/// The project context from the overrides, the detected manifest
/// description and the README intro: the description is the first of
/// command line, TOML and manifest, trimmed, absent when blank.
pub fn resolve_with(inputs: &ResolveInputs, manifest: Option<String>, readme_intro: Option<String>) -> (r: ProjectContext)
    ensures
        ({
            let d = match inputs.cli_description {
                Some(c) => Some(c@),
                None => match inputs.toml_description {
                    Some(t) => Some(t@),
                    None => match manifest {
                        Some(m) => Some(m@),
                        None => None,
                    },
                },
            };
            match d {
                Some(x) => if trim(x).len() > 0 {
                    r.description matches Some(y) && y@ == trim(x)
                } else {
                    r.description is None
                },
                None => r.description is None,
            }
        }),
        r.readme_intro == if inputs.cli_no_readme || inputs.toml_no_readme {
            None
        } else {
            readme_intro
        },
{
    let raw: Option<String> = match inputs.cli_description {
        Some(c) => Some(String::from_str(c)),
        None => match inputs.toml_description {
            Some(t) => Some(String::from_str(t)),
            None => manifest,
        },
    };
    let description = match raw {
        Some(x) => {
            let t = trim_exec(&chars_of(x.as_str()));
            if t.len() > 0 {
                Some(string_of(&t))
            } else {
                None
            }
        },
        None => None,
    };
    let intro = if inputs.cli_no_readme || inputs.toml_no_readme {
        None
    } else {
        readme_intro
    };
    ProjectContext { description, readme_intro: intro }
}

/// The description chosen: command line, else TOML, else the manifest's;
/// trimmed, absent when blank.
pub open spec fn chosen_description(inputs: ResolveInputs, manifest: Option<Seq<char>>) -> Option<Seq<char>> {
    description_of(
        match inputs.cli_description {
            Some(c) => Some(c@),
            None => match inputs.toml_description {
                Some(t) => Some(t@),
                None => manifest,
            },
        },
    )
}

/// The README file chosen: none when disabled on the command line or in
/// TOML; else the command line's, else TOML's, else the one found.
pub open spec fn chosen_readme(inputs: ResolveInputs, found: Option<Seq<char>>) -> Option<Seq<char>> {
    if inputs.cli_no_readme || inputs.toml_no_readme {
        None
    } else {
        match inputs.cli_readme {
            Some(p) => Some(p@),
            None => match inputs.toml_readme {
                Some(p) => Some(p@),
                None => found,
            },
        }
    }
}

/// The intro of a README's text; none for no text or an empty intro.
pub open spec fn intro_of_text(text: Option<Seq<char>>) -> Option<Seq<char>> {
    match text {
        Some(t) => if readme_intro_of(t).len() > 0 {
            Some(readme_intro_of(t))
        } else {
            None
        },
        None => None,
    }
}

/// The project context: the chosen description, and the intro of the
/// chosen README as `read_text` returns its text (`None` when it cannot be
/// read). `manifest` is the manifest description, `found` the README
/// found in the repository.
pub fn resolve<F: Fn(&str) -> Option<String>>(
    inputs: &ResolveInputs,
    manifest: Option<String>,
    found: Option<String>,
    read_text: F,
) -> (r: ProjectContext)
    requires
        forall|p: &str| read_text.requires((p,)),
    ensures
        opt_chars(r.description) == chosen_description(*inputs, opt_chars(manifest)),
        match chosen_readme(*inputs, opt_chars(found)) {
            None => r.readme_intro is None,
            Some(p) => exists|s: &str, t: Option<String>|
                s@ == p && #[trigger] read_text.ensures((s,), t) && opt_chars(r.readme_intro) == intro_of_text(
                    opt_chars(t),
                ),
        },
{
    let path = readme_path(inputs, found);
    let intro = match &path {
        None => None,
        Some(p) => {
            let ps: &str = p.as_str();
            let text = read_text(ps);
            let intro = match &text {
                Some(t) => read_readme_intro(t.as_str()),
                None => None,
            };
            assert(read_text.ensures((ps,), text));
            assert(opt_chars(intro) == intro_of_text(opt_chars(text)));
            intro
        },
    };
    resolve_with(inputs, manifest, intro)
}

/// A badge line: a Markdown image or image link on its own.
pub open spec fn badge_line(line: Seq<char>) -> bool {
    let t = trim(line);
    t.len() > 0 && (starts_with(t, "[!["@) || starts_with(t, "!["@)) && ends_with(t, ")"@)
}

fn is_badge_line(line: &[char]) -> (r: bool)
    ensures
        r == badge_line(line@),
{
    let t = trim_exec(line);
    t.len() > 0 && (starts_with_exec(&t, &chars_of("[![")) || starts_with_exec(&t, &chars_of("![")))
        && ends_with_exec(&t, &chars_of(")"))
}

/// The text after a leading YAML front-matter block (`---` line, then up
/// to and including the next `---` line), or all of it.
pub open spec fn after_front_matter(s: Seq<char>) -> Seq<char> {
    match strip_prefix(s, "---\n"@) {
        Some(rest) => match first_occ_from(rest, "\n---\n"@, 0) {
            Some(i) => rest.skip(i + 5),
            None => s,
        },
        None => s,
    }
}

fn strip_yaml_front_matter(s: &[char]) -> (r: Vec<char>)
    ensures
        r@ == after_front_matter(s@),
{
    match strip_prefix_exec(s, "---\n") {
        Some(rest) => {
            let pat = chars_of("\n---\n");
            match find_from(&rest, &pat, 0) {
                Some(i) => {
                    proof {
                        reveal_strlit("\n---\n");
                        let f = first_occ_from(rest@, "\n---\n"@, 0);
                        assert(occurs_at(rest@, "\n---\n"@, i as int));
                        assert(f is Some);
                        let j = f->0;
                        assert(0 <= j && occurs_at(rest@, "\n---\n"@, j));
                        assert(forall|m: int| 0 <= m < j ==> !occurs_at(rest@, "\n---\n"@, m));
                        if j < i {
                            assert(!occurs_at(rest@, "\n---\n"@, j));
                        }
                        if i < j {
                            assert(!occurs_at(rest@, "\n---\n"@, i as int));
                        }
                        assert("\n---\n"@.len() == 5);
                        assert(i + 5 <= rest@.len());
                    }
                    assert(i + 5 <= rest.len());
                    let r = slice_vec(&rest, i + 5, rest.len());
                    proof {
                        assert(r@ =~= rest@.skip(i + 5));
                    }
                    r
                },
                None => {
                    proof {
                        if first_occ_from(rest@, "\n---\n"@, 0) is Some {
                            let j = choose|j: int| 0 <= j && occurs_at(rest@, "\n---\n"@, j);
                            assert(!occurs_at(rest@, pat@, j));
                        }
                    }
                    slice_vec(s, 0, s.len())
                },
            }
        },
        None => slice_vec(s, 0, s.len()),
    }
}

/// Lines up to the first `##` heading, badge lines dropped, each with a
/// newline.
pub open spec fn intro_lines(ls: Seq<Seq<char>>) -> Seq<char>
    decreases ls.len(),
{
    if ls.len() == 0 {
        seq![]
    } else if starts_with(trim_start(ls[0]), "##"@) {
        seq![]
    } else if badge_line(trim_start(ls[0])) {
        intro_lines(ls.drop_first())
    } else {
        ls[0] + seq!['\n'] + intro_lines(ls.drop_first())
    }
}

/// One step of blank-run collapsing: `(text so far, last line blank)`.
pub open spec fn collapse_step(st: (Seq<char>, bool), line: Seq<char>) -> (Seq<char>, bool) {
    let (out, last_blank) = st;
    if trim(line).len() == 0 {
        (if !last_blank && out.len() > 0 { out.push('\n') } else { out }, true)
    } else {
        let a = if out.len() > 0 && out.last() != '\n' { out.push('\n') } else { out };
        let b = if last_blank { a.push('\n') } else { a };
        (b + line, false)
    }
}

pub open spec fn collapse_state(ls: Seq<Seq<char>>) -> (Seq<char>, bool)
    decreases ls.len(),
{
    if ls.len() == 0 {
        (seq![], false)
    } else {
        collapse_step(collapse_state(ls.drop_last()), ls.last())
    }
}

/// Runs of blank lines collapsed to one blank line.
pub open spec fn collapsed(s: Seq<char>) -> Seq<char> {
    collapse_state(lines(s)).0
}

fn collapse_blank_runs(s: &[char]) -> (r: Vec<char>)
    ensures
        r@ == collapsed(s@),
{
    let ls = lines_exec(s);
    let ghost all = views(ls@);
    let mut out: Vec<char> = Vec::new();
    let mut last_blank = false;
    let mut i: usize = 0;
    while i < ls.len()
        invariant
            i <= ls@.len(),
            all == views(ls@),
            all == lines(s@),
            (out@, last_blank) == collapse_state(all.take(i as int)),
        decreases ls@.len() - i,
    {
        proof {
            assert(all.take(i + 1).drop_last() =~= all.take(i as int));
            assert(all.take(i + 1).last() == ls@[i as int]@);
        }
        let line = &ls[i];
        if trim_exec(line).len() == 0 {
            if !last_blank && out.len() > 0 {
                out.push('\n');
            }
            last_blank = true;
        } else {
            if out.len() > 0 && out[out.len() - 1] != '\n' {
                out.push('\n');
            }
            if last_blank {
                out.push('\n');
            }
            let ghost before = out@;
            let mut k: usize = 0;
            while k < line.len()
                invariant
                    k <= line@.len(),
                    out@ == before + line@.take(k as int),
                decreases line@.len() - k,
            {
                out.push(line[k]);
                k = k + 1;
                proof {
                    assert(out@ =~= before + line@.take(k as int));
                }
            }
            proof {
                assert(line@.take(k as int) =~= line@);
            }
            last_blank = false;
        }
        i = i + 1;
    }
    proof {
        assert(all.take(ls@.len() as int) =~= all);
    }
    out
}

/// The README intro: front matter stripped, lines up to the first `##`
/// heading without badge lines, blank runs collapsed, cut to
/// [`README_INTRO_MAX_CHARS`] characters.
pub open spec fn readme_intro_of(raw: Seq<char>) -> Seq<char> {
    let body = intro_lines(lines(after_front_matter(raw)));
    truncated(collapsed(trim(body)), README_INTRO_MAX_CHARS as nat)
}

/// [`readme_intro_of`], executable.
pub fn clean_readme_intro(raw: &str) -> (r: String)
    ensures
        r@ == readme_intro_of(raw@),
{
    let body = strip_yaml_front_matter(&chars_of(raw));
    let ls = lines_exec(&body);
    let ghost all = views(ls@);
    let mut intro: Vec<char> = Vec::new();
    let mut i: usize = 0;
    let hashes = chars_of("##");
    proof {
        assert(all.skip(0) =~= all);
    }
    while i < ls.len()
        invariant
            i <= ls@.len(),
            all == views(ls@),
            hashes@ == "##"@,
            intro@ + intro_lines(all.skip(i as int)) == intro_lines(all),
        ensures
            intro@ == intro_lines(all),
        decreases ls@.len() - i,
    {
        let ghost rest = all.skip(i as int);
        proof {
            assert(rest[0] == ls@[i as int]@);
            assert(rest.drop_first() =~= all.skip(i + 1));
        }
        let t = trim_start_exec(&ls[i]);
        if starts_with_exec(&t, &hashes) {
            proof {
                assert(intro_lines(rest) =~= Seq::<char>::empty());
                assert(intro@ + Seq::<char>::empty() =~= intro@);
                lemma_intro_stops(all, i as int);
                assert(intro@ + intro_lines(all.skip(i as int)) =~= intro@);
            }
            break;
        }
        if !is_badge_line(&t) {
            let ghost before = intro@;
            let mut k: usize = 0;
            while k < ls[i].len()
                invariant
                    k <= ls@[i as int]@.len(),
                    i < ls@.len(),
                    intro@ == before + ls@[i as int]@.take(k as int),
                decreases ls@[i as int]@.len() - k,
            {
                intro.push(ls[i][k]);
                k = k + 1;
                proof {
                    assert(intro@ =~= before + ls@[i as int]@.take(k as int));
                }
            }
            intro.push('\n');
            proof {
                assert(ls@[i as int]@.take(k as int) =~= ls@[i as int]@);
                assert(intro@ + intro_lines(all.skip(i + 1)) =~= before + intro_lines(rest));
            }
        }
        i = i + 1;
    }
    let normalized = collapse_blank_runs(&trim_exec(&intro));
    let n = string_of(&normalized);
    truncate(n.as_str(), README_INTRO_MAX_CHARS)
}

proof fn lemma_intro_stops(all: Seq<Seq<char>>, i: int)
    requires
        0 <= i < all.len(),
        starts_with(trim_start(all[i]), "##"@),
    ensures
        intro_lines(all.skip(i)) == Seq::<char>::empty(),
{
    assert(all.skip(i)[0] == all[i]);
}

/// `s` without leading whitespace.
fn trim_start_exec(s: &[char]) -> (r: Vec<char>)
    ensures
        r@ == trim_start(s@),
{
    let mut i: usize = 0;
    while i < s.len() && crate::text::is_ws_exec(s[i])
        invariant
            i <= s@.len(),
            forall|j: int| 0 <= j < i ==> crate::text::is_ws(#[trigger] s@[j]),
        decreases s@.len() - i,
    {
        i = i + 1;
    }
    proof {
        crate::text::lemma_lead_ws_char(s@, i as int);
    }
    let r = slice_vec(s, i, s.len());
    proof {
        assert(r@ =~= trim_start(s@));
    }
    r
}

/// The README intro of a file's text; `None` when nothing is left.
pub fn read_readme_intro(text: &str) -> (r: Option<String>)
    ensures
        match r {
            Some(x) => readme_intro_of(text@).len() > 0 && x@ == readme_intro_of(text@),
            None => readme_intro_of(text@).len() == 0,
        },
{
    let c = clean_readme_intro(text);
    if c.as_str().is_empty() {
        None
    } else {
        Some(c)
    }
}

/// The description a manifest field gives: trimmed, absent when blank.
pub fn description_field(raw: Option<String>) -> (r: Option<String>)
    ensures
        opt_chars(r) == description_of(opt_chars(raw)),
{
    match raw {
        Some(x) => {
            let t = trim_exec(&chars_of(x.as_str()));
            if t.len() > 0 {
                Some(string_of(&t))
            } else {
                None
            }
        },
        None => None,
    }
}

/// The string at `key` in the table `table` of a TOML document as the
/// `toml` crate reads it; `None` when the text does not parse, or the
/// table, the key or a string value is missing.
pub uninterp spec fn toml_table_string(text: Seq<char>, table: Seq<char>, key: Seq<char>) -> Option<Seq<char>>;

/// The string at top-level `key` of a JSON document as `serde_json`
/// reads it; `None` when the text does not parse or the value is missing
/// or no string.
pub uninterp spec fn json_top_string(text: Seq<char>, key: Seq<char>) -> Option<Seq<char>>;

pub open spec fn opt_chars(o: Option<String>) -> Option<Seq<char>> {
    match o {
        Some(x) => Some(x@),
        None => None,
    }
}

/// `toml::from_str::<toml::Value>`, then `get(table)`, `as_table`,
/// `get(key)` and `as_str`. The contract names the result.
#[verifier::external_body]
fn toml_string_at(text: &str, table: &str, key: &str) -> (r: Option<String>)
    ensures
        opt_chars(r) == toml_table_string(text@, table@, key@),
{
    let parsed: toml::Value = toml::from_str(text).ok()?;
    parsed.get(table)?.as_table()?.get(key)?.as_str().map(|v| v.to_string())
}

/// `serde_json::from_str::<serde_json::Value>`, then `get(key)` and
/// `as_str`. The contract names the result.
#[verifier::external_body]
fn json_string_at(text: &str, key: &str) -> (r: Option<String>)
    ensures
        opt_chars(r) == json_top_string(text@, key@),
{
    let parsed: serde_json::Value = serde_json::from_str(text).ok()?;
    parsed.get(key)?.as_str().map(|v| v.to_string())
}

/// A description value: trimmed, absent when blank.
pub open spec fn description_of(raw: Option<Seq<char>>) -> Option<Seq<char>> {
    match raw {
        Some(x) => if trim(x).len() > 0 { Some(trim(x)) } else { None },
        None => None,
    }
}

/// The description in a `Cargo.toml`: `[package].description`.
pub fn cargo_toml_description(text: &str) -> (r: Option<String>)
    ensures
        opt_chars(r) == description_of(toml_table_string(text@, "package"@, "description"@)),
{
    description_field(toml_string_at(text, "package", "description"))
}

/// The description in a `package.json`: its `description`.
pub fn package_json_description(text: &str) -> (r: Option<String>)
    ensures
        opt_chars(r) == description_of(json_top_string(text@, "description"@)),
{
    description_field(json_string_at(text, "description"))
}

/// The description in a `pyproject.toml`: `[project].description`.
pub fn pyproject_description(text: &str) -> (r: Option<String>)
    ensures
        opt_chars(r) == description_of(toml_table_string(text@, "project"@, "description"@)),
{
    description_field(toml_string_at(text, "project", "description"))
}

/// The description of a manifest file that may be missing.
pub open spec fn file_description(text: Option<&str>, d: spec_fn(Seq<char>) -> Option<Seq<char>>) -> Option<Seq<char>> {
    match text {
        Some(t) => d(t@),
        None => None,
    }
}

/// The manifest description from the texts of `Cargo.toml`,
/// `package.json` and `pyproject.toml` (each `None` when the file is
/// missing or unreadable): the first that gives one, cut to
/// [`DESCRIPTION_MAX_CHARS`] characters.
pub fn manifest_description(cargo: Option<&str>, package_json: Option<&str>, pyproject: Option<&str>) -> (r: Option<String>)
    ensures
        ({
            let c = file_description(cargo, |t: Seq<char>| description_of(toml_table_string(t, "package"@, "description"@)));
            let j = file_description(package_json, |t: Seq<char>| description_of(json_top_string(t, "description"@)));
            let p = file_description(pyproject, |t: Seq<char>| description_of(toml_table_string(t, "project"@, "description"@)));
            let first = if c is Some { c } else if j is Some { j } else { p };
            match first {
                Some(d) => r matches Some(x) && x@ == truncated(d, DESCRIPTION_MAX_CHARS as nat),
                None => r is None,
            }
        }),
{
    let c = match cargo {
        Some(t) => cargo_toml_description(t),
        None => None,
    };
    let first = if c.is_some() {
        c
    } else {
        let j = match package_json {
            Some(t) => package_json_description(t),
            None => None,
        };
        if j.is_some() {
            j
        } else {
            match pyproject {
                Some(t) => pyproject_description(t),
                None => None,
            }
        }
    };
    match first {
        Some(d) => Some(truncate(d.as_str(), DESCRIPTION_MAX_CHARS)),
        None => None,
    }
}

} // verus!
