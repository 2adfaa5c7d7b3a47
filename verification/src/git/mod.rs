//! Git layer: commit-log parsing, range resolution, version detection.
//!
//! Running `git` is the caller's job; everything here works on the text
//! that `git` printed.

pub mod conventional;
pub mod log;

pub mod merge_style;

use vstd::prelude::*;

use crate::models::release::{kind_model, kind_of_model, opt_model, parsed_version};
use crate::models::{ParsedVersion, ReleaseKind, VersionBump, VersionScheme};
use crate::split::{lines, lines_exec, trim_start_char, trim_start_char_exec};
use crate::text::{
    chars_of, is_ascii_digit, push_decimal, push_str, string_of, string_views, trim, trim_exec,
    views,
};

verus! {

/// Failure of a git invocation or of reading its output.
#[derive(Debug, PartialEq, Eq)]
pub enum GitError {
    /// `git` could not be started; the message of the I/O error.
    Spawn(String),
    /// `git` ran and exited unsuccessfully.
    NonZeroExit { status: i32, stderr: String },
    /// The log output did not have the expected shape.
    ParseError(String),
}

/// Decimal text of a signed integer.
pub open spec fn signed_decimal(n: int) -> Seq<char> {
    if n < 0 {
        seq!['-'] + crate::text::decimal((-n) as nat)
    } else {
        crate::text::decimal(n as nat)
    }
}

/// Human-readable text of a [`GitError`].
pub open spec fn git_error_text(e: GitError) -> Seq<char> {
    match e {
        GitError::Spawn(m) => "git command failed: "@ + m@,
        GitError::NonZeroExit { status, stderr } => "git exited with status "@ + signed_decimal(
            status as int,
        ) + ": "@ + stderr@,
        GitError::ParseError(m) => "malformed git log output: "@ + m@,
    }
}

impl GitError {
    /// The error's message.
    pub fn message(&self) -> (r: String)
        ensures
            r@ == git_error_text(*self),
    {
        let mut out = String::new();
        match self {
            GitError::Spawn(m) => {
                push_str(&mut out, "git command failed: ");
                push_str(&mut out, m.as_str());
            },
            GitError::NonZeroExit { status, stderr } => {
                push_str(&mut out, "git exited with status ");
                let mut digits: Vec<char> = Vec::new();
                if *status < 0 {
                    push_str(&mut out, "-");
                    let mag: u64 = (0i64 - (*status as i64)) as u64;
                    push_decimal(&mut digits, mag);
                } else {
                    push_decimal(&mut digits, *status as u64);
                }
                crate::text::push_chars(&mut out, &digits);
                push_str(&mut out, ": ");
                push_str(&mut out, stderr.as_str());
                proof {
                    reveal_strlit("-");
                }
            },
            GitError::ParseError(m) => {
                push_str(&mut out, "malformed git log output: ");
                push_str(&mut out, m.as_str());
            },
        }
        out
    }
}

/// What range of commits to include.
#[derive(Debug, PartialEq, Eq)]
pub enum RangeSpec {
    /// Previous semver tag to `HEAD`; when `HEAD` is itself tagged, the
    /// tag before it.
    Auto,
    /// Latest semver tag to `HEAD`, even when `HEAD` is tagged.
    SinceLastTag,
    /// User-supplied refs.
    Explicit { from: Option<String>, to: String },
}

/// Concrete refs after resolution.
#[derive(Debug, PartialEq, Eq)]
pub struct Range {
    /// `None` means "from the start of history".
    pub from: Option<String>,
    pub to: String,
}

impl Clone for Range {
    fn clone(&self) -> (r: Self)
        ensures
            r == *self,
    {
        Range { from: crate::models::clone_opt_string(&self.from), to: self.to.clone() }
    }
}

/// `from..to`, or `to` alone.
pub open spec fn range_arg(r: Range) -> Seq<char> {
    match r.from {
        Some(f) => f@ + ".."@ + r.to@,
        None => r.to@,
    }
}

impl Range {
    /// Format as a `git log` range argument: `from..to` or just `to`.
    pub fn as_arg(&self) -> (r: String)
        ensures
            r@ == range_arg(*self),
    {
        match &self.from {
            Some(f) => {
                let mut out = f.clone();
                push_str(&mut out, "..");
                push_str(&mut out, self.to.as_str());
                out
            },
            None => self.to.clone(),
        }
    }
}

/// Length of the leading run of ASCII digits.
pub open spec fn digit_run(s: Seq<char>) -> nat
    decreases s.len(),
{
    if s.len() > 0 && is_ascii_digit(s[0]) {
        1 + digit_run(s.drop_first())
    } else {
        0
    }
}

pub proof fn lemma_digit_run(s: Seq<char>, k: int)
    requires
        0 <= k <= s.len(),
        forall|j: int| 0 <= j < k ==> is_ascii_digit(#[trigger] s[j]),
        k == s.len() || !is_ascii_digit(s[k]),
    ensures
        digit_run(s) == k,
    decreases s.len(),
{
    if k > 0 {
        let t = s.drop_first();
        assert forall|j: int| 0 <= j < k - 1 implies is_ascii_digit(#[trigger] t[j]) by {
            assert(t[j] == s[j + 1]);
        }
        if k - 1 < t.len() {
            assert(t[k - 1] == s[k]);
        }
        lemma_digit_run(t, k - 1);
    }
}

/// A semver-shaped tag: `v`, digits, `.`, digits, `.`, digits, then
/// anything (a pre-release or build tail).
pub open spec fn semver_tag(t: Seq<char>) -> bool {
    &&& t.len() > 0
    &&& t[0] == 'v'
    &&& {
        let r = t.drop_first();
        let a = digit_run(r);
        &&& 1 <= a < r.len()
        &&& r[a as int] == '.'
        &&& {
            let r2 = r.skip(a + 1int);
            let b = digit_run(r2);
            &&& 1 <= b < r2.len()
            &&& r2[b as int] == '.'
            &&& digit_run(r2.skip(b + 1int)) >= 1
        }
    }
}

/// End of the digit run of `v` starting at `i`.
fn digits_from(v: &[char], i: usize) -> (j: usize)
    requires
        i <= v@.len(),
    ensures
        i <= j <= v@.len(),
        j - i == digit_run(v@.skip(i as int)),
{
    let mut j = i;
    while j < v.len() && '0' <= v[j] && v[j] <= '9'
        invariant
            i <= j <= v@.len(),
            forall|m: int| i <= m < j ==> is_ascii_digit(#[trigger] v@[m]),
        decreases v@.len() - j,
    {
        j = j + 1;
    }
    proof {
        let r = v@.skip(i as int);
        assert forall|m: int| 0 <= m < j - i implies is_ascii_digit(#[trigger] r[m]) by {
            assert(r[m] == v@[m + i]);
        }
        if j < v@.len() {
            assert(r[j - i] == v@[j as int]);
        }
        lemma_digit_run(r, j - i);
    }
    j
}

/// Whether `t` is a semver-shaped tag (`v1.2.3`, `v1.2.3-rc.1`, ...).
pub fn is_semver_tag(t: &str) -> (r: bool)
    ensures
        r == semver_tag(t@),
{
    let v = chars_of(t);
    if v.len() == 0 || v[0] != 'v' {
        return false;
    }
    let ghost r = v@.drop_first();
    proof {
        assert(r =~= v@.skip(1));
    }
    let a = digits_from(&v, 1);
    if a == 1 || a >= v.len() || v[a] != '.' {
        proof {
            if a < v@.len() {
                assert(r[a - 1] == v@[a as int]);
            }
        }
        return false;
    }
    proof {
        assert(r[a - 1] == v@[a as int]);
        assert(r.skip(a - 1 + 1) =~= v@.skip(a + 1));
    }
    let b = digits_from(&v, a + 1);
    let ghost r2 = v@.skip(a + 1);
    if b == a + 1 || b >= v.len() || v[b] != '.' {
        proof {
            if b < v@.len() {
                assert(r2[b - (a + 1)] == v@[b as int]);
            }
        }
        return false;
    }
    proof {
        assert(r2[b - (a + 1)] == v@[b as int]);
        assert(r2.skip(b - (a + 1) + 1) =~= v@.skip(b + 1));
    }
    let c = digits_from(&v, b + 1);
    c > b + 1
}

/// The lines of `s`, each trimmed.
pub open spec fn trimmed_lines(s: Seq<char>) -> Seq<Seq<char>> {
    lines(s).map_values(|l: Seq<char>| trim(l))
}

/// The trimmed lines of `s`, each as a character vector.
fn trimmed_lines_exec(s: &str) -> (r: Vec<Vec<char>>)
    ensures
        views(r@) == trimmed_lines(s@),
{
    let v = chars_of(s);
    let ls = lines_exec(&v);
    let mut out: Vec<Vec<char>> = Vec::new();
    let mut i: usize = 0;
    while i < ls.len()
        invariant
            i <= ls@.len(),
            views(ls@) == lines(s@),
            views(out@) == views(ls@).take(i as int).map_values(|l: Seq<char>| trim(l)),
        decreases ls@.len() - i,
    {
        let t = trim_exec(&ls[i]);
        proof {
            assert(views(ls@)[i as int] == ls@[i as int]@);
        }
        let ghost before = out@;
        out.push(t);
        proof {
            assert(views(out@) =~= views(before).push(trim(ls@[i as int]@)));
            assert(views(ls@).take(i + 1).map_values(|l: Seq<char>| trim(l)) =~= views(ls@).take(
                i as int,
            ).map_values(|l: Seq<char>| trim(l)).push(trim(ls@[i as int]@)));
        }
        i = i + 1;
    }
    proof {
        assert(views(ls@).take(ls@.len() as int) =~= views(ls@));
    }
    out
}

/// First element that is a semver-shaped tag.
pub open spec fn first_semver(ls: Seq<Seq<char>>) -> Option<Seq<char>>
    decreases ls.len(),
{
    if ls.len() == 0 {
        None
    } else if semver_tag(ls[0]) {
        Some(ls[0])
    } else {
        first_semver(ls.drop_first())
    }
}

/// The non-empty elements, in order.
pub open spec fn non_empty(ls: Seq<Seq<char>>) -> Seq<Seq<char>>
    decreases ls.len(),
{
    if ls.len() == 0 {
        seq![]
    } else if ls[0].len() == 0 {
        non_empty(ls.drop_first())
    } else {
        seq![ls[0]] + non_empty(ls.drop_first())
    }
}

/// The element after the first occurrence of `tag`, if both exist.
pub open spec fn tag_after(ts: Seq<Seq<char>>, tag: Seq<char>) -> Option<Seq<char>>
    decreases ts.len(),
{
    if ts.len() == 0 {
        None
    } else if ts[0] == tag {
        if ts.len() > 1 {
            Some(ts[1])
        } else {
            None
        }
    } else {
        tag_after(ts.drop_first(), tag)
    }
}

/// The semver tag `git tag --points-at HEAD` printed, if any: the first
/// trimmed line that is semver-shaped.
pub fn head_tag_from(points_at: &str) -> (r: Option<String>)
    ensures
        match r {
            Some(t) => first_semver(trimmed_lines(points_at@)) == Some(t@),
            None => first_semver(trimmed_lines(points_at@)) is None,
        },
{
    let ls = trimmed_lines_exec(points_at);
    let ghost all = views(ls@);
    let mut i: usize = 0;
    proof {
        assert(all.skip(0) =~= all);
    }
    while i < ls.len()
        invariant
            i <= ls@.len(),
            all == views(ls@),
            all == trimmed_lines(points_at@),
            first_semver(all) == first_semver(all.skip(i as int)),
        decreases ls@.len() - i,
    {
        let t = string_of(&ls[i]);
        proof {
            assert(all.skip(i as int).len() > 0);
            assert(all.skip(i as int)[0] == ls@[i as int]@);
            assert(all.skip(i as int).drop_first() =~= all.skip(i + 1));
        }
        if is_semver_tag(t.as_str()) {
            return Some(t);
        }
        i = i + 1;
    }
    None
}

/// Tags listed one per line, newest first: the non-empty trimmed lines.
pub fn tags_from(list: &str) -> (r: Vec<String>)
    ensures
        string_views(r@) == non_empty(trimmed_lines(list@)),
{
    let ls = trimmed_lines_exec(list);
    let ghost all = views(ls@);
    let mut out: Vec<String> = Vec::new();
    let mut i: usize = 0;
    proof {
        assert(all.skip(0) =~= all);
    }
    while i < ls.len()
        invariant
            i <= ls@.len(),
            all == views(ls@),
            string_views(out@) + non_empty(all.skip(i as int)) == non_empty(all),
        decreases ls@.len() - i,
    {
        proof {
            assert(all.skip(i as int)[0] == ls@[i as int]@);
            assert(all.skip(i as int).drop_first() =~= all.skip(i + 1));
        }
        if ls[i].len() > 0 {
            let ghost before = out@;
            out.push(string_of(&ls[i]));
            proof {
                assert(string_views(out@) =~= string_views(before).push(ls@[i as int]@));
                assert(string_views(out@) + non_empty(all.skip(i + 1)) =~= string_views(before)
                    + non_empty(all.skip(i as int)));
            }
        }
        i = i + 1;
    }
    proof {
        assert(all.skip(i as int) =~= Seq::<Seq<char>>::empty());
        assert(string_views(out@) + Seq::<Seq<char>>::empty() =~= string_views(out@));
    }
    out
}

/// The newest tag of a newest-first list.
pub fn latest_tag(tags: &Vec<String>) -> (r: Option<String>)
    ensures
        match r {
            Some(t) => tags@.len() > 0 && t@ == tags@[0]@,
            None => tags@.len() == 0,
        },
{
    if tags.len() > 0 {
        Some(tags[0].clone())
    } else {
        None
    }
}

/// The tag just older than `tag` in a newest-first list.
pub fn previous_tag(tags: &Vec<String>, tag: &str) -> (r: Option<String>)
    ensures
        match r {
            Some(t) => tag_after(string_views(tags@), tag@) == Some(t@),
            None => tag_after(string_views(tags@), tag@) is None,
        },
{
    let ghost all = string_views(tags@);
    let mut i: usize = 0;
    proof {
        assert(all.skip(0) =~= all);
    }
    while i < tags.len()
        invariant
            i <= tags@.len(),
            all == string_views(tags@),
            tag_after(all, tag@) == tag_after(all.skip(i as int), tag@),
        decreases tags@.len() - i,
    {
        proof {
            assert(all.skip(i as int)[0] == tags@[i as int]@);
            assert(all.skip(i as int).drop_first() =~= all.skip(i + 1));
        }
        if crate::text::eq_str(&chars_of(tags[i].as_str()), tag) {
            if i + 1 < tags.len() {
                proof {
                    assert(all.skip(i as int)[1] == tags@[i + 1]@);
                }
                return Some(tags[i + 1].clone());
            }
            return None;
        }
        i = i + 1;
    }
    None
}

/// The range a [`RangeSpec`] denotes, given what `git tag --points-at
/// HEAD` and `git tag --list 'v*.*.*' --sort=-v:refname` printed.
pub open spec fn range_from(spec: RangeSpec, points_at: Seq<char>, tag_list: Seq<char>) -> (
    Option<Seq<char>>,
    Seq<char>,
) {
    let tags = non_empty(trimmed_lines(tag_list));
    let latest = if tags.len() > 0 { Some(tags[0]) } else { None };
    match spec {
        RangeSpec::Explicit { from, to } => (crate::models::release::opt_view(from), to@),
        RangeSpec::SinceLastTag => (latest, "HEAD"@),
        RangeSpec::Auto => (
            match first_semver(trimmed_lines(points_at)) {
                Some(t) => tag_after(tags, t),
                None => latest,
            },
            "HEAD"@,
        ),
    }
}

/// Resolve a [`RangeSpec`] into concrete refs from git's tag listings.
pub fn resolve_range_with(spec: &RangeSpec, points_at: &str, tag_list: &str) -> (r: Range)
    ensures
        (crate::models::release::opt_view(r.from), r.to@) == range_from(*spec, points_at@, tag_list@),
{
    match spec {
        RangeSpec::Explicit { from, to } => Range {
            from: crate::models::clone_opt_string(from),
            to: to.clone(),
        },
        RangeSpec::SinceLastTag => {
            let tags = tags_from(tag_list);
            let from = latest_tag(&tags);
            proof {
                if tags@.len() > 0 {
                    assert(string_views(tags@)[0] == tags@[0]@);
                }
            }
            Range { from, to: String::from_str("HEAD") }
        },
        RangeSpec::Auto => {
            let tags = tags_from(tag_list);
            let from = match head_tag_from(points_at) {
                Some(t) => previous_tag(&tags, t.as_str()),
                None => {
                    proof {
                        if tags@.len() > 0 {
                            assert(string_views(tags@)[0] == tags@[0]@);
                        }
                    }
                    latest_tag(&tags)
                },
            };
            Range { from, to: String::from_str("HEAD") }
        },
    }
}

/// First element that parses as a version.
pub open spec fn first_version(ls: Seq<Seq<char>>) -> Option<crate::models::release::VersionModel>
    decreases ls.len(),
{
    if ls.len() == 0 {
        None
    } else if parsed_version(ls[0]) is Some {
        parsed_version(ls[0])
    } else {
        first_version(ls.drop_first())
    }
}

/// The version a ref stands for: the ref itself when it parses, else
/// the first tag `git tag --points-at <ref>` printed that does.
pub open spec fn version_of_ref(ref_str: Seq<char>, points_at: Seq<char>) -> Option<
    crate::models::release::VersionModel,
> {
    if parsed_version(ref_str) is Some {
        parsed_version(ref_str)
    } else {
        first_version(non_empty(trimmed_lines(points_at)))
    }
}

/// [`version_of_ref`], executable.
pub fn version_from(ref_str: &str, points_at: &str) -> (r: Option<ParsedVersion>)
    ensures
        opt_model(r) == version_of_ref(ref_str@, points_at@),
{
    let direct = ParsedVersion::parse(ref_str);
    if direct.is_some() {
        return direct;
    }
    let tags = tags_from(points_at);
    let ghost all = string_views(tags@);
    let mut i: usize = 0;
    proof {
        assert(all.skip(0) =~= all);
    }
    while i < tags.len()
        invariant
            i <= tags@.len(),
            all == string_views(tags@),
            all == non_empty(trimmed_lines(points_at@)),
            parsed_version(ref_str@) is None,
            first_version(all) == first_version(all.skip(i as int)),
        decreases tags@.len() - i,
    {
        proof {
            assert(all.skip(i as int)[0] == tags@[i as int]@);
            assert(all.skip(i as int).drop_first() =~= all.skip(i + 1));
        }
        let p = ParsedVersion::parse(tags[i].as_str());
        proof {
            assert(all.skip(i as int).len() > 0);
        }
        if p.is_some() {
            return p;
        }
        i = i + 1;
    }
    None
}

/// Bump between two refs and the scheme of the newer one, given what
/// `git tag --points-at` printed for each.
pub fn version_bump_from(
    from_ref: Option<&str>,
    from_points_at: &str,
    to_ref: &str,
    to_points_at: &str,
) -> (r: (VersionBump, Option<VersionScheme>))
    ensures
        r.0 == crate::models::release::bump_of(
            match from_ref {
                Some(f) => version_of_ref(f@, from_points_at@),
                None => None,
            },
            version_of_ref(to_ref@, to_points_at@),
        ),
        r.1 == match version_of_ref(to_ref@, to_points_at@) {
            Some(m) => Some(m.1),
            None => None::<VersionScheme>,
        },
{
    let to_parsed = version_from(to_ref, to_points_at);
    let from_parsed = match from_ref {
        Some(f) => version_from(f, from_points_at),
        None => None,
    };
    let bump = VersionBump::from_parsed(from_parsed.as_ref(), to_parsed.as_ref());
    let scheme = match &to_parsed {
        Some(p) => Some(p.scheme),
        None => None,
    };
    (bump, scheme)
}

/// Release kind of a ref: its own tag text first, then the tags
/// `git tag --points-at <ref>` printed, else untagged.
pub open spec fn release_kind_of_ref(to_ref: Seq<char>, points_at: Seq<char>) -> crate::models::release::ReleaseKindModel {
    match kind_of_model(version_of_ref(to_ref, points_at)) {
        Some(k) => k,
        None => crate::models::release::ReleaseKindModel::Untagged,
    }
}

/// [`release_kind_of_ref`], executable.
pub fn release_kind_from(to_ref: &str, points_at: &str) -> (r: ReleaseKind)
    ensures
        kind_model(r) == release_kind_of_ref(to_ref@, points_at@),
{
    let v = version_from(to_ref, points_at);
    match v {
        Some(p) => match p.prerelease {
            Some(label) => ReleaseKind::Prerelease { label },
            None => ReleaseKind::Stable,
        },
        None => ReleaseKind::Untagged,
    }
}

/// The patch text of `git show --format= <sha>` without the blank lines
/// git prints before it.
pub fn diff_from_show(raw: &str) -> (r: String)
    ensures
        r@ == trim_start_char(raw@, '\n'),
{
    string_of(&trim_start_char_exec(&chars_of(raw), '\n'))
}

} // verus!
