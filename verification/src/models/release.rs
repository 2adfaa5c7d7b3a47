//! Version and release classification.
//!
//! A tag is read as strict semver first (`1.2.3`, `1.2.3-rc.1`,
//! `1.2.3+build`) and otherwise as CalVer: `YYYY.MM[.DD]` or
//! `YY.MM[.DD]` with an optional `-suffix` prerelease component (year
//! 4-digit `>= 2000` or 2-digit `10..=99`, month `1..=12`, day
//! `1..=99`).

use vstd::prelude::*;

use crate::text::{
    char_pos, char_pos_from, chars_of, parse_u32, slice_vec, split_char, split_char_exec,
    string_of, trim, trim_range, views,
};

verus! {

#[derive(Debug, Clone, Copy, PartialEq, Eq, Structural)]
pub enum VersionScheme {
    Semver,
    Calver,
}

impl VersionScheme {
    pub fn as_str(self) -> (r: &'static str)
        ensures
            r@ == scheme_name(self),
    {
        match self {
            VersionScheme::Semver => "semver",
            VersionScheme::Calver => "calver",
        }
    }
}

pub open spec fn scheme_name(s: VersionScheme) -> Seq<char> {
    match s {
        VersionScheme::Semver => "semver"@,
        VersionScheme::Calver => "calver"@,
    }
}

/// What `semver::Version::parse` gives for a text: `(major, minor,
/// patch, pre)` when it accepts it, the prerelease rendered as text.
pub uninterp spec fn semver_version(text: Seq<char>) -> Option<(u64, u64, u64, Seq<char>)>;

/// Calls `semver::Version::parse`. Claims only that the result is
/// [`semver_version`] of the text: the components and the rendered
/// prerelease on success, `None` on a parse error.
#[verifier::external_body]
fn semver_parse(text: &str) -> (r: Option<(u64, u64, u64, String)>)
    ensures
        match r {
            Some(t) => semver_version(text@) == Some((t.0, t.1, t.2, t.3@)),
            None => semver_version(text@) is None,
        },
{
    match semver::Version::parse(text) {
        Ok(v) => Some((v.major, v.minor, v.patch, v.pre.to_string())),
        Err(_) => None,
    }
}

/// Parsed view of a version string. `parts` is `[major, minor, patch]`
/// for semver and `[year, month, day]` for CalVer (day 0 when absent).
#[derive(Debug, PartialEq, Eq)]
pub struct ParsedVersion {
    pub parts: [u32; 3],
    pub scheme: VersionScheme,
    pub prerelease: Option<String>,
}

pub open spec fn opt_view(o: Option<String>) -> Option<Seq<char>> {
    match o {
        Some(s) => Some(s@),
        None => None,
    }
}

/// The text a version is read from: trimmed, one leading `v` dropped.
pub open spec fn version_text(s: Seq<char>) -> Seq<char> {
    let t = trim(s);
    if t.len() > 0 && t[0] == 'v' {
        t.drop_first()
    } else {
        t
    }
}

/// CalVer `[year, month, day]` of a base (no suffix), if it is one.
pub open spec fn calver_parts(base: Seq<char>) -> Option<(u32, u32, u32)> {
    let p = split_char(base, '.');
    if p.len() < 2 || p.len() > 3 {
        None
    } else {
        let y = parse_u32(p[0]);
        let m = parse_u32(p[1]);
        let d = if p.len() == 3 { parse_u32(p[2]) } else { Some(0u32) };
        match (y, m, d) {
            (Some(year), Some(month), Some(day)) => {
                let year_ok = if p[0].len() == 4 {
                    year >= 2000
                } else if p[0].len() == 2 {
                    10 <= year <= 99
                } else {
                    false
                };
                let day_ok = p.len() == 2 || (1 <= day && day <= 99);
                if year_ok && 1 <= month && month <= 12 && day_ok {
                    Some((year, month, day))
                } else {
                    None
                }
            },
            _ => None,
        }
    }
}

/// The model of a parsed version: `(parts, scheme, prerelease)`.
pub type VersionModel = (Seq<u32>, VersionScheme, Option<Seq<char>>);

/// Reading of the text `t` (after [`version_text`]) given what semver
/// made of it.
pub open spec fn version_model(t: Seq<char>, sv: Option<(u64, u64, u64, Seq<char>)>) -> Option<
    VersionModel,
> {
    match sv {
        Some((ma, mi, pa, pre)) => Some(
            (
                seq![ma as u32, mi as u32, pa as u32],
                VersionScheme::Semver,
                if pre.len() == 0 { None } else { Some(pre) },
            ),
        ),
        None => {
            let k = char_pos(t, '-');
            let base = t.take(k as int);
            let pre = if k < t.len() { Some(t.skip(k + 1int)) } else { None };
            match calver_parts(base) {
                Some((y, m, d)) => Some((seq![y, m, d], VersionScheme::Calver, pre)),
                None => None,
            }
        },
    }
}

/// What [`ParsedVersion::parse`] yields for `s`.
pub open spec fn parsed_version(s: Seq<char>) -> Option<VersionModel> {
    version_model(version_text(s), semver_version(version_text(s)))
}

pub open spec fn model_of(v: ParsedVersion) -> VersionModel {
    (v.parts@, v.scheme, opt_view(v.prerelease))
}

pub open spec fn opt_model(v: Option<ParsedVersion>) -> Option<VersionModel> {
    match v {
        Some(p) => Some(model_of(p)),
        None => None,
    }
}

fn parse_u32_exec(s: &[char]) -> (r: Option<u32>)
    ensures
        r == parse_u32(s@),
{
    match crate::text::parse_u64_exec(s) {
        Some(v) => {
            proof {
                let d = if s@.len() > 0 && s@[0] == '+' { s@.drop_first() } else { s@ };
                assert(crate::text::parse_u64(s@) == Some(v));
            }
            if v <= 4294967295u64 {
                Some(v as u32)
            } else {
                None
            }
        },
        None => None,
    }
}

/// [`calver_parts`], executable.
fn parse_calver(base: &[char]) -> (r: Option<(u32, u32, u32)>)
    ensures
        r == calver_parts(base@),
{
    let parts = split_char_exec(base, '.');
    proof {
        assert(views(parts@).len() == parts@.len());
    }
    if parts.len() < 2 || parts.len() > 3 {
        return None;
    }
    proof {
        assert(views(parts@)[0] == parts@[0]@);
        assert(views(parts@)[1] == parts@[1]@);
        if parts@.len() == 3 {
            assert(views(parts@)[2] == parts@[2]@);
        }
    }
    let year = match parse_u32_exec(&parts[0]) {
        Some(v) => v,
        None => return None,
    };
    let month = match parse_u32_exec(&parts[1]) {
        Some(v) => v,
        None => return None,
    };
    let year_ok = if parts[0].len() == 4 {
        year >= 2000
    } else if parts[0].len() == 2 {
        10 <= year && year <= 99
    } else {
        false
    };
    if !year_ok {
        return None;
    }
    if !(1 <= month && month <= 12) {
        return None;
    }
    let day = if parts.len() == 3 {
        let d = match parse_u32_exec(&parts[2]) {
            Some(v) => v,
            None => return None,
        };
        if !(1 <= d && d <= 99) {
            return None;
        }
        d
    } else {
        0
    };
    Some((year, month, day))
}

impl ParsedVersion {
    /// Parse a tag/ref string: trimmed, one leading `v` dropped, strict
    /// semver tried first, then CalVer.
    pub fn parse(s: &str) -> (r: Option<ParsedVersion>)
        ensures
            opt_model(r) == parsed_version(s@),
    {
        let text = Self::version_text_exec(s);
        let sv = semver_parse(text.as_str());
        Self::from_semver_result(&text, sv)
    }

    /// [`version_text`], executable.
    pub fn version_text_exec(s: &str) -> (r: String)
        ensures
            r@ == version_text(s@),
    {
        let v = chars_of(s);
        let (lo, hi) = trim_range(&v);
        let start = if lo < hi && v[lo] == 'v' { lo + 1 } else { lo };
        let t = slice_vec(&v, start, hi);
        proof {
            let tr = v@.subrange(lo as int, hi as int);
            if lo < hi && v@[lo as int] == 'v' {
                assert(tr.drop_first() =~= t@);
            } else {
                assert(tr =~= t@);
            }
        }
        string_of(&t)
    }

    /// The parse of an already prepared text `text` (see
    /// [`version_text`]), given what `semver::Version::parse` returned
    /// for it.
    pub fn from_semver_result(text: &String, sv: Option<(u64, u64, u64, String)>) -> (r: Option<
        ParsedVersion,
    >)
        ensures
            opt_model(r) == version_model(
                text@,
                match sv {
                    Some(t) => Some((t.0, t.1, t.2, t.3@)),
                    None => None,
                },
            ),
    {
        match sv {
            Some((ma, mi, pa, pre)) => {
                let prerelease = if pre.as_str().is_empty() {
                    None
                } else {
                    Some(pre)
                };
                let r = ParsedVersion {
                    parts: [ma as u32, mi as u32, pa as u32],
                    scheme: VersionScheme::Semver,
                    prerelease,
                };
                proof {
                    assert(r.parts@ =~= seq![ma as u32, mi as u32, pa as u32]);
                }
                Some(r)
            },
            None => {
                let t = chars_of(text.as_str());
                let k = char_pos_from(&t, '-', 0);
                proof {
                    assert(t@.skip(0) =~= t@);
                }
                let base = slice_vec(&t, 0, k);
                let pre = if k < t.len() {
                    let p = slice_vec(&t, k + 1, t.len());
                    proof {
                        assert(p@ =~= t@.skip(k + 1));
                    }
                    Some(string_of(&p))
                } else {
                    None
                };
                proof {
                    assert(base@ =~= t@.take(k as int));
                }
                match parse_calver(&base) {
                    Some((y, m, d)) => {
                        let r = ParsedVersion {
                            parts: [y, m, d],
                            scheme: VersionScheme::Calver,
                            prerelease: pre,
                        };
                        proof {
                            assert(r.parts@ =~= seq![y, m, d]);
                        }
                        Some(r)
                    },
                    None => None,
                }
            },
        }
    }
}

/// What kind of bump the release represents, positionally
/// (major/minor/patch or year/month/day).
#[derive(Debug, Clone, Copy, PartialEq, Eq, Structural)]
pub enum VersionBump {
    /// No `from` version (first release).
    Initial,
    Patch,
    Minor,
    Major,
    /// Unrecognised, not newer, or across schemes.
    Unknown,
}

pub open spec fn bump_of(from: Option<VersionModel>, to: Option<VersionModel>) -> VersionBump {
    match to {
        None => VersionBump::Unknown,
        Some(t) => match from {
            None => VersionBump::Initial,
            Some(f) => {
                if f.1 != t.1 {
                    VersionBump::Unknown
                } else if t.0[0] > f.0[0] {
                    VersionBump::Major
                } else if t.0[0] == f.0[0] && t.0[1] > f.0[1] {
                    VersionBump::Minor
                } else if t.0[0] == f.0[0] && t.0[1] == f.0[1] && t.0[2] > f.0[2] {
                    VersionBump::Patch
                } else {
                    VersionBump::Unknown
                }
            },
        },
    }
}

pub open spec fn opt_ref_model(v: Option<&ParsedVersion>) -> Option<VersionModel> {
    match v {
        Some(p) => Some(model_of(*p)),
        None => None,
    }
}

pub open spec fn bump_name(b: VersionBump) -> Seq<char> {
    match b {
        VersionBump::Initial => "initial"@,
        VersionBump::Patch => "patch"@,
        VersionBump::Minor => "minor"@,
        VersionBump::Major => "major"@,
        VersionBump::Unknown => "unknown"@,
    }
}

impl VersionBump {
    /// Compare two parsed versions by their positional parts; refuses to
    /// compare across schemes.
    pub fn from_parsed(from: Option<&ParsedVersion>, to: Option<&ParsedVersion>) -> (r: Self)
        ensures
            r == bump_of(opt_ref_model(from), opt_ref_model(to)),
    {
        let to = match to {
            Some(v) => v,
            None => return VersionBump::Unknown,
        };
        let from = match from {
            Some(v) => v,
            None => return VersionBump::Initial,
        };
        if from.scheme != to.scheme {
            return VersionBump::Unknown;
        }
        let tm = to.parts[0];
        let tn = to.parts[1];
        let tp = to.parts[2];
        let fm = from.parts[0];
        let fnn = from.parts[1];
        let fp = from.parts[2];
        if tm > fm {
            VersionBump::Major
        } else if tm == fm && tn > fnn {
            VersionBump::Minor
        } else if tm == fm && tn == fnn && tp > fp {
            VersionBump::Patch
        } else {
            VersionBump::Unknown
        }
    }

    pub fn as_str(self) -> (r: &'static str)
        ensures
            r@ == bump_name(self),
    {
        match self {
            VersionBump::Initial => "initial",
            VersionBump::Patch => "patch",
            VersionBump::Minor => "minor",
            VersionBump::Major => "major",
            VersionBump::Unknown => "unknown",
        }
    }
}

#[derive(Debug, PartialEq, Eq)]
pub enum ReleaseKind {
    Stable,
    Prerelease { label: String },
    Untagged,
}

impl Clone for ReleaseKind {
    fn clone(&self) -> (r: Self)
        ensures
            r == *self,
    {
        match self {
            ReleaseKind::Stable => ReleaseKind::Stable,
            ReleaseKind::Prerelease { label } => ReleaseKind::Prerelease { label: label.clone() },
            ReleaseKind::Untagged => ReleaseKind::Untagged,
        }
    }
}

/// Release kind of a parsed version model.
pub open spec fn kind_of_model(m: Option<VersionModel>) -> Option<ReleaseKindModel> {
    match m {
        Some(v) => Some(
            match v.2 {
                Some(l) => ReleaseKindModel::Prerelease(l),
                None => ReleaseKindModel::Stable,
            },
        ),
        None => None,
    }
}

/// Spec mirror of [`ReleaseKind`].
pub ghost enum ReleaseKindModel {
    Stable,
    Prerelease(Seq<char>),
    Untagged,
}

pub open spec fn kind_model(k: ReleaseKind) -> ReleaseKindModel {
    match k {
        ReleaseKind::Stable => ReleaseKindModel::Stable,
        ReleaseKind::Prerelease { label } => ReleaseKindModel::Prerelease(label@),
        ReleaseKind::Untagged => ReleaseKindModel::Untagged,
    }
}

impl ReleaseKind {
    pub fn is_prerelease(&self) -> (r: bool)
        ensures
            r == (*self is Prerelease),
    {
        match self {
            ReleaseKind::Prerelease { .. } => true,
            _ => false,
        }
    }

    pub fn label(&self) -> (r: Option<&str>)
        ensures
            match *self {
                ReleaseKind::Prerelease { label } => r matches Some(l) && l@ == label@,
                _ => r is None,
            },
    {
        match self {
            ReleaseKind::Prerelease { label } => Some(label.as_str()),
            _ => None,
        }
    }

    /// Release kind of a tag, `None` when it is neither semver nor CalVer.
    pub fn from_tag(tag: &str) -> (r: Option<ReleaseKind>)
        ensures
            match r {
                Some(k) => kind_of_model(parsed_version(tag@)) == Some(kind_model(k)),
                None => parsed_version(tag@) is None,
            },
    {
        let parsed = ParsedVersion::parse(tag);
        match parsed {
            Some(p) => match p.prerelease {
                Some(label) => Some(ReleaseKind::Prerelease { label }),
                None => Some(ReleaseKind::Stable),
            },
            None => None,
        }
    }
}

} // verus!
