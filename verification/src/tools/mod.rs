//! Read-only tools of the agentic tier, and the checks around them.
//!
//! Tool arguments come from the model and are not trusted: every path is
//! checked to stay inside the repository and out of `.git/`, SHAs must
//! be hex, and the number of calls per loop is capped.

pub mod budget;
pub mod files;
pub mod listing;
pub mod search;

use vstd::prelude::*;

use crate::text::{chars_of, push_chars, push_str, split_char, split_char_exec, views};

verus! {

#[derive(Debug, PartialEq, Eq)]
pub enum ToolError {
    InvalidPath { path: String, reason: String },
    EscapesRoot { path: String },
    InsideGitDir { path: String },
    Io { path: String, message: String },
    InvalidArgs(String),
    BudgetExhausted(String),
    Other(String),
}

pub open spec fn tool_error_text(e: ToolError) -> Seq<char> {
    match e {
        ToolError::InvalidPath { path, reason } => "invalid path '"@ + path@ + "': "@ + reason@,
        ToolError::EscapesRoot { path } => "path '"@ + path@ + "' resolves outside the repo root"@,
        ToolError::InsideGitDir { path } => "path '"@ + path@ + "' is under .git/"@,
        ToolError::Io { path, message } => "io error on '"@ + path@ + "': "@ + message@,
        ToolError::InvalidArgs(m) => "invalid args: "@ + m@,
        ToolError::BudgetExhausted(m) => "budget exhausted: "@ + m@,
        ToolError::Other(m) => "other: "@ + m@,
    }
}

impl ToolError {
    /// The error's message.
    pub fn message(&self) -> (r: String)
        ensures
            r@ == tool_error_text(*self),
    {
        let mut out = String::new();
        match self {
            ToolError::InvalidPath { path, reason } => {
                push_str(&mut out, "invalid path '");
                push_str(&mut out, path.as_str());
                push_str(&mut out, "': ");
                push_str(&mut out, reason.as_str());
            },
            ToolError::EscapesRoot { path } => {
                push_str(&mut out, "path '");
                push_str(&mut out, path.as_str());
                push_str(&mut out, "' resolves outside the repo root");
            },
            ToolError::InsideGitDir { path } => {
                push_str(&mut out, "path '");
                push_str(&mut out, path.as_str());
                push_str(&mut out, "' is under .git/");
            },
            ToolError::Io { path, message } => {
                push_str(&mut out, "io error on '");
                push_str(&mut out, path.as_str());
                push_str(&mut out, "': ");
                push_str(&mut out, message.as_str());
            },
            ToolError::InvalidArgs(m) => {
                push_str(&mut out, "invalid args: ");
                push_str(&mut out, m.as_str());
            },
            ToolError::BudgetExhausted(m) => {
                push_str(&mut out, "budget exhausted: ");
                push_str(&mut out, m.as_str());
            },
            ToolError::Other(m) => {
                push_str(&mut out, "other: ");
                push_str(&mut out, m.as_str());
            },
        }
        out
    }
}

/// The `/`-separated segments of a relative path.
pub open spec fn segments(p: Seq<char>) -> Seq<Seq<char>> {
    split_char(p, '/')
}

/// Why a relative path is refused, before touching the filesystem: empty,
/// absolute, a `..` segment, or a `.git` segment, checked in that order.
pub open spec fn relative_path_error(rel: Seq<char>) -> Option<u8> {
    if rel.len() == 0 {
        Some(0)
    } else if rel[0] == '/' {
        Some(1)
    } else if segments(rel).contains(".."@) {
        Some(2)
    } else if segments(rel).contains(".git"@) {
        Some(3)
    } else {
        None
    }
}

/// `e` is the error for refusal `code` of `rel`.
pub open spec fn refusal(code: u8, rel: Seq<char>, e: ToolError) -> bool {
    if code == 0 {
        e matches ToolError::InvalidPath { path, reason } && path@ == rel && reason@ == "path is empty"@
    } else if code == 1 {
        e matches ToolError::InvalidPath { path, reason } && path@ == rel && reason@
            == "absolute paths are not accepted"@
    } else if code == 2 {
        e matches ToolError::EscapesRoot { path } && path@ == rel
    } else {
        e matches ToolError::InsideGitDir { path } && path@ == rel
    }
}

pub(crate) fn has_segment(segs: &Vec<Vec<char>>, lit: &str) -> (r: bool)
    ensures
        r == views(segs@).contains(lit@),
{
    let l = chars_of(lit);
    let mut i: usize = 0;
    while i < segs.len()
        invariant
            i <= segs@.len(),
            l@ == lit@,
            forall|j: int| 0 <= j < i ==> views(segs@)[j] != lit@,
        decreases segs@.len() - i,
    {
        if crate::text::eq_chars(&segs[i], &l) {
            proof {
                assert(views(segs@)[i as int] == lit@);
            }
            return true;
        }
        proof {
            assert(views(segs@)[i as int] == segs@[i as int]@);
        }
        i = i + 1;
    }
    false
}

/// Check a model-supplied relative path without touching the filesystem.
pub fn check_relative(rel: &str) -> (r: Result<(), ToolError>)
    ensures
        match (r, relative_path_error(rel@)) {
            (Ok(()), None) => true,
            (Err(e), Some(code)) => refusal(code, rel@, e),
            _ => false,
        },
{
    let v = chars_of(rel);
    if v.len() == 0 {
        return Err(ToolError::InvalidPath { path: String::from_str(rel), reason: String::from_str("path is empty") });
    }
    if v[0] == '/' {
        return Err(
            ToolError::InvalidPath {
                path: String::from_str(rel),
                reason: String::from_str("absolute paths are not accepted"),
            },
        );
    }
    let segs = split_char_exec(&v, '/');
    if has_segment(&segs, "..") {
        return Err(ToolError::EscapesRoot { path: String::from_str(rel) });
    }
    if has_segment(&segs, ".git") {
        return Err(ToolError::InsideGitDir { path: String::from_str(rel) });
    }
    Ok(())
}

/// `PathBuf::join` of a relative path: a separator is added unless the
/// base is empty or already ends with one.
pub open spec fn joined_path(root: Seq<char>, rel: Seq<char>) -> Seq<char> {
    if root.len() == 0 {
        rel
    } else if root.last() == '/' {
        root + rel
    } else {
        root + "/"@ + rel
    }
}

/// [`joined_path`], executable.
pub fn join_path(root: &str, rel: &str) -> (r: String)
    ensures
        r@ == joined_path(root@, rel@),
{
    let v = chars_of(root);
    let mut out = String::from_str(root);
    if v.len() > 0 && v[v.len() - 1] != '/' {
        push_str(&mut out, "/");
    }
    push_str(&mut out, rel);
    out
}

/// The non-empty segments of an absolute path.
pub open spec fn components(p: Seq<char>) -> Seq<Seq<char>> {
    crate::git::non_empty(split_char(p, '/'))
}

/// `Path::starts_with` on canonical paths: the components of `root` are
/// the first components of `p`.
pub open spec fn path_within(p: Seq<char>, root: Seq<char>) -> bool {
    let a = components(p);
    let b = components(root);
    b.len() <= a.len() && a.take(b.len() as int) == b
}

pub(crate) fn components_exec(p: &str) -> (r: Vec<Vec<char>>)
    ensures
        views(r@) == components(p@),
{
    let segs = split_char_exec(&chars_of(p), '/');
    let ghost all = views(segs@);
    let mut out: Vec<Vec<char>> = Vec::new();
    let mut i: usize = 0;
    proof {
        assert(all.skip(0) =~= all);
    }
    while i < segs.len()
        invariant
            i <= segs@.len(),
            all == views(segs@),
            all == split_char(p@, '/'),
            views(out@) + crate::git::non_empty(all.skip(i as int)) == crate::git::non_empty(all),
        decreases segs@.len() - i,
    {
        proof {
            assert(all.skip(i as int)[0] == segs@[i as int]@);
            assert(all.skip(i as int).drop_first() =~= all.skip(i + 1));
        }
        if segs[i].len() > 0 {
            let ghost before = out@;
            let s = crate::text::slice_vec(&segs[i], 0, segs[i].len());
            out.push(s);
            proof {
                assert(s@ =~= segs@[i as int]@);
                assert(views(out@) =~= views(before).push(segs@[i as int]@));
                assert(views(out@) + crate::git::non_empty(all.skip(i + 1)) =~= views(before)
                    + crate::git::non_empty(all.skip(i as int)));
            }
        }
        i = i + 1;
    }
    proof {
        assert(all.skip(i as int) =~= Seq::<Seq<char>>::empty());
        assert(views(out@) + Seq::<Seq<char>>::empty() =~= views(out@));
    }
    out
}

/// [`path_within`], executable.
pub fn within_root(p: &str, root: &str) -> (r: bool)
    ensures
        r == path_within(p@, root@),
{
    let a = components_exec(p);
    let b = components_exec(root);
    if b.len() > a.len() {
        return false;
    }
    let mut i: usize = 0;
    while i < b.len()
        invariant
            b@.len() <= a@.len(),
            i <= b@.len(),
            views(a@) == components(p@),
            views(b@) == components(root@),
            forall|j: int| 0 <= j < i ==> views(a@)[j] == views(b@)[j],
        decreases b@.len() - i,
    {
        if !crate::text::eq_chars(&a[i], &b[i]) {
            proof {
                assert(views(a@)[i as int] == a@[i as int]@);
                assert(views(b@)[i as int] == b@[i as int]@);
                assert(views(a@).take(b@.len() as int)[i as int] != views(b@)[i as int]);
            }
            return false;
        }
        proof {
            assert(views(a@)[i as int] == a@[i as int]@);
            assert(views(b@)[i as int] == b@[i as int]@);
        }
        i = i + 1;
    }
    proof {
        assert(views(a@).take(b@.len() as int) =~= views(b@));
    }
    true
}

/// What canonicalising the joined path gave.
#[derive(Debug, PartialEq, Eq)]
pub enum Canonical {
    /// The canonical path.
    Found(String),
    /// Nothing exists there.
    NotFound,
    /// Another I/O failure, with its message.
    Failed(String),
}

/// Resolve `rel` under `repo_root`. `root_canon` is the canonical root
/// (`None` when the root does not exist, which skips the symlink check)
/// and `path_canon` what canonicalising the joined path gave. A path whose
/// canonical form leaves the root is refused; an existing path resolves
/// to its canonical form; a missing one to the joined path.
pub fn safe_resolve(repo_root: &str, rel: &str, root_canon: Option<String>, path_canon: Canonical) -> (r: Result<String, ToolError>)
    ensures
        match relative_path_error(rel@) {
            Some(code) => r matches Err(e) && refusal(code, rel@, e),
            None => match (root_canon, path_canon) {
                (Some(cr), Canonical::Found(c)) => if path_within(c@, cr@) {
                    r matches Ok(p) && p@ == c@
                } else {
                    r matches Err(ToolError::EscapesRoot { path }) && path@ == rel@
                },
                (Some(_), Canonical::Failed(m)) => r matches Err(ToolError::Io { path, message })
                    && path@ == rel@ && message@ == m@,
                _ => r matches Ok(p) && p@ == joined_path(repo_root@, rel@),
            },
        },
{
    match check_relative(rel) {
        Err(e) => {
            return Err(e);
        },
        Ok(()) => {},
    }
    let joined = join_path(repo_root, rel);
    match root_canon {
        Some(cr) => match path_canon {
            Canonical::Found(c) => {
                if !within_root(c.as_str(), cr.as_str()) {
                    return Err(ToolError::EscapesRoot { path: String::from_str(rel) });
                }
                Ok(c)
            },
            Canonical::NotFound => Ok(joined),
            Canonical::Failed(m) => Err(ToolError::Io { path: String::from_str(rel), message: m }),
        },
        None => Ok(joined),
    }
}

} // verus!
