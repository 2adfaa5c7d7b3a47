//! The read-only tools: their arguments and outputs, and what each
//! decides without the filesystem.

use vstd::prelude::*;
use vstd::string::StringSliceAdditionalSpecFns;

use super::ToolError;
use crate::split::{lines, lines_exec};
use crate::text::{chars_of, decimal, is_hex_digit, push_chars, push_str, views};

verus! {

/// Name of the tool that ends an agent loop with a verdict.
pub fn submit_classification_tool_name() -> (r: &'static str)
    ensures
        r@ == "submit_classification"@,
{
    "submit_classification"
}

/// `read_file`: a file of the repository, optionally a line range.
#[derive(Debug, Clone, PartialEq, Eq)]
pub struct ReadFileTool {
    pub repo_root: String,
}

impl ReadFileTool {
    pub fn new(repo_root: String) -> (r: Self)
        ensures
            r.repo_root == repo_root,
    {
        ReadFileTool { repo_root }
    }
}

#[derive(Debug, Clone, PartialEq, Eq)]
pub struct ReadFileArgs {
    /// Relative path inside the repository.
    pub path: String,
    /// First line, 1-based, inclusive.
    pub start_line: Option<usize>,
    /// Last line, 1-based, inclusive.
    pub end_line: Option<usize>,
}

#[derive(Debug, Clone, PartialEq, Eq)]
pub struct ReadFileOutput {
    pub path: String,
    pub content: String,
    pub truncated: bool,
}

/// `list_directory`: the immediate entries of a directory.
#[derive(Debug, Clone, PartialEq, Eq)]
pub struct ListDirectoryTool {
    pub repo_root: String,
}

impl ListDirectoryTool {
    pub fn new(repo_root: String) -> (r: Self)
        ensures
            r.repo_root == repo_root,
    {
        ListDirectoryTool { repo_root }
    }
}

#[derive(Debug, Clone, PartialEq, Eq)]
pub struct ListDirectoryArgs {
    pub path: String,
}

#[derive(Debug, Clone, Copy, PartialEq, Eq, Structural)]
pub enum EntryKind {
    File,
    Dir,
    Symlink,
    Other,
}

#[derive(Debug, PartialEq, Eq)]
pub struct DirEntry {
    pub name: String,
    pub kind: EntryKind,
}

impl Clone for DirEntry {
    fn clone(&self) -> (r: Self)
        ensures
            r == *self,
    {
        DirEntry { name: self.name.clone(), kind: self.kind }
    }
}

#[derive(Debug, Clone, PartialEq, Eq)]
pub struct ListDirectoryOutput {
    pub path: String,
    pub entries: Vec<DirEntry>,
    pub truncated: bool,
}

/// `search_text`: regex search over the repository.
#[derive(Debug, Clone, PartialEq, Eq)]
pub struct SearchTextTool {
    pub repo_root: String,
}

impl SearchTextTool {
    pub fn new(repo_root: String) -> (r: Self)
        ensures
            r.repo_root == repo_root,
    {
        SearchTextTool { repo_root }
    }
}

#[derive(Debug, Clone, PartialEq, Eq)]
pub struct SearchTextArgs {
    pub pattern: String,
    pub path_glob: Option<String>,
}

#[derive(Debug, Clone, PartialEq, Eq)]
pub struct Match {
    pub path: String,
    pub line_number: u32,
    pub line: String,
}

#[derive(Debug, Clone, PartialEq, Eq)]
pub struct SearchTextOutput {
    pub pattern: String,
    pub matches: Vec<Match>,
    pub truncated: bool,
}

/// `git_show`: another commit's metadata and diff.
#[derive(Debug, Clone, PartialEq, Eq)]
pub struct GitShowTool {
    pub repo_root: String,
}

impl GitShowTool {
    pub fn new(repo_root: String) -> (r: Self)
        ensures
            r.repo_root == repo_root,
    {
        GitShowTool { repo_root }
    }
}

#[derive(Debug, Clone, PartialEq, Eq)]
pub struct GitShowArgs {
    pub sha: String,
}

#[derive(Debug, Clone, PartialEq, Eq)]
pub struct GitShowOutput {
    pub sha: String,
    pub content: String,
    pub truncated: bool,
}

/// The verdict tool: keeps the verdict the agent submits.
#[derive(Debug)]
pub struct SubmitClassificationTool {
    pub captured: Option<crate::ladder::Verdict>,
}

impl SubmitClassificationTool {
    /// A tool with nothing captured yet.
    pub fn new() -> (r: Self)
        ensures
            r.captured is None,
    {
        SubmitClassificationTool { captured: None }
    }

    /// Keep `verdict` (replacing any earlier one) and acknowledge it.
    pub fn call(&mut self, verdict: crate::ladder::Verdict) -> (r: SubmitOutput)
        ensures
            final(self).captured == Some(verdict),
            r.acknowledged,
    {
        self.captured = Some(verdict);
        SubmitOutput { acknowledged: true }
    }

    /// The captured verdict, leaving the slot empty.
    pub fn take(&mut self) -> (r: Option<crate::ladder::Verdict>)
        ensures
            r == old(self).captured,
            final(self).captured is None,
    {
        let r = self.captured.take();
        r
    }
}

/// Answer of the verdict tool.
#[derive(Debug, Clone, PartialEq, Eq)]
pub struct SubmitOutput {
    pub acknowledged: bool,
}

/// Whether a SHA argument is acceptable: 4 to 64 bytes, all ASCII hex.
pub open spec fn sha_error(sha: &str) -> Option<bool> {
    let n = sha.spec_bytes().len() as usize;
    if n < 4 || n > 64 {
        Some(true)
    } else if !(forall|i: int| 0 <= i < sha@.len() ==> is_hex_digit(#[trigger] sha@[i])) {
        Some(false)
    } else {
        None
    }
}

/// Check a SHA argument; the error says what is wrong.
pub fn validate_sha(sha: &str) -> (r: Result<(), ToolError>)
    ensures
        match (r, sha_error(sha)) {
            (Ok(()), None) => true,
            (Err(ToolError::InvalidArgs(m)), Some(true)) => m@ == "sha must be 4\u{2013}64 hex chars, got "@
                + decimal((sha.spec_bytes().len() as usize) as nat) + " chars"@,
            (Err(ToolError::InvalidArgs(m)), Some(false)) => m@ == "sha '"@ + sha@
                + "' is not a hex string"@,
            _ => false,
        },
{
    let n = sha.len();
    if n < 4 || n > 64 {
        let mut m = String::from_str("sha must be 4\u{2013}64 hex chars, got ");
        let mut d: Vec<char> = Vec::new();
        crate::text::push_decimal(&mut d, n as u64);
        push_chars(&mut m, &d);
        push_str(&mut m, " chars");
        return Err(ToolError::InvalidArgs(m));
    }
    let v = chars_of(sha);
    let mut i: usize = 0;
    while i < v.len()
        invariant
            i <= v@.len(),
            v@ == sha@,
            n == sha.spec_bytes().len() as usize,
            4 <= n <= 64,
            forall|j: int| 0 <= j < i ==> is_hex_digit(#[trigger] v@[j]),
        decreases v@.len() - i,
    {
        let c = v[i];
        if !(('0' <= c && c <= '9') || ('a' <= c && c <= 'f') || ('A' <= c && c <= 'F')) {
            let mut m = String::from_str("sha '");
            push_str(&mut m, sha);
            push_str(&mut m, "' is not a hex string");
            proof {
                assert(!is_hex_digit(sha@[i as int]));
            }
            return Err(ToolError::InvalidArgs(m));
        }
        i = i + 1;
    }
    Ok(())
}

/// The elements joined with `"\n"` between them.
pub open spec fn join_lines(ls: Seq<Seq<char>>) -> Seq<char>
    decreases ls.len(),
{
    if ls.len() == 0 {
        seq![]
    } else if ls.len() == 1 {
        ls[0]
    } else {
        join_lines(ls.drop_last()) + seq!['\n'] + ls.last()
    }
}

/// The 1-based inclusive line range `[start, end]` of `content` and
/// whether lines after it were left out. A missing start is 1, a missing
/// end the last line; the end is clamped to the last line and to at
/// least the start; a start past the end of the file gives nothing.
pub open spec fn line_slice(content: Seq<char>, start: Option<usize>, end: Option<usize>) -> (Seq<char>, bool) {
    let ls = lines(content);
    let total = ls.len();
    let s0 = match start {
        Some(s) => s as int,
        None => 1,
    };
    let s = if s0 < 1 { 1 } else { s0 };
    let e0 = match end {
        Some(e) => e as int,
        None => total as int,
    };
    let e1 = if e0 > total { total as int } else { e0 };
    let e = if e1 < s { s } else { e1 };
    if s > total {
        (seq![], true)
    } else {
        (join_lines(ls.subrange(s - 1, e)), e < total)
    }
}

/// Join character vectors with newlines.
fn join_exec(ls: &Vec<Vec<char>>, lo: usize, hi: usize) -> (r: Vec<char>)
    requires
        lo <= hi <= ls@.len(),
    ensures
        r@ == join_lines(views(ls@).subrange(lo as int, hi as int)),
{
    let mut out: Vec<char> = Vec::new();
    let mut i = lo;
    while i < hi
        invariant
            lo <= i <= hi <= ls@.len(),
            out@ == join_lines(views(ls@).subrange(lo as int, i as int)),
        decreases hi - i,
    {
        let ghost before = out@;
        if i > lo {
            out.push('\n');
        }
        let mut k: usize = 0;
        let ghost mid = out@;
        while k < ls[i].len()
            invariant
                k <= ls@[i as int]@.len(),
                lo <= i < hi <= ls@.len(),
                out@ == mid + ls@[i as int]@.take(k as int),
            decreases ls@[i as int]@.len() - k,
        {
            out.push(ls[i][k]);
            k = k + 1;
            proof {
                assert(out@ =~= mid + ls@[i as int]@.take(k as int));
            }
        }
        proof {
            assert(ls@[i as int]@.take(k as int) =~= ls@[i as int]@);
            let w = views(ls@).subrange(lo as int, i + 1);
            assert(w.drop_last() =~= views(ls@).subrange(lo as int, i as int));
            assert(w.last() == ls@[i as int]@);
            if i > lo {
                assert(out@ =~= before + seq!['\n'] + ls@[i as int]@);
            } else {
                assert(w.len() == 1);
                assert(out@ =~= ls@[i as int]@);
            }
        }
        i = i + 1;
    }
    out
}

/// [`line_slice`], executable.
pub fn slice_lines(content: &str, start: Option<usize>, end: Option<usize>) -> (r: (String, bool))
    ensures
        (r.0@, r.1) == line_slice(content@, start, end),
{
    let ls = lines_exec(&chars_of(content));
    let total = ls.len();
    let s0: usize = match start {
        Some(s) => s,
        None => 1,
    };
    let s = if s0 < 1 { 1 } else { s0 };
    let e0: usize = match end {
        Some(e) => e,
        None => total,
    };
    let e1 = if e0 > total { total } else { e0 };
    let e = if e1 < s { s } else { e1 };
    if s > total {
        return (String::new(), true);
    }
    let j = join_exec(&ls, s - 1, e);
    (crate::text::string_of(&j), e < total)
}

/// Bytes of a tool's text output kept.
pub const MAX_OUTPUT_BYTES: usize = 262144;

/// UTF-8 bytes of a text.
pub open spec fn bytes_of(s: Seq<char>) -> Seq<u8> {
    crate::providers::agent_loop::utf8(s)
}

/// A text output cut to `max` bytes: the first `max` bytes, a blank
/// line and a note of the original size; whether it was cut.
pub open spec fn capped(s: Seq<char>, max: nat) -> (Seq<u8>, bool) {
    let b = bytes_of(s);
    if b.len() > max {
        (b.take(max as int) + bytes_of("\n\n[\u{2026}truncated; original was "@ + decimal(b.len()) + " bytes]"@), true)
    } else {
        (b, false)
    }
}

/// Cut a text output to [`MAX_OUTPUT_BYTES`] (see [`capped`]). The cut
/// must fall on a character boundary.
pub fn cap_output(text: String) -> (r: (String, bool))
    requires
        bytes_of(text@).len() > MAX_OUTPUT_BYTES ==> vstd::utf8::is_char_boundary(bytes_of(text@), MAX_OUTPUT_BYTES as int),
    ensures
        (bytes_of(r.0@), r.1) == capped(text@, MAX_OUTPUT_BYTES as nat),
{
    let n = text.as_str().as_bytes().len();
    if n <= MAX_OUTPUT_BYTES {
        return (text, false);
    }
    let (head, _) = text.as_str().split_at(MAX_OUTPUT_BYTES);
    let mut out = String::from_str(head);
    let ghost h = out@;
    let mut note: Vec<char> = Vec::new();
    push_chars_lit(&mut note, "\n\n[\u{2026}truncated; original was ");
    crate::text::push_decimal(&mut note, n as u64);
    push_chars_lit(&mut note, " bytes]");
    push_chars(&mut out, &note);
    proof {
        crate::providers::agent_loop::lemma_utf8_concat(h, note@);
        assert(bytes_of(head@) =~= bytes_of(text@).take(MAX_OUTPUT_BYTES as int));
        assert(note@ =~= "\n\n[\u{2026}truncated; original was "@ + decimal(n as nat) + " bytes]"@);
    }
    (out, true)
}

/// The largest character boundary of `b` at or below `k` (0 at worst).
pub open spec fn floor_boundary(b: Seq<u8>, k: int) -> int
    decreases k,
{
    if k <= 0 {
        0
    } else if vstd::utf8::is_char_boundary(b, k) {
        k
    } else {
        floor_boundary(b, k - 1)
    }
}

/// The floor boundary is a character boundary between 0 and `k`.
pub proof fn lemma_floor_boundary(b: Seq<u8>, k: int)
    requires
        vstd::utf8::valid_utf8(b),
    ensures
        0 <= floor_boundary(b, k),
        k >= 0 ==> floor_boundary(b, k) <= k,
        vstd::utf8::is_char_boundary(b, floor_boundary(b, k)),
    decreases k,
{
    if k > 0 && !vstd::utf8::is_char_boundary(b, k) {
        lemma_floor_boundary(b, k - 1);
    } else if k <= 0 {
        vstd::utf8::is_char_boundary_start_end_of_seq(b);
    }
}

/// A text output cut to at most `max` bytes on a character boundary: the
/// longest prefix of whole characters within `max` bytes, a blank line
/// and a note of the original size; whether it was cut.
pub open spec fn capped_on_boundary(s: Seq<char>, max: nat) -> (Seq<u8>, bool) {
    let b = bytes_of(s);
    if b.len() > max {
        (
            b.take(floor_boundary(b, max as int)) + bytes_of(
                "\n\n[\u{2026}truncated; original was "@ + decimal(b.len()) + " bytes]"@,
            ),
            true,
        )
    } else {
        (b, false)
    }
}

/// Cut a text output to at most [`MAX_OUTPUT_BYTES`] bytes, backing off to
/// the nearest character boundary (see [`capped_on_boundary`]).
pub fn cap_output_on_boundary(text: String) -> (r: (String, bool))
    ensures
        (bytes_of(r.0@), r.1) == capped_on_boundary(text@, MAX_OUTPUT_BYTES as nat),
{
    let n = text.as_str().as_bytes().len();
    if n <= MAX_OUTPUT_BYTES {
        return (text, false);
    }
    let mut k: usize = MAX_OUTPUT_BYTES;
    while k > 0 && !text.as_str().is_char_boundary(k)
        invariant
            k <= MAX_OUTPUT_BYTES,
            floor_boundary(bytes_of(text@), MAX_OUTPUT_BYTES as int) == floor_boundary(bytes_of(text@), k as int),
        decreases k,
    {
        k = k - 1;
    }
    proof {
        vstd::utf8::encode_utf8_valid_utf8(text@);
        lemma_floor_boundary(bytes_of(text@), k as int);
    }
    let (head, _) = text.as_str().split_at(k);
    let mut out = String::from_str(head);
    let ghost h = out@;
    let mut note: Vec<char> = Vec::new();
    push_chars_lit(&mut note, "\n\n[\u{2026}truncated; original was ");
    crate::text::push_decimal(&mut note, n as u64);
    push_chars_lit(&mut note, " bytes]");
    push_chars(&mut out, &note);
    proof {
        crate::providers::agent_loop::lemma_utf8_concat(h, note@);
        assert(bytes_of(head@) =~= bytes_of(text@).take(k as int));
        assert(note@ =~= "\n\n[\u{2026}truncated; original was "@ + decimal(n as nat) + " bytes]"@);
    }
    (out, true)
}

fn push_chars_lit(out: &mut Vec<char>, s: &str)
    ensures
        final(out)@ == old(out)@ + s@,
{
    let c = chars_of(s);
    let ghost start = out@;
    let mut i: usize = 0;
    while i < c.len()
        invariant
            i <= c@.len(),
            c@ == s@,
            out@ == start + c@.take(i as int),
        decreases c@.len() - i,
    {
        out.push(c[i]);
        i = i + 1;
        proof {
            assert(out@ =~= start + c@.take(i as int));
        }
    }
    proof {
        assert(c@.take(c@.len() as int) =~= c@);
    }
}

/// The `read_file` answer for a file's contents: the requested line range
/// (the whole file when none is given), capped to at most
/// [`MAX_OUTPUT_BYTES`] on a character boundary; truncated when lines were
/// left out or the text was cut.
pub fn read_file_output(args: &ReadFileArgs, content: &str) -> (r: ReadFileOutput)
    ensures
        ({
            let (slice, cut_lines) = if args.start_line is None && args.end_line is None {
                (content@, false)
            } else {
                line_slice(content@, args.start_line, args.end_line)
            };
            &&& r.path@ == args.path@
            &&& bytes_of(r.content@) == capped_on_boundary(slice, MAX_OUTPUT_BYTES as nat).0
            &&& r.truncated == (cut_lines || capped_on_boundary(slice, MAX_OUTPUT_BYTES as nat).1)
        }),
{
    let (slice, cut_lines) = if args.start_line.is_none() && args.end_line.is_none() {
        (String::from_str(content), false)
    } else {
        slice_lines(content, args.start_line, args.end_line)
    };
    let (body, cut) = cap_output_on_boundary(slice);
    ReadFileOutput { path: args.path.clone(), content: body, truncated: cut_lines || cut }
}

/// The `git_show` answer for the command's standard output, capped to
/// [`MAX_OUTPUT_BYTES`].
pub fn git_show_output(sha: &str, stdout: String) -> (r: GitShowOutput)
    requires
        bytes_of(stdout@).len() > MAX_OUTPUT_BYTES ==> vstd::utf8::is_char_boundary(bytes_of(stdout@), MAX_OUTPUT_BYTES as int),
    ensures
        r.sha@ == sha@,
        (bytes_of(r.content@), r.truncated) == capped(stdout@, MAX_OUTPUT_BYTES as nat),
{
    let (content, truncated) = cap_output(stdout);
    GitShowOutput { sha: String::from_str(sha), content, truncated }
}

/// The error of a failed `git show`: the command and its trimmed
/// standard error.
pub fn git_show_failure(sha: &str, stderr: &str) -> (r: ToolError)
    ensures
        r matches ToolError::Other(m) && m@ == "git show "@ + sha@ + " failed: "@ + crate::text::trim(stderr@),
{
    let mut m = String::from_str("git show ");
    push_str(&mut m, sha);
    push_str(&mut m, " failed: ");
    let t = crate::text::trim_exec(&chars_of(stderr));
    push_chars(&mut m, &t);
    ToolError::Other(m)
}

} // verus!
