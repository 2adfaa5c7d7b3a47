//! Merge-style detection for a commit range.
//!
//! Squash-merged branches carry PR titles ending in ` (#NNN)`; merge
//! commits carry `Merge pull request #NNN` / `Merge branch ` subjects or
//! several parents; anything else looks rebased. `\d` below is a Unicode
//! decimal digit.

use vstd::prelude::*;

use crate::models::{Commit, MergeStyle};
use crate::text::{
    chars_of, is_unicode_digit, is_unicode_digit_exec, is_ws, is_ws_exec, lemma_trail_ws_char,
    parse_u64, parse_u64_exec, slice_vec, starts_with, starts_with_exec, trail_ws, trim_end,
};

verus! {

/// Number of trailing decimal digits.
pub open spec fn trail_digits(s: Seq<char>) -> nat
    decreases s.len(),
{
    if s.len() > 0 && is_unicode_digit(s.last()) {
        1 + trail_digits(s.drop_last())
    } else {
        0
    }
}

pub proof fn lemma_trail_digits(s: Seq<char>, k: int)
    requires
        0 <= k <= s.len(),
        forall|j: int| s.len() - k <= j < s.len() ==> is_unicode_digit(#[trigger] s[j]),
        k == s.len() || !is_unicode_digit(s[s.len() - k - 1]),
    ensures
        trail_digits(s) == k,
    decreases s.len(),
{
    if k > 0 {
        let t = s.drop_last();
        assert(is_unicode_digit(s[s.len() - 1]));
        assert forall|j: int| t.len() - (k - 1) <= j < t.len() implies is_unicode_digit(#[trigger] t[j]) by {
            assert(t[j] == s[j]);
        }
        if k - 1 < t.len() {
            assert(t[t.len() - (k - 1) - 1] == s[s.len() - k - 1]);
        }
        lemma_trail_digits(t, k - 1);
    }
}

/// A trailing `(#NNN)` before any trailing whitespace: its digits and the
/// index of its `(`.
pub open spec fn pr_suffix(s: Seq<char>) -> Option<(Seq<char>, int)> {
    let t = trim_end(s);
    if t.len() == 0 || t.last() != ')' {
        None
    } else {
        let u = t.drop_last();
        let h = u.len() - trail_digits(u);
        if h < u.len() && h >= 2 && u[h - 1] == '#' && u[h - 2] == '(' {
            Some((u.skip(h), h - 2))
        } else {
            None
        }
    }
}

/// The subject matches `\s\(#\d+\)\s*$`, a squash-merge PR title.
pub open spec fn squash_subject(s: Seq<char>) -> bool {
    match pr_suffix(s) {
        Some((_, open)) => open >= 1 && is_ws(s[open - 1]),
        None => false,
    }
}

/// The subject matches `^(?:Merge pull request #\d+|Merge branch |Merge remote-tracking )`.
pub open spec fn merge_subject(s: Seq<char>) -> bool {
    ||| (starts_with(s, "Merge pull request #"@) && s.len() > "Merge pull request #"@.len()
        && is_unicode_digit(s["Merge pull request #"@.len() as int]))
    ||| starts_with(s, "Merge branch "@)
    ||| starts_with(s, "Merge remote-tracking "@)
}

/// What `extract_pr_id` gives: the digits of the trailing `(#NNN)` read as
/// a `u64`.
pub open spec fn pr_id_of(s: Seq<char>) -> Option<u64> {
    match pr_suffix(s) {
        Some((d, _)) => parse_u64(d),
        None => None,
    }
}

/// The commit counts as a merge: several parents or a merge subject.
pub open spec fn merge_like(c: Commit) -> bool {
    c.parents@.len() > 1 || merge_subject(c.subject@)
}

/// Number of squash-style subjects.
pub open spec fn squash_count(cs: Seq<Commit>) -> nat
    decreases cs.len(),
{
    if cs.len() == 0 {
        0
    } else {
        squash_count(cs.drop_last()) + if squash_subject(cs.last().subject@) { 1nat } else { 0nat }
    }
}

/// Number of merge-like commits.
pub open spec fn merge_count(cs: Seq<Commit>) -> nat
    decreases cs.len(),
{
    if cs.len() == 0 {
        0
    } else {
        merge_count(cs.drop_last()) + if merge_like(cs.last()) { 1nat } else { 0nat }
    }
}

/// Squash when over half the subjects are squash titles; merge when over
/// a fifth of the commits are merges; rebase when under a tenth are
/// squash titles and under a twentieth merges; mixed otherwise. An empty
/// range is rebase.
pub open spec fn merge_style_of(cs: Seq<Commit>) -> MergeStyle {
    let n = cs.len();
    let sq = squash_count(cs);
    let m = merge_count(cs);
    if n == 0 {
        MergeStyle::Rebase
    } else if 2 * sq > n {
        MergeStyle::Squash
    } else if 5 * m > n {
        MergeStyle::Merge
    } else if 10 * sq < n && 20 * m < n {
        MergeStyle::Rebase
    } else {
        MergeStyle::Mixed
    }
}

pub proof fn lemma_counts_bounded(cs: Seq<Commit>)
    ensures
        squash_count(cs) <= cs.len(),
        merge_count(cs) <= cs.len(),
    decreases cs.len(),
{
    if cs.len() > 0 {
        lemma_counts_bounded(cs.drop_last());
    }
}

/// Length of `v` without trailing whitespace.
fn trim_end_len(v: &[char]) -> (r: usize)
    ensures
        r + trail_ws(v@) == v@.len(),
{
    let n = v.len();
    let mut hi: usize = n;
    while hi > 0 && is_ws_exec(v[hi - 1])
        invariant
            hi <= n == v@.len(),
            forall|j: int| hi <= j < n ==> is_ws(#[trigger] v@[j]),
        decreases hi,
    {
        hi = hi - 1;
    }
    proof {
        lemma_trail_ws_char(v@, (n - hi) as int);
    }
    hi
}

/// The trailing `(#NNN)` of `v`: digit range and the index of `(`.
fn pr_suffix_exec(v: &[char]) -> (r: Option<(usize, usize, usize)>)
    ensures
        match r {
            None => pr_suffix(v@) is None,
            Some((open, lo, hi)) => open + 2 == lo && lo <= hi <= v@.len() && pr_suffix(v@) == Some(
                (v@.subrange(lo as int, hi as int), open as int),
            ),
        },
{
    let e = trim_end_len(v);
    let ghost t = trim_end(v@);
    proof {
        assert(t =~= v@.take(e as int));
    }
    if e == 0 || v[e - 1] != ')' {
        return None;
    }
    let ghost u = t.drop_last();
    let hi = e - 1;
    let mut h: usize = hi;
    while h > 0 && is_unicode_digit_exec(v[h - 1])
        invariant
            h <= hi < v@.len(),
            forall|j: int| h <= j < hi ==> is_unicode_digit(#[trigger] v@[j]),
        decreases h,
    {
        h = h - 1;
    }
    proof {
        assert(u =~= v@.take(hi as int));
        assert forall|j: int| u.len() - (hi - h) <= j < u.len() implies is_unicode_digit(#[trigger] u[j]) by {
            assert(u[j] == v@[j]);
        }
        if h > 0 {
            assert(u[u.len() - (hi - h) - 1] == v@[h - 1]);
        }
        lemma_trail_digits(u, (hi - h) as int);
    }
    if h < hi && h >= 2 && v[h - 1] == '#' && v[h - 2] == '(' {
        proof {
            assert(u.skip(h as int) =~= v@.subrange(h as int, hi as int));
        }
        Some((h - 2, h, hi))
    } else {
        None
    }
}

/// Whether `subject` reads like a squash-merge PR title, ` (#NNN)` at the end.
pub fn has_squash_suffix(subject: &str) -> (r: bool)
    ensures
        r == squash_subject(subject@),
{
    let v = chars_of(subject);
    match pr_suffix_exec(&v) {
        Some((open, _, _)) => open >= 1 && is_ws_exec(v[open - 1]),
        None => false,
    }
}

/// Whether `subject` is a default merge-commit subject.
pub fn is_merge_subject(subject: &str) -> (r: bool)
    ensures
        r == merge_subject(subject@),
{
    let v = chars_of(subject);
    let p = chars_of("Merge pull request #");
    if starts_with_exec(&v, &p) && v.len() > p.len() && is_unicode_digit_exec(v[p.len()]) {
        return true;
    }
    starts_with_exec(&v, &chars_of("Merge branch ")) || starts_with_exec(
        &v,
        &chars_of("Merge remote-tracking "),
    )
}

/// PR number of a squash-merge subject like `... (#123)`; `None` when the
/// subject has no such suffix or the number does not fit a `u64`.
pub fn extract_pr_id(subject: &str) -> (r: Option<u64>)
    ensures
        r == pr_id_of(subject@),
{
    let v = chars_of(subject);
    match pr_suffix_exec(&v) {
        Some((_, lo, hi)) => {
            let d = slice_vec(&v, lo, hi);
            parse_u64_exec(&d)
        },
        None => None,
    }
}

/// Decide the merge style of a commit range.
pub fn detect(commits: &[Commit]) -> (r: MergeStyle)
    ensures
        r == merge_style_of(commits@),
{
    let n = commits.len();
    let mut sq: usize = 0;
    let mut m: usize = 0;
    let mut i: usize = 0;
    while i < n
        invariant
            i <= n == commits@.len(),
            sq == squash_count(commits@.take(i as int)),
            m == merge_count(commits@.take(i as int)),
        decreases n - i,
    {
        proof {
            assert(commits@.take(i + 1).drop_last() =~= commits@.take(i as int));
            lemma_counts_bounded(commits@.take(i as int));
        }
        let c = &commits[i];
        if has_squash_suffix(c.subject.as_str()) {
            sq = sq + 1;
        }
        if c.is_merge() || is_merge_subject(c.subject.as_str()) {
            m = m + 1;
        }
        i = i + 1;
    }
    proof {
        assert(commits@.take(n as int) =~= commits@);
    }
    if n == 0 {
        return MergeStyle::Rebase;
    }
    let n2 = n as u128;
    let sq2 = sq as u128;
    let m2 = m as u128;
    if 2 * sq2 > n2 {
        MergeStyle::Squash
    } else if 5 * m2 > n2 {
        MergeStyle::Merge
    } else if 10 * sq2 < n2 && 20 * m2 < n2 {
        MergeStyle::Rebase
    } else {
        MergeStyle::Mixed
    }
}

} // verus!
