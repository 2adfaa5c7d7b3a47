//! Splitting text into lines, words and runs.
//!
//! Each spec function states the std behaviour it stands for
//! (`str::lines`, `str::split_whitespace`, `trim_start_matches(c)`,
//! `trim_end_matches(c)`); each executable twin is proved against it.

use vstd::prelude::*;

use crate::text::{char_pos, char_pos_from, is_ws, is_ws_exec, slice_vec, views};

verus! {

/// Drop one trailing `'\r'`, as `str::lines` does for a line ended by `"\r\n"`.
pub open spec fn strip_cr(l: Seq<char>) -> Seq<char> {
    if l.len() > 0 && l.last() == '\r' {
        l.drop_last()
    } else {
        l
    }
}

/// `str::lines`: pieces between `'\n'`; a piece ended by `'\n'` loses one
/// trailing `'\r'`; a final empty piece is not a line.
pub open spec fn lines(s: Seq<char>) -> Seq<Seq<char>>
    decreases s.len(),
{
    if s.len() == 0 {
        seq![]
    } else {
        let p = char_pos(s, '\n');
        if p < s.len() {
            seq![strip_cr(s.take(p as int))] + lines(s.skip(p + 1int))
        } else {
            seq![s]
        }
    }
}

/// Copy of a line without a trailing `'\r'`.
fn strip_cr_exec(v: Vec<char>) -> (r: Vec<char>)
    ensures
        r@ == strip_cr(v@),
{
    let ghost orig = v@;
    let mut v = v;
    if v.len() > 0 && v[v.len() - 1] == '\r' {
        v.pop();
        proof {
            assert(v@ =~= strip_cr(orig));
        }
    }
    v
}

/// The lines of `v`, as `str::lines` gives them.
pub fn lines_exec(v: &[char]) -> (r: Vec<Vec<char>>)
    ensures
        views(r@) == lines(v@),
{
    let mut out: Vec<Vec<char>> = Vec::new();
    let mut start: usize = 0;
    proof {
        assert(v@.skip(0) =~= v@);
    }
    while start < v.len()
        invariant
            start <= v@.len(),
            views(out@) + lines(v@.skip(start as int)) == lines(v@),
        decreases v@.len() - start,
    {
        let ghost rest = v@.skip(start as int);
        let p = char_pos_from(v, '\n', start);
        let piece = slice_vec(v, start, p);
        proof {
            assert(rest.take(p - start) =~= piece@);
        }
        if p < v.len() {
            let line = strip_cr_exec(piece);
            proof {
                assert(rest.skip(p - start + 1) =~= v@.skip(p + 1));
                assert(views(out@.push(line)) =~= views(out@).push(line@));
                assert(views(out@.push(line)) + lines(v@.skip(p + 1)) =~= views(out@) + lines(rest));
            }
            out.push(line);
            start = p + 1;
        } else {
            proof {
                assert(rest =~= piece@);
                assert(views(out@.push(piece)) =~= views(out@).push(piece@));
                assert(views(out@.push(piece)) =~= views(out@) + lines(rest));
                assert(v@.skip(v@.len() as int) =~= Seq::<char>::empty());
            }
            out.push(piece);
            start = v.len();
        }
    }
    proof {
        assert(v@.skip(start as int) =~= Seq::<char>::empty());
        assert(views(out@) + Seq::<Seq<char>>::empty() =~= views(out@));
    }
    out
}

/// Length of the leading run of non-whitespace characters.
pub open spec fn word_len(s: Seq<char>) -> nat
    decreases s.len(),
{
    if s.len() > 0 && !is_ws(s[0]) {
        1 + word_len(s.drop_first())
    } else {
        0
    }
}

pub proof fn lemma_word_len(s: Seq<char>, k: int)
    requires
        0 <= k <= s.len(),
        forall|j: int| 0 <= j < k ==> !is_ws(#[trigger] s[j]),
        k == s.len() || is_ws(s[k]),
    ensures
        word_len(s) == k,
    decreases s.len(),
{
    if k > 0 {
        let t = s.drop_first();
        assert forall|j: int| 0 <= j < k - 1 implies !is_ws(#[trigger] t[j]) by {
            assert(t[j] == s[j + 1]);
        }
        if k - 1 < t.len() {
            assert(t[k - 1] == s[k]);
        }
        lemma_word_len(t, k - 1);
    }
}

pub proof fn lemma_word_len_bound(s: Seq<char>)
    ensures
        word_len(s) <= s.len(),
    decreases s.len(),
{
    if s.len() > 0 && !is_ws(s[0]) {
        lemma_word_len_bound(s.drop_first());
    }
}

/// `str::split_whitespace`: the maximal runs of non-whitespace.
pub open spec fn words(s: Seq<char>) -> Seq<Seq<char>>
    decreases s.len(),
{
    if s.len() == 0 {
        seq![]
    } else if is_ws(s[0]) {
        words(s.drop_first())
    } else {
        proof {
            lemma_word_len_bound(s);
        }
        let w = word_len(s);
        seq![s.take(w as int)] + words(s.skip(w as int))
    }
}

/// The words of `v`, as `str::split_whitespace` gives them.
pub fn words_exec(v: &[char]) -> (r: Vec<Vec<char>>)
    ensures
        views(r@) == words(v@),
{
    let mut out: Vec<Vec<char>> = Vec::new();
    let mut i: usize = 0;
    proof {
        assert(v@.skip(0) =~= v@);
    }
    while i < v.len()
        invariant
            i <= v@.len(),
            views(out@) + words(v@.skip(i as int)) == words(v@),
        decreases v@.len() - i,
    {
        let ghost rest = v@.skip(i as int);
        if is_ws_exec(v[i]) {
            proof {
                assert(rest[0] == v@[i as int]);
                assert(rest.drop_first() =~= v@.skip(i + 1));
            }
            i = i + 1;
        } else {
            let mut j = i + 1;
            while j < v.len() && !is_ws_exec(v[j])
                invariant
                    i < j <= v@.len(),
                    forall|k: int| i <= k < j ==> !is_ws(#[trigger] v@[k]),
                decreases v@.len() - j,
            {
                j = j + 1;
            }
            proof {
                assert forall|k: int| 0 <= k < j - i implies !is_ws(#[trigger] rest[k]) by {
                    assert(rest[k] == v@[k + i]);
                }
                if j < v@.len() {
                    assert(rest[j - i] == v@[j as int]);
                }
                lemma_word_len(rest, j - i);
                assert(rest[0] == v@[i as int]);
            }
            let piece = slice_vec(v, i, j);
            proof {
                assert(rest.take(j - i) =~= piece@);
                assert(rest.skip(j - i) =~= v@.skip(j as int));
                assert(views(out@.push(piece)) =~= views(out@).push(piece@));
                assert(views(out@.push(piece)) + words(v@.skip(j as int)) =~= views(out@) + words(rest));
            }
            out.push(piece);
            i = j;
        }
    }
    proof {
        assert(v@.skip(i as int) =~= Seq::<char>::empty());
        assert(views(out@) + Seq::<Seq<char>>::empty() =~= views(out@));
    }
    out
}

/// Number of leading copies of `c`.
pub open spec fn lead_count(s: Seq<char>, c: char) -> nat
    decreases s.len(),
{
    if s.len() > 0 && s[0] == c {
        1 + lead_count(s.drop_first(), c)
    } else {
        0
    }
}

/// Number of trailing copies of `c`.
pub open spec fn trail_count(s: Seq<char>, c: char) -> nat
    decreases s.len(),
{
    if s.len() > 0 && s.last() == c {
        1 + trail_count(s.drop_last(), c)
    } else {
        0
    }
}

/// `trim_start_matches(c)`.
pub open spec fn trim_start_char(s: Seq<char>, c: char) -> Seq<char> {
    s.skip(lead_count(s, c) as int)
}

/// `trim_end_matches(c)`.
pub open spec fn trim_end_char(s: Seq<char>, c: char) -> Seq<char> {
    s.take(s.len() - trail_count(s, c))
}

pub proof fn lemma_lead_count(s: Seq<char>, c: char, k: int)
    requires
        0 <= k <= s.len(),
        forall|j: int| 0 <= j < k ==> #[trigger] s[j] == c,
        k == s.len() || s[k] != c,
    ensures
        lead_count(s, c) == k,
    decreases s.len(),
{
    if k > 0 {
        let t = s.drop_first();
        assert forall|j: int| 0 <= j < k - 1 implies #[trigger] t[j] == c by {
            assert(t[j] == s[j + 1]);
        }
        if k - 1 < t.len() {
            assert(t[k - 1] == s[k]);
        }
        lemma_lead_count(t, c, k - 1);
    }
}

pub proof fn lemma_trail_count(s: Seq<char>, c: char, k: int)
    requires
        0 <= k <= s.len(),
        forall|j: int| s.len() - k <= j < s.len() ==> #[trigger] s[j] == c,
        k == s.len() || s[s.len() - k - 1] != c,
    ensures
        trail_count(s, c) == k,
    decreases s.len(),
{
    if k > 0 {
        let t = s.drop_last();
        assert(s[s.len() - 1] == c);
        assert forall|j: int| t.len() - (k - 1) <= j < t.len() implies #[trigger] t[j] == c by {
            assert(t[j] == s[j]);
        }
        if k - 1 < t.len() {
            assert(t[t.len() - (k - 1) - 1] == s[s.len() - k - 1]);
        }
        lemma_trail_count(t, c, k - 1);
    }
}

/// `v` without its leading copies of `c`.
pub fn trim_start_char_exec(v: &[char], c: char) -> (r: Vec<char>)
    ensures
        r@ == trim_start_char(v@, c),
{
    let mut i: usize = 0;
    while i < v.len() && v[i] == c
        invariant
            i <= v@.len(),
            forall|j: int| 0 <= j < i ==> #[trigger] v@[j] == c,
        decreases v@.len() - i,
    {
        i = i + 1;
    }
    proof {
        lemma_lead_count(v@, c, i as int);
    }
    let r = slice_vec(v, i, v.len());
    proof {
        assert(r@ =~= trim_start_char(v@, c));
    }
    r
}

/// `v` without its trailing copies of `c`.
pub fn trim_end_char_exec(v: &[char], c: char) -> (r: Vec<char>)
    ensures
        r@ == trim_end_char(v@, c),
{
    let mut k: usize = v.len();
    while k > 0 && v[k - 1] == c
        invariant
            k <= v@.len(),
            forall|j: int| k <= j < v@.len() ==> #[trigger] v@[j] == c,
        decreases k,
    {
        k = k - 1;
    }
    proof {
        lemma_trail_count(v@, c, (v@.len() - k) as int);
    }
    let r = slice_vec(v, 0, k);
    proof {
        assert(r@ =~= trim_end_char(v@, c));
    }
    r
}

/// `str::split_once(c)`: the text before and after the first `c`.
pub open spec fn split_once(s: Seq<char>, c: char) -> Option<(Seq<char>, Seq<char>)> {
    let p = char_pos(s, c);
    if p < s.len() {
        Some((s.take(p as int), s.skip(p + 1int)))
    } else {
        None
    }
}

/// [`split_once`], executable.
pub fn split_once_exec(v: &[char], c: char) -> (r: Option<(Vec<char>, Vec<char>)>)
    ensures
        match r {
            Some((a, b)) => split_once(v@, c) == Some((a@, b@)),
            None => split_once(v@, c) is None,
        },
{
    let p = char_pos_from(v, c, 0);
    proof {
        assert(v@.skip(0) =~= v@);
    }
    if p < v.len() {
        let a = slice_vec(v, 0, p);
        let b = slice_vec(v, p + 1, v.len());
        proof {
            assert(a@ =~= v@.take(p as int));
            assert(b@ =~= v@.skip(p + 1));
        }
        Some((a, b))
    } else {
        None
    }
}

/// `str::strip_prefix`.
pub open spec fn strip_prefix(s: Seq<char>, p: Seq<char>) -> Option<Seq<char>> {
    if crate::text::starts_with(s, p) {
        Some(s.skip(p.len() as int))
    } else {
        None
    }
}

/// [`strip_prefix`], executable.
pub fn strip_prefix_exec(v: &[char], p: &str) -> (r: Option<Vec<char>>)
    ensures
        match r {
            Some(a) => strip_prefix(v@, p@) == Some(a@),
            None => strip_prefix(v@, p@) is None,
        },
{
    let pv = crate::text::chars_of(p);
    if crate::text::starts_with_exec(v, &pv) {
        let a = slice_vec(v, pv.len(), v.len());
        proof {
            assert(a@ =~= v@.skip(p@.len() as int));
        }
        Some(a)
    } else {
        None
    }
}

/// `trim_end_matches(p)` for a non-empty pattern: every trailing copy
/// of `p` removed.
pub open spec fn trim_end_seq(s: Seq<char>, p: Seq<char>) -> Seq<char>
    decreases s.len(),
{
    if p.len() > 0 && crate::text::ends_with(s, p) {
        trim_end_seq(s.take(s.len() - p.len()), p)
    } else {
        s
    }
}

/// [`trim_end_seq`], executable.
pub fn trim_end_seq_exec(v: &[char], p: &str) -> (r: Vec<char>)
    ensures
        r@ == trim_end_seq(v@, p@),
{
    let pv = crate::text::chars_of(p);
    let mut cur = slice_vec(v, 0, v.len());
    proof {
        assert(cur@ =~= v@);
    }
    while pv.len() > 0 && crate::text::ends_with_exec(&cur, &pv)
        invariant
            pv@ == p@,
            trim_end_seq(cur@, p@) == trim_end_seq(v@, p@),
        decreases cur@.len(),
    {
        let next = slice_vec(&cur, 0, cur.len() - pv.len());
        proof {
            assert(next@ =~= cur@.take(cur@.len() - p@.len()));
        }
        cur = next;
    }
    cur
}

} // verus!
