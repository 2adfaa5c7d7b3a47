//! Conventional Commits header parser.
//!
//! A subject has the form `type(scope)!: description`: `type` is an ASCII
//! letter followed by letters, digits, `_` or `-`; the parenthesised
//! scope and the `!` are optional; one or more whitespace characters
//! follow the colon, and the description runs to the end of the line.
//! A `BREAKING CHANGE:` (or `BREAKING-CHANGE:`) footer at the start of
//! any body line also marks the commit as breaking.

use vstd::prelude::*;

use crate::models::Conventional;
use crate::text::{
    ascii_lower, ascii_lower_exec, char_pos, char_pos_from, chars_of, is_ascii_alnum,
    is_ascii_alpha, is_ws, is_ws_exec, lead_ws, lemma_lead_ws_char, occurs_at, occurs_at_exec,
    slice_vec, string_of, trim, trim_exec,
};

verus! {

/// Characters allowed after the first one of a commit type.
pub open spec fn is_kind_char(c: char) -> bool {
    is_ascii_alnum(c) || c == '_' || c == '-'
}

/// Length of the leading run of type characters.
pub open spec fn kind_run(s: Seq<char>) -> nat
    decreases s.len(),
{
    if s.len() > 0 && is_kind_char(s[0]) {
        1 + kind_run(s.drop_first())
    } else {
        0
    }
}

pub proof fn lemma_kind_run(s: Seq<char>, k: int)
    requires
        0 <= k <= s.len(),
        forall|j: int| 0 <= j < k ==> is_kind_char(#[trigger] s[j]),
        k == s.len() || !is_kind_char(s[k]),
    ensures
        kind_run(s) == k,
    decreases s.len(),
{
    if k > 0 {
        let t = s.drop_first();
        assert forall|j: int| 0 <= j < k - 1 implies is_kind_char(#[trigger] t[j]) by {
            assert(t[j] == s[j + 1]);
        }
        if k - 1 < t.len() {
            assert(t[k - 1] == s[k]);
        }
        lemma_kind_run(t, k - 1);
    }
}

/// The raw parts `(type, scope, bang, description)` of a header read
/// from `t`, a subject without surrounding whitespace; `None` when `t`
/// is not a Conventional Commits header.
pub open spec fn header_parts(t: Seq<char>) -> Option<(Seq<char>, Option<Seq<char>>, bool, Seq<char>)> {
    let k = kind_run(t);
    if k == 0 || !is_ascii_alpha(t[0]) {
        None
    } else {
        let r1 = t.skip(k as int);
        let has_scope = r1.len() > 0 && r1[0] == '(';
        let q = char_pos(r1.drop_first(), ')');
        if has_scope && (q == 0 || q >= r1.len() - 1) {
            None
        } else {
            let scope = if has_scope { Some(r1.subrange(1, q + 1int)) } else { None };
            let r2 = if has_scope { r1.skip(q + 2int) } else { r1 };
            let bang = r2.len() > 0 && r2[0] == '!';
            let r3 = if bang { r2.drop_first() } else { r2 };
            if r3.len() == 0 || r3[0] != ':' {
                None
            } else {
                let r4 = r3.drop_first();
                let w = lead_ws(r4);
                let d = r4.skip(w as int);
                if w == 0 || d.len() == 0 || d.contains('\n') {
                    None
                } else {
                    Some((t.take(k as int), scope, bang, d))
                }
            }
        }
    }
}

/// A line of `body` starts with a breaking-change footer.
pub open spec fn breaking_footer(body: Seq<char>) -> bool {
    exists|i: int|
        0 <= i <= body.len() && (i == 0 || body[i - 1] == '\n') && (occurs_at(
            body,
            "BREAKING CHANGE:"@,
            i,
        ) || occurs_at(body, "BREAKING-CHANGE:"@, i))
}

/// What `parse` gives for `subject` and `body`: lowercased type, trimmed
/// scope and description, breaking when the header has `!` or the body a
/// breaking-change footer.
pub open spec fn conventional_of(c: Conventional, subject: Seq<char>, body: Seq<char>) -> bool {
    match header_parts(trim(subject)) {
        None => false,
        Some((k, scope, bang, d)) => {
            &&& c.kind@ == ascii_lower(k)
            &&& match (c.scope, scope) {
                (Some(cs), Some(s)) => cs@ == trim(s),
                (None, None) => true,
                _ => false,
            }
            &&& c.breaking == (bang || breaking_footer(body))
            &&& c.description@ == trim(d)
        },
    }
}

/// The view of an optional character vector.
/// What `parse` gives is normalised: the type is already lower-case, the
/// description is non-empty and already trimmed (and the scope, when
/// present, trimmed).
pub proof fn lemma_parse_normalises(c: Conventional, subject: Seq<char>, body: Seq<char>)
    requires
        conventional_of(c, subject, body),
    ensures
        ascii_lower(c.kind@) == c.kind@,
        c.description@.len() > 0,
        trim(c.description@) == c.description@,
        c.scope matches Some(s) ==> trim(s@) == s@,
{
    let t = trim(subject);
    let (k, scope, bang, d) = header_parts(t)->0;
    let r1 = t.skip(kind_run(t) as int);
    let has_scope = r1.len() > 0 && r1[0] == '(';
    let q = char_pos(r1.drop_first(), ')');
    let r2 = if has_scope { r1.skip(q + 2int) } else { r1 };
    let bang2 = r2.len() > 0 && r2[0] == '!';
    let r3 = if bang2 { r2.drop_first() } else { r2 };
    let r4 = r3.drop_first();
    crate::text::lemma_lead_ws_bound(r4);
    assert(d == r4.skip(lead_ws(r4) as int));
    assert(d[0] == r4[lead_ws(r4) as int]);
    crate::text::lemma_trim_nonempty(d);
    crate::text::lemma_trim_idempotent(d);
    crate::text::lemma_ascii_lower_idempotent(k);
    match (c.scope, scope) {
        (Some(cs), Some(sc)) => {
            crate::text::lemma_trim_idempotent(sc);
        },
        _ => {},
    }
}

pub open spec fn opt_view(o: Option<Vec<char>>) -> Option<Seq<char>> {
    match o {
        Some(v) => Some(v@),
        None => None,
    }
}

/// Split a trimmed subject into its header parts.
#[verifier::rlimit(40)]
fn header_exec(t: &Vec<char>) -> (r: Option<(Vec<char>, Option<Vec<char>>, bool, Vec<char>)>)
    ensures
        match r {
            None => header_parts(t@) is None,
            Some(x) => header_parts(t@) == Some((x.0@, opt_view(x.1), x.2, x.3@)),
        },
{
    let ghost ts = t@;
    let n = t.len();
    if n == 0 || !(('a' <= t[0] && t[0] <= 'z') || ('A' <= t[0] && t[0] <= 'Z')) {
        return None;
    }
    let mut k: usize = 1;
    while k < n && (('a' <= t[k] && t[k] <= 'z') || ('A' <= t[k] && t[k] <= 'Z') || ('0' <= t[k]
        && t[k] <= '9') || t[k] == '_' || t[k] == '-')
        invariant
            1 <= k <= n == ts.len(),
            ts == t@,
            is_ascii_alpha(ts[0]),
            forall|j: int| 0 <= j < k ==> is_kind_char(#[trigger] ts[j]),
        decreases n - k,
    {
        k = k + 1;
    }
    proof {
        lemma_kind_run(ts, k as int);
    }
    let ghost r1 = ts.skip(k as int);
    let mut i: usize = k;
    let has_scope = i < n && t[i] == '(';
    let mut scope: Option<Vec<char>> = None;
    if has_scope {
        let q = char_pos_from(t, ')', i + 1);
        proof {
            assert(r1.drop_first() =~= ts.skip(i + 1));
        }
        if q == i + 1 || q == n {
            return None;
        }
        scope = Some(slice_vec(t, i + 1, q));
        proof {
            assert(r1.subrange(1, (q - (i + 1)) + 1) =~= ts.subrange(i + 1, q as int));
            assert(r1.skip((q - (i + 1)) + 2) =~= ts.skip(q + 1));
        }
        i = q + 1;
    }
    let ghost r2 = ts.skip(i as int);
    proof {
        if !has_scope {
            assert(r2 =~= r1);
        }
    }
    let bang = i < n && t[i] == '!';
    if bang {
        i = i + 1;
        proof {
            assert(r2.drop_first() =~= ts.skip(i as int));
        }
    }
    let ghost r3 = ts.skip(i as int);
    if i >= n || t[i] != ':' {
        return None;
    }
    i = i + 1;
    let ghost r4 = ts.skip(i as int);
    proof {
        assert(r3.drop_first() =~= r4);
    }
    let j = skip_ws_from(t, i);
    proof {
        assert(r4.skip(j - i) =~= ts.skip(j as int));
    }
    if j == i || j == n {
        return None;
    }
    let p = char_pos_from(t, '\n', j);
    proof {
        let d = ts.skip(j as int);
        crate::text::lemma_char_pos(d, '\n');
        if p < n {
            assert(d[p - j] == '\n');
        } else {
            assert forall|m: int| 0 <= m < d.len() implies d[m] != '\n' by {
                assert(d[m] == ts[m + j]);
            }
        }
    }
    if p < n {
        return None;
    }
    let desc = slice_vec(t, j, n);
    let kind_chars = slice_vec(t, 0, k);
    proof {
        assert(desc@ =~= ts.skip(j as int));
        assert(kind_chars@ =~= ts.take(k as int));
    }
    Some((kind_chars, scope, bang, desc))
}

/// First index at or after `i` that is not whitespace, or `t.len()`;
/// the run between is `lead_ws` of the rest.
fn skip_ws_from(t: &Vec<char>, i: usize) -> (j: usize)
    requires
        i <= t@.len(),
    ensures
        i <= j <= t@.len(),
        j - i == lead_ws(t@.skip(i as int)),
{
    let n = t.len();
    let mut j: usize = i;
    while j < n && is_ws_exec(t[j])
        invariant
            i <= j <= n == t@.len(),
            forall|m: int| i <= m < j ==> is_ws(#[trigger] t@[m]),
        decreases n - j,
    {
        j = j + 1;
    }
    proof {
        let r4 = t@.skip(i as int);
        assert forall|m: int| 0 <= m < j - i implies is_ws(#[trigger] r4[m]) by {
            assert(r4[m] == t@[m + i]);
        }
        if j < n {
            assert(r4[j - i] == t@[j as int]);
        }
        lemma_lead_ws_char(r4, j - i);
    }
    j
}

/// Parse a commit subject (and body, for the footer) as a Conventional
/// Commits header; `None` when the trimmed subject is not one.
pub fn parse(subject: &str, body: &str) -> (r: Option<Conventional>)
    ensures
        r is None <==> header_parts(trim(subject@)) is None,
        r matches Some(c) ==> conventional_of(c, subject@, body@),
{
    let v = chars_of(subject);
    let t = trim_exec(&v);
    match header_exec(&t) {
        None => None,
        Some((kind_chars, scope, bang, desc)) => {
            let kind = string_of(&ascii_lower_exec(&kind_chars));
            let scope_s: Option<String> = match scope {
                Some(sv) => Some(string_of(&trim_exec(&sv))),
                None => None,
            };
            let description = string_of(&trim_exec(&desc));
            let footer = has_breaking_footer(body);
            Some(Conventional { kind, scope: scope_s, breaking: bang || footer, description })
        },
    }
}

/// Whether some line of `body` starts with `BREAKING CHANGE:` or
/// `BREAKING-CHANGE:`.
pub fn has_breaking_footer(body: &str) -> (r: bool)
    ensures
        r == breaking_footer(body@),
{
    let b = chars_of(body);
    let p1 = chars_of("BREAKING CHANGE:");
    let p2 = chars_of("BREAKING-CHANGE:");
    let mut i: usize = 0;
    while i < b.len()
        invariant
            i <= b@.len(),
            b@ == body@,
            p1@ == "BREAKING CHANGE:"@,
            p2@ == "BREAKING-CHANGE:"@,
            forall|m: int|
                0 <= m < i ==> !((m == 0 || b@[m - 1] == '\n') && (occurs_at(b@, p1@, m) || occurs_at(
                    b@,
                    p2@,
                    m,
                ))),
        decreases b@.len() - i,
    {
        if (i == 0 || b[i - 1] == '\n') && (occurs_at_exec(&b, &p1, i) || occurs_at_exec(&b, &p2, i)) {
            return true;
        }
        i = i + 1;
    }
    proof {
        reveal_strlit("BREAKING CHANGE:");
        reveal_strlit("BREAKING-CHANGE:");
        assert(!occurs_at(b@, p1@, b@.len() as int));
        assert(!occurs_at(b@, p2@, b@.len() as int));
    }
    false
}

} // verus!
