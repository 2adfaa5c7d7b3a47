//! Error classification, retry backoff and the search of a reply for JSON.

use vstd::prelude::*;

use crate::providers::ProviderError;
use crate::text::{
    chars_of, contains, contains_exec, find_from, first_occ_from, is_ws, is_ws_exec, lemma_first_occ_from,
    lemma_first_occ_some, occurs_at,
    occurs_at_exec, slice_vec, string_of, string_views, trim, trim_exec, views,
};

verus! {

/// Delay before the first retry, in seconds.
pub const INITIAL_BACKOFF: u64 = 10;

/// Longest delay between retries, in seconds.
pub const MAX_BACKOFF: u64 = 60;

/// Characters of a reply quoted in a parse-error message.
pub const PARSE_ERROR_PREVIEW_LEN: usize = 2000;

/// The lower-case form of a text, as `str::to_lowercase` gives it.
pub uninterp spec fn lowercase(s: Seq<char>) -> Seq<char>;

/// `str::to_lowercase`: Unicode lower-casing. The contract names the
/// result and claims only that it depends on the text alone.
#[verifier::external_body]
fn to_lowercase(s: &str) -> (r: String)
    ensures
        r@ == lowercase(s@),
{
    s.to_lowercase()
}

/// The short message for a lower-cased API error text, `None` when the
/// error is not a transient one.
pub open spec fn api_error_class(m: Seq<char>) -> Option<Seq<char>> {
    if contains(m, "429"@) || contains(m, "rate limit"@) || contains(m, "too many requests"@) {
        Some("Rate limited by API"@)
    } else if contains(m, "503"@) || contains(m, "service unavailable"@) || contains(m, "high demand"@) {
        Some("High model load"@)
    } else if contains(m, "529"@) || contains(m, "overloaded"@) {
        Some("API overloaded"@)
    } else if contains(m, "502"@) {
        Some("API gateway error"@)
    } else if contains(m, "timeout"@) || contains(m, "timed out"@) {
        Some("Request timed out"@)
    } else if contains(m, "connection"@) {
        Some("Connection error"@)
    } else if contains(m, "temporarily"@) || contains(m, "try again"@) {
        Some("Temporary API error"@)
    } else if contains(m, "malformedfunctioncall"@) || contains(m, "malformed function call"@) {
        Some("Malformed tool call from model"@)
    } else {
        None
    }
}

/// The short message of an error, `None` when it is not transient.
pub open spec fn error_class(e: ProviderError) -> Option<Seq<char>> {
    match e {
        ProviderError::Api(m) => api_error_class(lowercase(m@)),
        ProviderError::Parse(_) => Some("Failed to parse LLM response"@),
        ProviderError::NotConfigured(_) => None,
    }
}

/// The view of an optional string.
pub open spec fn opt_str_view(o: Option<&str>) -> Option<Seq<char>> {
    match o {
        Some(x) => Some(x@),
        None => None,
    }
}

fn has(m: &[char], lit: &str) -> (r: bool)
    ensures
        r == contains(m@, lit@),
{
    contains_exec(m, &chars_of(lit))
}

/// The short message for an API error text that is already lower case.
pub fn classify_api_message(lowered: &str) -> (r: Option<&'static str>)
    ensures
        opt_str_view(r) == api_error_class(lowered@),
{
    let m = chars_of(lowered);
    if has(&m, "429") || has(&m, "rate limit") || has(&m, "too many requests") {
        Some("Rate limited by API")
    } else if has(&m, "503") || has(&m, "service unavailable") || has(&m, "high demand") {
        Some("High model load")
    } else if has(&m, "529") || has(&m, "overloaded") {
        Some("API overloaded")
    } else if has(&m, "502") {
        Some("API gateway error")
    } else if has(&m, "timeout") || has(&m, "timed out") {
        Some("Request timed out")
    } else if has(&m, "connection") {
        Some("Connection error")
    } else if has(&m, "temporarily") || has(&m, "try again") {
        Some("Temporary API error")
    } else if has(&m, "malformedfunctioncall") || has(&m, "malformed function call") {
        Some("Malformed tool call from model")
    } else {
        None
    }
}

/// A short, readable message for a transient error; `None` for one that
/// is not worth retrying.
pub fn classify_error(err: &ProviderError) -> (r: Option<&'static str>)
    ensures
        opt_str_view(r) == error_class(*err),
{
    match err {
        ProviderError::Api(msg) => {
            let m = to_lowercase(msg.as_str());
            classify_api_message(m.as_str())
        },
        ProviderError::Parse(_) => Some("Failed to parse LLM response"),
        ProviderError::NotConfigured(_) => None,
    }
}

/// Whether an error is transient and worth retrying: a parse error never
/// is, as the same prompt tends to give the same malformed reply.
pub fn is_retryable(err: &ProviderError) -> (r: bool)
    ensures
        r == (!(*err is Parse) && error_class(*err) is Some),
{
    match err {
        ProviderError::Parse(_) => false,
        _ => classify_error(err).is_some(),
    }
}

/// `2^n`.
pub open spec fn pow2(n: nat) -> nat
    decreases n,
{
    if n == 0 {
        1
    } else {
        2 * pow2((n - 1) as nat)
    }
}

proof fn lemma_pow2_mono(i: nat, j: nat)
    requires
        i <= j,
    ensures
        pow2(i) <= pow2(j),
    decreases j,
{
    if i < j {
        lemma_pow2_mono(i, (j - 1) as nat);
    }
}

/// The delay before retry `attempt`: the initial delay doubled per
/// attempt, capped at [`MAX_BACKOFF`] (in seconds).
pub open spec fn backoff_secs(attempt: nat) -> nat {
    let v = (INITIAL_BACKOFF as nat) * pow2(attempt);
    if v < MAX_BACKOFF {
        v
    } else {
        MAX_BACKOFF as nat
    }
}

/// Exponential backoff for retry `attempt`, in seconds, capped at
/// [`MAX_BACKOFF`].
pub fn retry_backoff(attempt: u32) -> (r: u64)
    ensures
        r == backoff_secs(attempt as nat),
{
    let mut v: u64 = INITIAL_BACKOFF;
    let mut i: u32 = 0;
    while i < attempt && v < MAX_BACKOFF
        invariant
            i <= attempt,
            v == INITIAL_BACKOFF * pow2(i as nat),
            v < 2 * MAX_BACKOFF,
        decreases attempt - i,
    {
        v = v * 2;
        i = i + 1;
    }
    proof {
        lemma_pow2_mono(i as nat, attempt as nat);
    }
    if v < MAX_BACKOFF {
        v
    } else {
        MAX_BACKOFF
    }
}

/// `i` is the first index of `s` that holds `a` or `b`.
pub open spec fn is_first_of(s: Seq<char>, a: char, b: char, i: int) -> bool {
    0 <= i < s.len() && (s[i] == a || s[i] == b) && forall|j: int| 0 <= j < i ==> s[j] != a && s[j] != b
}

/// The first index of `s` that holds `a` or `b`.
pub open spec fn first_of(s: Seq<char>, a: char, b: char) -> Option<int> {
    if exists|i: int| is_first_of(s, a, b, i) {
        Some(choose|i: int| is_first_of(s, a, b, i))
    } else {
        None
    }
}

/// `i` is the last index of `s` that holds `c`.
pub open spec fn is_last_of(s: Seq<char>, c: char, i: int) -> bool {
    0 <= i < s.len() && s[i] == c && forall|j: int| i < j < s.len() ==> s[j] != c
}

/// The last index of `s` that holds `c`.
pub open spec fn last_of(s: Seq<char>, c: char) -> Option<int> {
    if exists|i: int| is_last_of(s, c, i) {
        Some(choose|i: int| is_last_of(s, c, i))
    } else {
        None
    }
}

fn find_first_of(s: &[char], a: char, b: char) -> (r: Option<usize>)
    ensures
        match r {
            Some(i) => first_of(s@, a, b) == Some(i as int) && i < s@.len(),
            None => first_of(s@, a, b) is None,
        },
{
    let mut i: usize = 0;
    while i < s.len()
        invariant
            i <= s@.len(),
            forall|j: int| 0 <= j < i ==> s@[j] != a && s@[j] != b,
        decreases s@.len() - i,
    {
        if s[i] == a || s[i] == b {
            proof {
                assert(is_first_of(s@, a, b, i as int));
                let c = choose|c: int| is_first_of(s@, a, b, c);
                if c < i {
                    assert(s@[c] != a && s@[c] != b);
                }
                if i < c {
                    assert(s@[i as int] != a && s@[i as int] != b);
                }
            }
            return Some(i);
        }
        i = i + 1;
    }
    None
}

fn find_last_of(s: &[char], c: char) -> (r: Option<usize>)
    ensures
        match r {
            Some(i) => last_of(s@, c) == Some(i as int) && i < s@.len(),
            None => last_of(s@, c) is None,
        },
{
    let mut i: usize = s.len();
    while i > 0
        invariant
            i <= s@.len(),
            forall|j: int| i <= j < s@.len() ==> s@[j] != c,
        decreases i,
    {
        i = i - 1;
        if s[i] == c {
            proof {
                assert(is_last_of(s@, c, i as int));
                let k = choose|k: int| is_last_of(s@, c, k);
                if k < i {
                    assert(s@[i as int] != c);
                }
                if i < k {
                    assert(s@[k] != c);
                }
            }
            return Some(i);
        }
    }
    None
}

/// The JSON-looking span of a reply: from the first `[` or `{` to the last
/// `]` or `}`; when the reply lacks `}`, from the first `[` to the last `]`;
/// when it lacks `]`, from the first `{` to the last `}`.
pub open spec fn bracket_span(t: Seq<char>) -> Option<Seq<char>> {
    let start = first_of(t, '[', '{');
    let end_obj = last_of(t, '}');
    let end_arr = last_of(t, ']');
    let first_arr = first_of(t, '[', '[');
    let first_obj = first_of(t, '{', '{');
    if start is Some && end_obj is Some && end_arr is Some {
        let s = start->0;
        let e = if end_obj->0 > end_arr->0 { end_obj->0 } else { end_arr->0 };
        if s < e { Some(t.subrange(s, e + 1)) } else { None }
    } else if first_arr is Some && end_arr is Some {
        if first_arr->0 < end_arr->0 { Some(t.subrange(first_arr->0, end_arr->0 + 1)) } else { None }
    } else if first_obj is Some && end_obj is Some {
        if first_obj->0 < end_obj->0 { Some(t.subrange(first_obj->0, end_obj->0 + 1)) } else { None }
    } else {
        None
    }
}

fn bracket_span_exec(t: &[char]) -> (r: Option<Vec<char>>)
    ensures
        match r {
            Some(x) => bracket_span(t@) == Some(x@),
            None => bracket_span(t@) is None,
        },
{
    let start = find_first_of(t, '[', '{');
    let end_obj = find_last_of(t, '}');
    let end_arr = find_last_of(t, ']');
    match (start, end_obj, end_arr) {
        (Some(s), Some(eo), Some(ea)) => {
            let e = if eo > ea { eo } else { ea };
            assert(e < t.len());
            if s < e { Some(slice_vec(t, s, e + 1)) } else { None }
        },
        _ => {
            let first_arr = find_first_of(t, '[', '[');
            let first_obj = find_first_of(t, '{', '{');
            match (first_arr, end_arr) {
                (Some(s), Some(e)) => {
                    assert(e < t.len());
                    if s < e { Some(slice_vec(t, s, e + 1)) } else { None }
                },
                _ => match (first_obj, end_obj) {
                    (Some(s), Some(e)) => {
                        assert(e < t.len());
                        if s < e { Some(slice_vec(t, s, e + 1)) } else { None }
                    },
                    _ => None,
                },
            }
        },
    }
}

/// Where the text after an opening fence starts: past an optional `json`
/// language tag.
pub open spec fn fence_body_start(s: Seq<char>, p: int) -> int {
    if occurs_at(s, "json"@, p + 3) {
        p + 7
    } else {
        p + 3
    }
}

/// `k` can hold the newline that ends an opening fence whose text starts
/// at `q`: only whitespace lies between, and a closing fence (a line that
/// starts with three backticks) comes later.
#[verifier::opaque]
pub open spec fn fence_newline_ok(s: Seq<char>, q: int, k: int) -> bool {
    &&& q <= k < s.len()
    &&& forall|j: int| q <= j < k ==> is_ws(#[trigger] s[j])
    &&& s[k] == '\n'
    &&& first_occ_from(s, "\n```"@, k + 1) is Some
}

/// The last such newline: the whitespace before it is taken greedily.
pub open spec fn fence_newline(s: Seq<char>, q: int, k: int) -> bool {
    fence_newline_ok(s, q, k) && forall|k2: int| k < k2 ==> !fence_newline_ok(s, q, k2)
}

/// A fenced block opening at `p`: the start and end of its text. The
/// pattern is three backticks, an optional `json`, whitespace, a newline,
/// the shortest text, then a newline and three backticks.
#[verifier::opaque]
pub open spec fn fence_at(s: Seq<char>, p: int) -> Option<(int, int)> {
    let q = fence_body_start(s, p);
    if occurs_at(s, "```"@, p) && exists|k: int| fence_newline(s, q, k) {
        let k = choose|k: int| fence_newline(s, q, k);
        Some((k + 1, first_occ_from(s, "\n```"@, k + 1)->0))
    } else {
        None
    }
}

/// `p` is the first position from `pos` on where a fenced block opens.
pub open spec fn is_first_fence(s: Seq<char>, pos: int, p: int) -> bool {
    pos <= p && fence_at(s, p) is Some && forall|p2: int| pos <= p2 < p ==> fence_at(s, p2) is None
}

/// The trimmed, non-empty texts of the fenced blocks from `pos` on, each
/// search resuming after the previous block.
#[verifier::opaque]
pub open spec fn fences_from(s: Seq<char>, pos: int) -> Seq<Seq<char>>
    decreases s.len() - pos,
{
    if pos <= s.len() && exists|p: int| is_first_fence(s, pos, p) {
        let p = choose|p: int| is_first_fence(s, pos, p);
        let am = fence_at(s, p)->0;
        let a = am.0;
        let m = am.1;
        let inner = trim(s.subrange(a, m));
        // always the case; it makes the recursion visibly decrease
        if pos < m + 4 <= s.len() {
            let rest = fences_from(s, m + 4);
            if inner.len() > 0 {
                seq![inner] + rest
            } else {
                rest
            }
        } else {
            seq![]
        }
    } else {
        seq![]
    }
}

/// Past the opening fence at `p` comes only whitespace from `q` to `w`,
/// and `w` ends that run.
proof fn lemma_no_newline_past_run(s: Seq<char>, q: int, w: int)
    requires
        q <= w <= s.len(),
        w < s.len() ==> !is_ws(s[w]),
    ensures
        forall|k2: int| w <= k2 ==> !fence_newline_ok(s, q, k2),
{
    reveal(fence_newline_ok);
    assert forall|k2: int| w <= k2 implies !fence_newline_ok(s, q, k2) by {
        if k2 > w && w < s.len() && k2 < s.len() {
            assert(!is_ws(s[w]));
        }
    }
}

proof fn lemma_newline_not_ok(s: Seq<char>, q: int, k: int)
    requires
        0 <= k < s.len(),
        s[k] != '\n' || first_occ_from(s, "\n```"@, k + 1) is None,
    ensures
        !fence_newline_ok(s, q, k),
{
    reveal(fence_newline_ok);
}

proof fn lemma_newline_unique(s: Seq<char>, q: int, k: int, c: int)
    requires
        fence_newline(s, q, k),
        fence_newline(s, q, c),
    ensures
        c == k,
{
    if c < k {
        assert(!fence_newline_ok(s, q, k));
    }
    if k < c {
        assert(!fence_newline_ok(s, q, c));
    }
}

/// The newline at `k` is the one [`fence_at`] picks.
proof fn lemma_fence_found(s: Seq<char>, p: int, q: int, k: int, m: int)
    requires
        occurs_at(s, "```"@, p),
        q == fence_body_start(s, p),
        q <= k < s.len(),
        forall|j: int| q <= j < k ==> is_ws(#[trigger] s[j]),
        s[k] == '\n',
        first_occ_from(s, "\n```"@, k + 1) == Some(m),
        forall|k2: int| k < k2 ==> !fence_newline_ok(s, q, k2),
    ensures
        fence_at(s, p) == Some((k + 1, m)),
{
    assert(fence_newline_ok(s, q, k)) by {
        reveal(fence_newline_ok);
    }
    assert(fence_newline(s, q, k));
    reveal(fence_at);
    let c = choose|c: int| fence_newline(s, q, c);
    lemma_newline_unique(s, q, k, c);
}

/// No newline qualifies: no fence opens at `p`.
proof fn lemma_fence_none(s: Seq<char>, p: int, q: int)
    requires
        q == fence_body_start(s, p),
        forall|k2: int| q <= k2 ==> !fence_newline_ok(s, q, k2),
    ensures
        fence_at(s, p) is None,
{
    reveal(fence_newline_ok);
    reveal(fence_at);
    assert forall|c: int| !fence_newline(s, q, c) by {
        if c >= q {
            assert(!fence_newline_ok(s, q, c));
        }
    }
}

fn fence_at_exec(s: &[char], p: usize) -> (r: Option<(usize, usize)>)
    ensures
        match r {
            Some(am) => fence_at(s@, p as int) == Some((am.0 as int, am.1 as int)),
            None => fence_at(s@, p as int) is None,
        },
{
    let open = chars_of("```");
    if !occurs_at_exec(s, &open, p) {
        proof {
            reveal(fence_at);
        }
        return None;
    }
    proof {
        reveal_strlit("```");
        reveal_strlit("json");
    }
    assert(p + 3 <= s.len());
    let json = chars_of("json");
    let has_json = occurs_at_exec(s, &json, p + 3);
    if has_json {
        assert(p + 7 <= s.len());
    }
    let q = if has_json { p + 7 } else { p + 3 };
    assert(q == fence_body_start(s@, p as int));
    let mut w = q;
    while w < s.len() && is_ws_exec(s[w])
        invariant
            q <= w <= s@.len(),
            forall|j: int| q <= j < w ==> is_ws(#[trigger] s@[j]),
        decreases s@.len() - w,
    {
        w = w + 1;
    }
    proof {
        lemma_no_newline_past_run(s@, q as int, w as int);
    }
    let close = chars_of("\n```");
    let mut k = w;
    while k > q
        invariant
            q <= k <= w <= s@.len(),
            q == fence_body_start(s@, p as int),
            close@ == "\n```"@,
            occurs_at(s@, "```"@, p as int),
            forall|j: int| q <= j < w ==> is_ws(#[trigger] s@[j]),
            forall|k2: int| k <= k2 ==> !fence_newline_ok(s@, q as int, k2),
        decreases k,
    {
        k = k - 1;
        if s[k] == '\n' {
            match find_from(s, &close, k + 1) {
                Some(m) => {
                    proof {
                        lemma_first_occ_from(s@, "\n```"@, k + 1, Some(m as int));
                        lemma_fence_found(s@, p as int, q as int, k as int, m as int);
                    }
                    return Some((k + 1, m));
                },
                None => {
                    proof {
                        lemma_first_occ_from(s@, "\n```"@, k + 1, None);
                        lemma_newline_not_ok(s@, q as int, k as int);
                    }
                },
            }
        } else {
            proof {
                lemma_newline_not_ok(s@, q as int, k as int);
            }
        }
    }
    proof {
        lemma_fence_none(s@, p as int, q as int);
    }
    None
}

proof fn lemma_fence_bounds(s: Seq<char>, p: int)
    requires
        fence_at(s, p) is Some,
    ensures
        ({
            let am = fence_at(s, p)->0;
            p < am.0 <= am.1 && am.1 + 4 <= s.len()
        }),
{
    reveal(fence_at);
    reveal_strlit("\n```");
    let q = fence_body_start(s, p);
    let k = choose|k: int| fence_newline(s, q, k);
    assert(fence_newline(s, q, k));
    assert(q <= k && first_occ_from(s, "\n```"@, k + 1) is Some) by {
        reveal(fence_newline_ok);
    }
    assert(p < q);
    lemma_first_occ_some(s, "\n```"@, k + 1);
    let m = first_occ_from(s, "\n```"@, k + 1)->0;
    assert(k + 1 <= m && occurs_at(s, "\n```"@, m));
}

/// Unfolding [`fences_from`] at the first fence from `pos`.
proof fn lemma_fences_step(s: Seq<char>, pos: int, p: int)
    requires
        0 <= pos <= s.len(),
        is_first_fence(s, pos, p),
    ensures
        ({
            let am = fence_at(s, p)->0;
            let inner = trim(s.subrange(am.0, am.1));
            &&& pos < am.1 + 4 <= s.len()
            &&& fences_from(s, pos) == if inner.len() > 0 {
                seq![inner] + fences_from(s, am.1 + 4)
            } else {
                fences_from(s, am.1 + 4)
            }
        }),
{
    lemma_fence_bounds(s, p);
    reveal(fences_from);
    let c = choose|c: int| is_first_fence(s, pos, c);
    assert(is_first_fence(s, pos, c));
    if c < p {
        assert(fence_at(s, c) is None);
    }
    if p < c {
        assert(fence_at(s, p) is None);
    }
}

/// No fence opens from `pos` on.
proof fn lemma_fences_end(s: Seq<char>, pos: int)
    requires
        0 <= pos,
        forall|p2: int| pos <= p2 < s.len() ==> fence_at(s, p2) is None,
    ensures
        fences_from(s, pos) == Seq::<Seq<char>>::empty(),
{
    reveal(fences_from);
    assert forall|p2: int| !is_first_fence(s, pos, p2) by {
        if pos <= p2 && fence_at(s, p2) is Some {
            lemma_fence_bounds(s, p2);
        }
    }
}

/// The fenced blocks of a text, as [`fences_from`] gives them from the
/// start.
fn fenced_blocks(s: &[char]) -> (r: Vec<Vec<char>>)
    ensures
        views(r@) == fences_from(s@, 0),
{
    let mut out: Vec<Vec<char>> = Vec::new();
    let mut pos: usize = 0;
    let mut p: usize = 0;
    while p < s.len()
        invariant
            pos <= p <= s@.len(),
            views(out@) + fences_from(s@, pos as int) == fences_from(s@, 0),
            forall|p2: int| pos <= p2 < p ==> fence_at(s@, p2) is None,
        decreases s@.len() - p,
    {
        match fence_at_exec(s, p) {
            Some((a, m)) => {
                proof {
                    lemma_fence_bounds(s@, p as int);
                    lemma_fences_step(s@, pos as int, p as int);
                }
                let inner = trim_exec(&slice_vec(s, a, m));
                let ghost before = out@;
                if inner.len() > 0 {
                    out.push(inner);
                    proof {
                        assert(views(out@) =~= views(before) + seq![inner@]);
                    }
                }
                proof {
                    assert(views(out@) + fences_from(s@, m + 4) =~= fences_from(s@, 0));
                }
                pos = m + 4;
                p = pos;
            },
            None => {
                p = p + 1;
            },
        }
    }
    proof {
        lemma_fences_end(s@, pos as int);
        assert(views(out@) =~= views(out@) + Seq::<Seq<char>>::empty());
    }
    out
}

/// The texts a reply is tried as, in order: the whole reply, its
/// bracketed span, then the text of each fenced block.
pub open spec fn json_candidates(t: Seq<char>) -> Seq<Seq<char>> {
    seq![t] + (match bracket_span(t) {
        Some(x) => seq![x],
        None => seq![],
    }) + fences_from(t, 0)
}

/// The texts a reply is tried as when parsing it as JSON.
pub fn extract_json_candidates(text: &str) -> (r: Vec<String>)
    ensures
        string_views(r@) == json_candidates(text@),
{
    let t = chars_of(text);
    let mut out: Vec<String> = Vec::new();
    out.push(string_of(&t));
    match bracket_span_exec(&t) {
        Some(x) => out.push(string_of(&x)),
        None => {},
    }
    let blocks = fenced_blocks(&t);
    let ghost head = string_views(out@);
    let mut i: usize = 0;
    while i < blocks.len()
        invariant
            i <= blocks@.len(),
            views(blocks@) == fences_from(t@, 0),
            string_views(out@) == head + views(blocks@).take(i as int),
        decreases blocks@.len() - i,
    {
        let ghost before = out@;
        out.push(string_of(&blocks[i]));
        i = i + 1;
        proof {
            assert(string_views(out@) =~= string_views(before).push(blocks@[i - 1]@));
            assert(views(blocks@).take(i as int) =~= views(blocks@).take(i - 1).push(blocks@[i - 1]@));
        }
    }
    proof {
        assert(views(blocks@).take(blocks@.len() as int) =~= views(blocks@));
        assert(string_views(out@) =~= json_candidates(text@));
    }
    out
}

/// The message of a blank reply.
pub const EMPTY_REPLY: &'static str = "LLM response was empty";

/// The texts a reply is tried as, or the parse error of a blank reply.
pub fn parse_candidates(response: &str) -> (r: Result<Vec<String>, ProviderError>)
    ensures
        match r {
            Ok(v) => trim(response@).len() > 0 && string_views(v@) == json_candidates(trim(response@)),
            Err(e) => trim(response@).len() == 0 && (e matches ProviderError::Parse(m) && m@ == EMPTY_REPLY@),
        },
{
    let t = trim_exec(&chars_of(response));
    if t.len() == 0 {
        return Err(ProviderError::Parse(String::from_str(EMPTY_REPLY)));
    }
    let ts = string_of(&t);
    Ok(extract_json_candidates(ts.as_str()))
}

/// The message of a reply that no candidate parsed from, as UTF-8 bytes:
/// the reply cut to its first [`PARSE_ERROR_PREVIEW_LEN`] bytes.
pub open spec fn unparseable_message_bytes(response: Seq<char>) -> Seq<u8> {
    let b = crate::providers::agent_loop::utf8(response);
    crate::providers::agent_loop::utf8("could not parse LLM response as JSON. Response: "@) + if b.len()
        > PARSE_ERROR_PREVIEW_LEN {
        b.take(PARSE_ERROR_PREVIEW_LEN as int)
    } else {
        b
    }
}

/// The parse error of a reply that no candidate parsed from.
pub fn unparseable_reply(response: &str) -> (r: ProviderError)
    requires
        crate::providers::agent_loop::utf8(response@).len() > PARSE_ERROR_PREVIEW_LEN
            ==> vstd::utf8::is_char_boundary(crate::providers::agent_loop::utf8(response@), PARSE_ERROR_PREVIEW_LEN as int),
    ensures
        r matches ProviderError::Parse(m) && crate::providers::agent_loop::utf8(m@) == unparseable_message_bytes(response@),
{
    let mut m = String::from_str("could not parse LLM response as JSON. Response: ");
    let ghost prefix = m@;
    if response.as_bytes().len() > PARSE_ERROR_PREVIEW_LEN {
        let (head, _) = response.split_at(PARSE_ERROR_PREVIEW_LEN);
        crate::text::push_str(&mut m, head);
        proof {
            crate::providers::agent_loop::lemma_utf8_concat(prefix, head@);
            assert(crate::providers::agent_loop::utf8(head@) =~= crate::providers::agent_loop::utf8(response@).take(
                PARSE_ERROR_PREVIEW_LEN as int,
            ));
        }
    } else {
        crate::text::push_str(&mut m, response);
        proof {
            crate::providers::agent_loop::lemma_utf8_concat(prefix, response@);
        }
    }
    ProviderError::Parse(m)
}

/// `parse` may give `None` for a text whose view is `c`.
pub open spec fn refused_by<T, F: Fn(&str) -> Option<T>>(parse: F, c: Seq<char>) -> bool {
    exists|s: &str| s@ == c && #[trigger] parse.ensures((s,), None::<T>)
}

/// `parse` may give `v` for a text whose view is `c`.
pub open spec fn gives<T, F: Fn(&str) -> Option<T>>(parse: F, c: Seq<char>, v: T) -> bool {
    exists|s: &str| s@ == c && #[trigger] parse.ensures((s,), Some(v))
}

/// `r` is what parsing `response` with `parse` may give: see
/// [`parse_with_fallbacks`].
pub open spec fn fallback_result<T, F: Fn(&str) -> Option<T>>(response: Seq<char>, parse: F, r: Result<T, ProviderError>) -> bool {
    let cands = json_candidates(trim(response));
    match r {
        Ok(v) => trim(response).len() > 0 && exists|k: int|
            0 <= k < cands.len() && #[trigger] gives(parse, cands[k], v)
                && forall|j: int| 0 <= j < k ==> refused_by(parse, #[trigger] cands[j]),
        Err(e) => if trim(response).len() == 0 {
            e matches ProviderError::Parse(m) && m@ == EMPTY_REPLY@
        } else {
            (forall|j: int| 0 <= j < cands.len() ==> refused_by(parse, #[trigger] cands[j]))
                && (e matches ProviderError::Parse(m) && crate::providers::agent_loop::utf8(m@)
                == unparseable_message_bytes(response))
        },
    }
}

/// Parse a model reply: blank is a parse error; otherwise `parse` is
/// tried on each of [`json_candidates`] of the trimmed reply in order,
/// and the first value it gives is the result. When it gives none, the
/// error quotes the start of the reply.
pub fn parse_with_fallbacks<T, F: Fn(&str) -> Option<T>>(response: &str, parse: F) -> (r: Result<T, ProviderError>)
    requires
        forall|s: &str| #[trigger] parse.requires((s,)),
        crate::providers::agent_loop::utf8(response@).len() > PARSE_ERROR_PREVIEW_LEN
            ==> vstd::utf8::is_char_boundary(crate::providers::agent_loop::utf8(response@), PARSE_ERROR_PREVIEW_LEN as int),
    ensures
        fallback_result(response@, parse, r),
{
    let cands = match parse_candidates(response) {
        Ok(c) => c,
        Err(e) => {
            return Err(e);
        },
    };
    let ghost cs = json_candidates(trim(response@));
    let mut i: usize = 0;
    while i < cands.len()
        invariant
            i <= cands@.len(),
            string_views(cands@) == cs,
            cs == json_candidates(trim(response@)),
            trim(response@).len() > 0,
            crate::providers::agent_loop::utf8(response@).len() > PARSE_ERROR_PREVIEW_LEN
                ==> vstd::utf8::is_char_boundary(crate::providers::agent_loop::utf8(response@), PARSE_ERROR_PREVIEW_LEN as int),
            forall|s: &str| #[trigger] parse.requires((s,)),
            forall|j: int| 0 <= j < i ==> refused_by(parse, #[trigger] cs[j]),
        decreases cands@.len() - i,
    {
        let c = cands[i].as_str();
        let got = parse(c);
        proof {
            assert(cs[i as int] == c@);
        }
        match got {
            Some(v) => {
                proof {
                    assert(parse.ensures((c,), Some(v)));
                    assert(gives(parse, cs[i as int], v));
                }
                let r: Result<T, ProviderError> = Ok(v);
                proof {
                    assert(r matches Ok(w) && w == v);
                    assert(r matches Ok(w) && exists|k: int|
                        0 <= k < cs.len() && #[trigger] gives(parse, cs[k], w) && forall|j: int|
                            0 <= j < k ==> refused_by(parse, #[trigger] cs[j]));
                }
                return r;
            },
            None => {
                proof {
                    assert(parse.ensures((c,), None::<T>));
                    assert(refused_by(parse, cs[i as int]));
                }
            },
        }
        i = i + 1;
    }
    Err(unparseable_reply(response))
}

/// Backoff never shrinks from one attempt to the next and never passes
/// [`MAX_BACKOFF`].
pub proof fn lemma_backoff_monotone_capped(a: nat, b: nat)
    requires
        a <= b,
    ensures
        backoff_secs(a) <= backoff_secs(b),
        backoff_secs(b) <= MAX_BACKOFF,
{
    lemma_pow2_mono(a, b);
}

/// A retryable error always has a short message to show.
pub proof fn lemma_retryable_has_message(e: ProviderError)
    requires
        !(e is Parse) && error_class(e) is Some,
    ensures
        e is Api,
{
}

} // verus!
