//! Character-sequence helpers shared by the parsers and renderers.
//!
//! Strings are reasoned about through their `Seq<char>` view. The spec
//! functions here mirror the std semantics the rest of the crate relies
//! on (Unicode whitespace trimming, prefix/suffix tests, substring
//! search) and each has an executable counterpart proved against it.

use vstd::prelude::*;

verus! {

/// Unicode `White_Space`, the set `str::trim` and `split_whitespace` use.
pub open spec fn is_ws(c: char) -> bool {
    ||| c == ' '
    ||| ('\t' <= c && c <= '\r')
    ||| c == '\u{85}'
    ||| c == '\u{A0}'
    ||| c == '\u{1680}'
    ||| ('\u{2000}' <= c && c <= '\u{200A}')
    ||| c == '\u{2028}'
    ||| c == '\u{2029}'
    ||| c == '\u{202F}'
    ||| c == '\u{205F}'
    ||| c == '\u{3000}'
}

pub fn is_ws_exec(c: char) -> (r: bool)
    ensures
        r == is_ws(c),
{
    c == ' ' || ('\t' <= c && c <= '\r') || c == '\u{85}' || c == '\u{A0}' || c == '\u{1680}' || (
    '\u{2000}' <= c && c <= '\u{200A}') || c == '\u{2028}' || c == '\u{2029}' || c == '\u{202F}'
        || c == '\u{205F}' || c == '\u{3000}'
}

/// Number of leading whitespace characters.
pub open spec fn lead_ws(s: Seq<char>) -> nat
    decreases s.len(),
{
    if s.len() > 0 && is_ws(s[0]) {
        1 + lead_ws(s.drop_first())
    } else {
        0
    }
}

/// Number of trailing whitespace characters.
pub open spec fn trail_ws(s: Seq<char>) -> nat
    decreases s.len(),
{
    if s.len() > 0 && is_ws(s.last()) {
        1 + trail_ws(s.drop_last())
    } else {
        0
    }
}

pub open spec fn trim_start(s: Seq<char>) -> Seq<char> {
    s.skip(lead_ws(s) as int)
}

pub open spec fn trim_end(s: Seq<char>) -> Seq<char> {
    s.take(s.len() - trail_ws(s))
}

pub open spec fn trim(s: Seq<char>) -> Seq<char> {
    trim_end(trim_start(s))
}

pub proof fn lemma_lead_ws_bound(s: Seq<char>)
    ensures
        lead_ws(s) <= s.len(),
        forall|j: int| 0 <= j < lead_ws(s) ==> is_ws(#[trigger] s[j]),
        lead_ws(s) < s.len() ==> !is_ws(s[lead_ws(s) as int]),
    decreases s.len(),
{
    if s.len() > 0 && is_ws(s[0]) {
        lemma_lead_ws_bound(s.drop_first());
        assert forall|j: int| 0 <= j < lead_ws(s) implies is_ws(#[trigger] s[j]) by {
            if j > 0 {
                assert(s[j] == s.drop_first()[j - 1]);
            }
        }
        if lead_ws(s) < s.len() {
            assert(s[lead_ws(s) as int] == s.drop_first()[lead_ws(s.drop_first()) as int]);
        }
    }
}

pub proof fn lemma_lead_ws_char(s: Seq<char>, k: int)
    requires
        0 <= k <= s.len(),
        forall|j: int| 0 <= j < k ==> is_ws(#[trigger] s[j]),
        k == s.len() || !is_ws(s[k]),
    ensures
        lead_ws(s) == k,
    decreases s.len(),
{
    if k > 0 {
        let t = s.drop_first();
        assert forall|j: int| 0 <= j < k - 1 implies is_ws(#[trigger] t[j]) by {
            assert(t[j] == s[j + 1]);
        }
        if k - 1 < t.len() {
            assert(t[k - 1] == s[k]);
        }
        lemma_lead_ws_char(t, k - 1);
    }
}

pub proof fn lemma_trail_ws_bound(s: Seq<char>)
    ensures
        trail_ws(s) <= s.len(),
        forall|j: int| s.len() - trail_ws(s) <= j < s.len() ==> is_ws(#[trigger] s[j]),
        trail_ws(s) < s.len() ==> !is_ws(s[s.len() - trail_ws(s) - 1]),
    decreases s.len(),
{
    if s.len() > 0 && is_ws(s.last()) {
        let t = s.drop_last();
        lemma_trail_ws_bound(t);
        assert forall|j: int| s.len() - trail_ws(s) <= j < s.len() implies is_ws(#[trigger] s[j]) by {
            if j < s.len() - 1 {
                assert(s[j] == t[j]);
            }
        }
        if trail_ws(s) < s.len() {
            assert(s[s.len() - trail_ws(s) - 1] == t[t.len() - trail_ws(t) - 1]);
        }
    }
}

pub proof fn lemma_trail_ws_char(s: Seq<char>, k: int)
    requires
        0 <= k <= s.len(),
        forall|j: int| s.len() - k <= j < s.len() ==> is_ws(#[trigger] s[j]),
        k == s.len() || !is_ws(s[s.len() - k - 1]),
    ensures
        trail_ws(s) == k,
    decreases s.len(),
{
    if k > 0 {
        let t = s.drop_last();
        assert(is_ws(s[s.len() - 1]));
        assert forall|j: int| t.len() - (k - 1) <= j < t.len() implies is_ws(#[trigger] t[j]) by {
            assert(t[j] == s[j]);
        }
        if k - 1 < t.len() {
            assert(t[t.len() - (k - 1) - 1] == s[s.len() - k - 1]);
        }
        lemma_trail_ws_char(t, k - 1);
    }
}

/// Trimming is idempotent, and a non-empty trimmed text starts and ends
/// with a non-whitespace character.
pub proof fn lemma_trim_idempotent(s: Seq<char>)
    ensures
        trim(trim(s)) == trim(s),
        trim(s).len() > 0 ==> !is_ws(trim(s)[0]) && !is_ws(trim(s).last()),
{
    let u = trim_start(s);
    lemma_lead_ws_bound(s);
    lemma_trail_ws_bound(u);
    let t = trim(s);
    if t.len() > 0 {
        assert(t[0] == u[0]);
        assert(u[0] == s[lead_ws(s) as int]);
        assert(t.last() == u[u.len() - trail_ws(u) - 1]);
        lemma_lead_ws_char(t, 0);
        lemma_trail_ws_char(t, 0);
        assert(trim_start(t) =~= t);
        assert(trim_end(t) =~= t);
    } else {
        assert(trim_start(t) =~= t);
        assert(trim_end(t) =~= t);
    }
}

/// A text that starts with a non-whitespace character trims to a
/// non-empty text.
pub proof fn lemma_trim_nonempty(s: Seq<char>)
    requires
        s.len() > 0,
        !is_ws(s[0]),
    ensures
        trim(s).len() > 0,
{
    lemma_lead_ws_char(s, 0);
    assert(trim_start(s) =~= s);
    lemma_trail_ws_bound(s);
    if trail_ws(s) == s.len() {
        assert(is_ws(s[0]));
    }
}

/// ASCII lower-casing is idempotent.
pub proof fn lemma_ascii_lower_idempotent(s: Seq<char>)
    ensures
        ascii_lower(ascii_lower(s)) == ascii_lower(s),
{
    assert forall|i: int| 0 <= i < s.len() implies lower_char(lower_char(s[i])) == lower_char(s[i]) by {
        let c = s[i];
        if 'A' <= c && c <= 'Z' {
            assert(((c as u32) + 32) as char as u32 == (c as u32) + 32);
        }
    }
    assert(ascii_lower(ascii_lower(s)) =~= ascii_lower(s));
}

/// ASCII lower-casing keeps whitespace where it is, so it commutes with
/// trimming.
pub proof fn lemma_trim_ascii_lower(s: Seq<char>)
    ensures
        trim(ascii_lower(s)) == ascii_lower(trim(s)),
{
    let l = ascii_lower(s);
    assert forall|i: int| 0 <= i < s.len() implies is_ws(#[trigger] l[i]) == is_ws(s[i]) by {
        let c = s[i];
        if 'A' <= c && c <= 'Z' {
            assert(((c as u32) + 32) as char as u32 == (c as u32) + 32);
        }
    }
    lemma_lead_ws_bound(s);
    lemma_lead_ws_char(l, lead_ws(s) as int);
    let u = trim_start(s);
    let lu = trim_start(l);
    assert(lu =~= ascii_lower(u));
    let al = ascii_lower(u);
    assert forall|i: int| 0 <= i < u.len() implies is_ws(#[trigger] al[i]) == is_ws(u[i]) by {
        assert(u[i] == s[i + lead_ws(s)]);
        assert(al[i] == l[i + lead_ws(s)]);
    }
    lemma_trail_ws_bound(u);
    lemma_trail_ws_char(al, trail_ws(u) as int);
    assert(trim_end(al) =~= ascii_lower(trim_end(u)));
}

/// Text already trimmed and lower-cased is left as it is by trimming and
/// lower-casing.
pub proof fn lemma_lower_trim_normal(s: Seq<char>)
    ensures
        ascii_lower(trim(ascii_lower(trim(s)))) == ascii_lower(trim(s)),
{
    lemma_trim_ascii_lower(trim(s));
    lemma_trim_idempotent(s);
    lemma_ascii_lower_idempotent(trim(s));
}

/// No character of `s` is whitespace or an upper-case ASCII letter.
pub open spec fn all_plain(s: Seq<char>) -> bool
    decreases s.len(),
{
    s.len() == 0 || (!is_ws(s[0]) && !('A' <= s[0] && s[0] <= 'Z') && all_plain(s.drop_first()))
}

proof fn lemma_all_plain(s: Seq<char>)
    requires
        all_plain(s),
    ensures
        forall|i: int| 0 <= i < s.len() ==> !is_ws(#[trigger] s[i]) && !('A' <= s[i] && s[i] <= 'Z'),
    decreases s.len(),
{
    if s.len() > 0 {
        lemma_all_plain(s.drop_first());
        assert forall|i: int| 0 <= i < s.len() implies !is_ws(#[trigger] s[i]) && !('A' <= s[i] && s[i] <= 'Z') by {
            if i > 0 {
                assert(s[i] == s.drop_first()[i - 1]);
            }
        }
    }
}

/// A text with no whitespace and no upper-case ASCII letter is left as it
/// is by trimming and lower-casing.
pub proof fn lemma_lower_trim_fixed(s: Seq<char>)
    requires
        all_plain(s),
    ensures
        ascii_lower(trim(s)) == s,
{
    lemma_all_plain(s);
    if s.len() > 0 {
        lemma_lead_ws_char(s, 0);
        lemma_trail_ws_char(s, 0);
    }
    assert(trim_start(s) =~= s);
    assert(trim(s) =~= s);
    assert(ascii_lower(s) =~= s);
}

/// Characters of a string slice, in order.
pub fn chars_of(s: &str) -> (v: Vec<char>)
    ensures
        v@ == s@,
{
    let mut v: Vec<char> = Vec::new();
    for c in it: s.chars()
        invariant
            it.seq() == s@,
            v@ == s@.take(it.index()),
    {
        proof {
            assert(s@.take(it.index() + 1) =~= s@.take(it.index()).push(c));
        }
        v.push(c);
    }
    proof {
        assert(s@.take(s@.len() as int) =~= s@);
    }
    v
}

/// A `String` holding exactly the given characters.
pub fn string_of(v: &[char]) -> (s: String)
    ensures
        s@ == v@,
{
    let mut out = String::new();
    let mut i: usize = 0;
    while i < v.len()
        invariant
            i <= v@.len(),
            out@ == v@.take(i as int),
        decreases v@.len() - i,
    {
        push_char(&mut out, v[i]);
        i = i + 1;
        proof {
            assert(out@ =~= v@.take(i as int));
        }
    }
    proof {
        assert(v@.take(v@.len() as int) =~= v@);
    }
    out
}

/// Index range `[lo, hi)` of `v` that `trim` keeps.
pub fn trim_range(v: &[char]) -> (r: (usize, usize))
    ensures
        r.0 <= r.1 <= v@.len(),
        v@.subrange(r.0 as int, r.1 as int) == trim(v@),
{
    let n = v.len();
    let mut lo: usize = 0;
    while lo < n && is_ws_exec(v[lo])
        invariant
            lo <= n == v@.len(),
            forall|j: int| 0 <= j < lo ==> is_ws(#[trigger] v@[j]),
        decreases n - lo,
    {
        lo = lo + 1;
    }
    proof {
        lemma_lead_ws_char(v@, lo as int);
    }
    let ghost t = v@.skip(lo as int);
    let mut hi: usize = n;
    while hi > lo && is_ws_exec(v[hi - 1])
        invariant
            lo <= hi <= n == v@.len(),
            t == v@.skip(lo as int),
            forall|j: int| hi <= j < n ==> is_ws(#[trigger] v@[j]),
        decreases hi - lo,
    {
        hi = hi - 1;
    }
    proof {
        assert forall|j: int| t.len() - (n - hi) <= j < t.len() implies is_ws(#[trigger] t[j]) by {
            assert(t[j] == v@[j + lo]);
        }
        if n - hi < t.len() {
            assert(t[t.len() - (n - hi) - 1] == v@[hi - 1]);
        }
        lemma_trail_ws_char(t, (n - hi) as int);
        assert(v@.subrange(lo as int, hi as int) =~= trim(v@));
    }
    (lo, hi)
}


pub open spec fn is_ascii_digit(c: char) -> bool {
    '0' <= c && c <= '9'
}

pub open spec fn is_ascii_alpha(c: char) -> bool {
    ('a' <= c && c <= 'z') || ('A' <= c && c <= 'Z')
}

pub open spec fn is_ascii_alnum(c: char) -> bool {
    is_ascii_alpha(c) || is_ascii_digit(c)
}

pub open spec fn is_hex_digit(c: char) -> bool {
    is_ascii_digit(c) || ('a' <= c && c <= 'f') || ('A' <= c && c <= 'F')
}

/// Unicode `Nd` (decimal number), the class `\d` denotes in a Unicode regex.
pub open spec fn is_unicode_digit(c: char) -> bool {
    ||| ('\u{30}' <= c && c <= '\u{39}')
    ||| ('\u{660}' <= c && c <= '\u{669}')
    ||| ('\u{6F0}' <= c && c <= '\u{6F9}')
    ||| ('\u{7C0}' <= c && c <= '\u{7C9}')
    ||| ('\u{966}' <= c && c <= '\u{96F}')
    ||| ('\u{9E6}' <= c && c <= '\u{9EF}')
    ||| ('\u{A66}' <= c && c <= '\u{A6F}')
    ||| ('\u{AE6}' <= c && c <= '\u{AEF}')
    ||| ('\u{B66}' <= c && c <= '\u{B6F}')
    ||| ('\u{BE6}' <= c && c <= '\u{BEF}')
    ||| ('\u{C66}' <= c && c <= '\u{C6F}')
    ||| ('\u{CE6}' <= c && c <= '\u{CEF}')
    ||| ('\u{D66}' <= c && c <= '\u{D6F}')
    ||| ('\u{DE6}' <= c && c <= '\u{DEF}')
    ||| ('\u{E50}' <= c && c <= '\u{E59}')
    ||| ('\u{ED0}' <= c && c <= '\u{ED9}')
    ||| ('\u{F20}' <= c && c <= '\u{F29}')
    ||| ('\u{1040}' <= c && c <= '\u{1049}')
    ||| ('\u{1090}' <= c && c <= '\u{1099}')
    ||| ('\u{17E0}' <= c && c <= '\u{17E9}')
    ||| ('\u{1810}' <= c && c <= '\u{1819}')
    ||| ('\u{1946}' <= c && c <= '\u{194F}')
    ||| ('\u{19D0}' <= c && c <= '\u{19D9}')
    ||| ('\u{1A80}' <= c && c <= '\u{1A89}')
    ||| ('\u{1A90}' <= c && c <= '\u{1A99}')
    ||| ('\u{1B50}' <= c && c <= '\u{1B59}')
    ||| ('\u{1BB0}' <= c && c <= '\u{1BB9}')
    ||| ('\u{1C40}' <= c && c <= '\u{1C49}')
    ||| ('\u{1C50}' <= c && c <= '\u{1C59}')
    ||| ('\u{A620}' <= c && c <= '\u{A629}')
    ||| ('\u{A8D0}' <= c && c <= '\u{A8D9}')
    ||| ('\u{A900}' <= c && c <= '\u{A909}')
    ||| ('\u{A9D0}' <= c && c <= '\u{A9D9}')
    ||| ('\u{A9F0}' <= c && c <= '\u{A9F9}')
    ||| ('\u{AA50}' <= c && c <= '\u{AA59}')
    ||| ('\u{ABF0}' <= c && c <= '\u{ABF9}')
    ||| ('\u{FF10}' <= c && c <= '\u{FF19}')
    ||| ('\u{104A0}' <= c && c <= '\u{104A9}')
    ||| ('\u{10D30}' <= c && c <= '\u{10D39}')
    ||| ('\u{10D40}' <= c && c <= '\u{10D49}')
    ||| ('\u{11066}' <= c && c <= '\u{1106F}')
    ||| ('\u{110F0}' <= c && c <= '\u{110F9}')
    ||| ('\u{11136}' <= c && c <= '\u{1113F}')
    ||| ('\u{111D0}' <= c && c <= '\u{111D9}')
    ||| ('\u{112F0}' <= c && c <= '\u{112F9}')
    ||| ('\u{11450}' <= c && c <= '\u{11459}')
    ||| ('\u{114D0}' <= c && c <= '\u{114D9}')
    ||| ('\u{11650}' <= c && c <= '\u{11659}')
    ||| ('\u{116C0}' <= c && c <= '\u{116C9}')
    ||| ('\u{116D0}' <= c && c <= '\u{116E3}')
    ||| ('\u{11730}' <= c && c <= '\u{11739}')
    ||| ('\u{118E0}' <= c && c <= '\u{118E9}')
    ||| ('\u{11950}' <= c && c <= '\u{11959}')
    ||| ('\u{11BF0}' <= c && c <= '\u{11BF9}')
    ||| ('\u{11C50}' <= c && c <= '\u{11C59}')
    ||| ('\u{11D50}' <= c && c <= '\u{11D59}')
    ||| ('\u{11DA0}' <= c && c <= '\u{11DA9}')
    ||| ('\u{11F50}' <= c && c <= '\u{11F59}')
    ||| ('\u{16130}' <= c && c <= '\u{16139}')
    ||| ('\u{16A60}' <= c && c <= '\u{16A69}')
    ||| ('\u{16AC0}' <= c && c <= '\u{16AC9}')
    ||| ('\u{16B50}' <= c && c <= '\u{16B59}')
    ||| ('\u{16D70}' <= c && c <= '\u{16D79}')
    ||| ('\u{1CCF0}' <= c && c <= '\u{1CCF9}')
    ||| ('\u{1D7CE}' <= c && c <= '\u{1D7FF}')
    ||| ('\u{1E140}' <= c && c <= '\u{1E149}')
    ||| ('\u{1E2F0}' <= c && c <= '\u{1E2F9}')
    ||| ('\u{1E4F0}' <= c && c <= '\u{1E4F9}')
    ||| ('\u{1E5F1}' <= c && c <= '\u{1E5FA}')
    ||| ('\u{1E950}' <= c && c <= '\u{1E959}')
    ||| ('\u{1FBF0}' <= c && c <= '\u{1FBF9}')
}

pub fn is_unicode_digit_exec(c: char) -> (r: bool)
    ensures
        r == is_unicode_digit(c),
{
    ('\u{30}' <= c && c <= '\u{39}') ||
        ('\u{660}' <= c && c <= '\u{669}') ||
        ('\u{6F0}' <= c && c <= '\u{6F9}') ||
        ('\u{7C0}' <= c && c <= '\u{7C9}') ||
        ('\u{966}' <= c && c <= '\u{96F}') ||
        ('\u{9E6}' <= c && c <= '\u{9EF}') ||
        ('\u{A66}' <= c && c <= '\u{A6F}') ||
        ('\u{AE6}' <= c && c <= '\u{AEF}') ||
        ('\u{B66}' <= c && c <= '\u{B6F}') ||
        ('\u{BE6}' <= c && c <= '\u{BEF}') ||
        ('\u{C66}' <= c && c <= '\u{C6F}') ||
        ('\u{CE6}' <= c && c <= '\u{CEF}') ||
        ('\u{D66}' <= c && c <= '\u{D6F}') ||
        ('\u{DE6}' <= c && c <= '\u{DEF}') ||
        ('\u{E50}' <= c && c <= '\u{E59}') ||
        ('\u{ED0}' <= c && c <= '\u{ED9}') ||
        ('\u{F20}' <= c && c <= '\u{F29}') ||
        ('\u{1040}' <= c && c <= '\u{1049}') ||
        ('\u{1090}' <= c && c <= '\u{1099}') ||
        ('\u{17E0}' <= c && c <= '\u{17E9}') ||
        ('\u{1810}' <= c && c <= '\u{1819}') ||
        ('\u{1946}' <= c && c <= '\u{194F}') ||
        ('\u{19D0}' <= c && c <= '\u{19D9}') ||
        ('\u{1A80}' <= c && c <= '\u{1A89}') ||
        ('\u{1A90}' <= c && c <= '\u{1A99}') ||
        ('\u{1B50}' <= c && c <= '\u{1B59}') ||
        ('\u{1BB0}' <= c && c <= '\u{1BB9}') ||
        ('\u{1C40}' <= c && c <= '\u{1C49}') ||
        ('\u{1C50}' <= c && c <= '\u{1C59}') ||
        ('\u{A620}' <= c && c <= '\u{A629}') ||
        ('\u{A8D0}' <= c && c <= '\u{A8D9}') ||
        ('\u{A900}' <= c && c <= '\u{A909}') ||
        ('\u{A9D0}' <= c && c <= '\u{A9D9}') ||
        ('\u{A9F0}' <= c && c <= '\u{A9F9}') ||
        ('\u{AA50}' <= c && c <= '\u{AA59}') ||
        ('\u{ABF0}' <= c && c <= '\u{ABF9}') ||
        ('\u{FF10}' <= c && c <= '\u{FF19}') ||
        ('\u{104A0}' <= c && c <= '\u{104A9}') ||
        ('\u{10D30}' <= c && c <= '\u{10D39}') ||
        ('\u{10D40}' <= c && c <= '\u{10D49}') ||
        ('\u{11066}' <= c && c <= '\u{1106F}') ||
        ('\u{110F0}' <= c && c <= '\u{110F9}') ||
        ('\u{11136}' <= c && c <= '\u{1113F}') ||
        ('\u{111D0}' <= c && c <= '\u{111D9}') ||
        ('\u{112F0}' <= c && c <= '\u{112F9}') ||
        ('\u{11450}' <= c && c <= '\u{11459}') ||
        ('\u{114D0}' <= c && c <= '\u{114D9}') ||
        ('\u{11650}' <= c && c <= '\u{11659}') ||
        ('\u{116C0}' <= c && c <= '\u{116C9}') ||
        ('\u{116D0}' <= c && c <= '\u{116E3}') ||
        ('\u{11730}' <= c && c <= '\u{11739}') ||
        ('\u{118E0}' <= c && c <= '\u{118E9}') ||
        ('\u{11950}' <= c && c <= '\u{11959}') ||
        ('\u{11BF0}' <= c && c <= '\u{11BF9}') ||
        ('\u{11C50}' <= c && c <= '\u{11C59}') ||
        ('\u{11D50}' <= c && c <= '\u{11D59}') ||
        ('\u{11DA0}' <= c && c <= '\u{11DA9}') ||
        ('\u{11F50}' <= c && c <= '\u{11F59}') ||
        ('\u{16130}' <= c && c <= '\u{16139}') ||
        ('\u{16A60}' <= c && c <= '\u{16A69}') ||
        ('\u{16AC0}' <= c && c <= '\u{16AC9}') ||
        ('\u{16B50}' <= c && c <= '\u{16B59}') ||
        ('\u{16D70}' <= c && c <= '\u{16D79}') ||
        ('\u{1CCF0}' <= c && c <= '\u{1CCF9}') ||
        ('\u{1D7CE}' <= c && c <= '\u{1D7FF}') ||
        ('\u{1E140}' <= c && c <= '\u{1E149}') ||
        ('\u{1E2F0}' <= c && c <= '\u{1E2F9}') ||
        ('\u{1E4F0}' <= c && c <= '\u{1E4F9}') ||
        ('\u{1E5F1}' <= c && c <= '\u{1E5FA}') ||
        ('\u{1E950}' <= c && c <= '\u{1E959}') ||
        ('\u{1FBF0}' <= c && c <= '\u{1FBF9}')
}

/// `char::to_ascii_lowercase`.
pub open spec fn lower_char(c: char) -> char {
    if 'A' <= c && c <= 'Z' {
        ((c as u32) + 32) as char
    } else {
        c
    }
}

pub fn lower_char_exec(c: char) -> (r: char)
    ensures
        r == lower_char(c),
{
    if 'A' <= c && c <= 'Z' {
        let b: u8 = c as u8;
        proof {
            assert(b == c as u32);
        }
        ((b + 32) as char)
    } else {
        c
    }
}

/// `str::to_ascii_lowercase`.
pub open spec fn ascii_lower(s: Seq<char>) -> Seq<char> {
    Seq::new(s.len(), |i: int| lower_char(s[i]))
}

pub fn ascii_lower_exec(v: &[char]) -> (r: Vec<char>)
    ensures
        r@ == ascii_lower(v@),
{
    let mut out: Vec<char> = Vec::new();
    let mut i: usize = 0;
    while i < v.len()
        invariant
            i <= v@.len(),
            out@ == ascii_lower(v@.take(i as int)),
        decreases v@.len() - i,
    {
        out.push(lower_char_exec(v[i]));
        i = i + 1;
        proof {
            assert(out@ =~= ascii_lower(v@.take(i as int)));
        }
    }
    proof {
        assert(v@.take(v@.len() as int) =~= v@);
    }
    out
}

pub open spec fn starts_with(s: Seq<char>, p: Seq<char>) -> bool {
    p.len() <= s.len() && s.take(p.len() as int) == p
}

pub open spec fn ends_with(s: Seq<char>, p: Seq<char>) -> bool {
    p.len() <= s.len() && s.skip(s.len() - p.len()) == p
}

/// `p` occurs in `s` starting at index `i`.
pub open spec fn occurs_at(s: Seq<char>, p: Seq<char>, i: int) -> bool {
    0 <= i && i + p.len() <= s.len() && s.subrange(i, i + p.len()) == p
}

pub open spec fn contains(s: Seq<char>, p: Seq<char>) -> bool {
    exists|i: int| occurs_at(s, p, i)
}

pub fn occurs_at_exec(s: &[char], p: &[char], i: usize) -> (r: bool)
    ensures
        r == occurs_at(s@, p@, i as int),
{
    if i > s.len() || p.len() > s.len() - i {
        return false;
    }
    let mut k: usize = 0;
    while k < p.len()
        invariant
            i + p@.len() <= s.len(),
            k <= p@.len(),
            forall|j: int| 0 <= j < k ==> s@[i + j] == p@[j],
        decreases p@.len() - k,
    {
        if s[i + k] != p[k] {
            proof {
                assert(s@.subrange(i as int, i + p@.len())[k as int] != p@[k as int]);
            }
            return false;
        }
        k = k + 1;
    }
    proof {
        assert(s@.subrange(i as int, i + p@.len()) =~= p@);
    }
    true
}

pub fn starts_with_exec(s: &[char], p: &[char]) -> (r: bool)
    ensures
        r == starts_with(s@, p@),
{
    let r = occurs_at_exec(s, p, 0);
    proof {
        if p@.len() <= s@.len() {
            assert(s@.subrange(0, p@.len() as int) =~= s@.take(p@.len() as int));
        }
    }
    r
}

pub fn ends_with_exec(s: &[char], p: &[char]) -> (r: bool)
    ensures
        r == ends_with(s@, p@),
{
    if p.len() > s.len() {
        return false;
    }
    let r = occurs_at_exec(s, p, s.len() - p.len());
    proof {
        assert(s@.subrange(s@.len() - p@.len(), s@.len() as int) =~= s@.skip(s@.len() - p@.len()));
    }
    r
}

/// Index of the first occurrence of `p` in `s` at or after `from`.
pub open spec fn first_occ_from(s: Seq<char>, p: Seq<char>, from: int) -> Option<int> {
    if exists|i: int| from <= i && occurs_at(s, p, i) {
        Some(choose|i: int| from <= i && occurs_at(s, p, i) && forall|j: int| from <= j < i ==> !occurs_at(s, p, j))
    } else {
        None
    }
}

pub fn find_from(s: &[char], p: &[char], from: usize) -> (r: Option<usize>)
    ensures
        match r {
            Some(i) => from <= i && occurs_at(s@, p@, i as int) && forall|j: int| from <= j < i ==> !occurs_at(s@, p@, j),
            None => forall|j: int| from <= j ==> !occurs_at(s@, p@, j),
        },
{
    let mut i: usize = from;
    while i < s.len() && p.len() <= s.len() - i
        invariant
            from <= i,
            forall|j: int| from <= j < i ==> !occurs_at(s@, p@, j),
        decreases s@.len() - i,
    {
        if occurs_at_exec(s, p, i) {
            return Some(i);
        }
        i = i + 1;
    }
    if i <= s.len() && p.len() <= s.len() - i {
        // only reachable when i == s.len() and p is empty
        if occurs_at_exec(s, p, i) {
            return Some(i);
        }
    }
    None
}

/// [`first_occ_from`] is the occurrence that a left-to-right search
/// reports.
pub proof fn lemma_first_occ_from(s: Seq<char>, p: Seq<char>, from: int, r: Option<int>)
    requires
        match r {
            Some(i) => from <= i && occurs_at(s, p, i) && forall|j: int| from <= j < i ==> !occurs_at(s, p, j),
            None => forall|j: int| from <= j ==> !occurs_at(s, p, j),
        },
    ensures
        first_occ_from(s, p, from) == r,
{
    match r {
        Some(i) => {
            assert(from <= i && occurs_at(s, p, i));
            let c = choose|c: int| from <= c && occurs_at(s, p, c) && forall|j: int| from <= j < c ==> !occurs_at(s, p, j);
            assert(from <= c && occurs_at(s, p, c) && forall|j: int| from <= j < c ==> !occurs_at(s, p, j));
            if c < i {
                assert(!occurs_at(s, p, c));
            }
            if i < c {
                assert(!occurs_at(s, p, i));
            }
        },
        None => {},
    }
}

/// When `p` occurs at or after `from`, [`first_occ_from`] is its first
/// such occurrence.
pub proof fn lemma_first_occ_some(s: Seq<char>, p: Seq<char>, from: int)
    requires
        first_occ_from(s, p, from) is Some,
    ensures
        ({
            let i = first_occ_from(s, p, from)->0;
            from <= i && occurs_at(s, p, i) && forall|j: int| from <= j < i ==> !occurs_at(s, p, j)
        }),
{
    let w = choose|w: int| from <= w && occurs_at(s, p, w);
    lemma_first_occ_below(s, p, from, w);
}

proof fn lemma_first_occ_below(s: Seq<char>, p: Seq<char>, from: int, w: int)
    requires
        from <= w && occurs_at(s, p, w),
    ensures
        ({
            let i = first_occ_from(s, p, from)->0;
            first_occ_from(s, p, from) is Some && from <= i && occurs_at(s, p, i) && forall|j: int|
                from <= j < i ==> !occurs_at(s, p, j)
        }),
    decreases w - from,
{
    if exists|j: int| from <= j < w && occurs_at(s, p, j) {
        let j = choose|j: int| from <= j < w && occurs_at(s, p, j);
        lemma_first_occ_below(s, p, from, j);
    } else {
        lemma_first_occ_from(s, p, from, Some(w));
    }
}

pub fn contains_exec(s: &[char], p: &[char]) -> (r: bool)
    ensures
        r == contains(s@, p@),
{
    match find_from(s, p, 0) {
        Some(i) => true,
        None => {
            proof {
                assert forall|j: int| !occurs_at(s@, p@, j) by {
                    if j >= 0 {
                    }
                }
            }
            false
        },
    }
}

/// `str::replace`: every non-overlapping occurrence of `from`, scanning
/// left to right, replaced by `to`.
pub open spec fn replace_all(s: Seq<char>, from: Seq<char>, to: Seq<char>) -> Seq<char>
    recommends
        from.len() > 0,
    decreases s.len(),
{
    if from.len() == 0 || s.len() < from.len() {
        s
    } else if s.take(from.len() as int) == from {
        to + replace_all(s.skip(from.len() as int), from, to)
    } else {
        seq![s[0]] + replace_all(s.drop_first(), from, to)
    }
}

pub fn replace_all_exec(s: &[char], from: &[char], to: &[char]) -> (r: Vec<char>)
    requires
        from@.len() > 0,
    ensures
        r@ == replace_all(s@, from@, to@),
{
    let mut out: Vec<char> = Vec::new();
    let mut i: usize = 0;
    proof {
        assert(s@.skip(0) =~= s@);
    }
    while i < s.len()
        invariant
            from@.len() > 0,
            i <= s@.len(),
            out@ + replace_all(s@.skip(i as int), from@, to@) == replace_all(s@, from@, to@),
        decreases s@.len() - i,
    {
        let ghost rest = s@.skip(i as int);
        if from.len() <= s.len() - i && occurs_at_exec(s, from, i) {
            proof {
                assert(rest.take(from@.len() as int) =~= s@.subrange(i as int, i + from@.len()));
                assert(rest.skip(from@.len() as int) =~= s@.skip(i + from@.len()));
                assert(out@ + to@ + replace_all(s@.skip(i + from@.len()), from@, to@) =~= out@ + replace_all(rest, from@, to@));
            }
            let mut k: usize = 0;
            let ghost base = out@;
            while k < to.len()
                invariant
                    k <= to@.len(),
                    out@ == base + to@.take(k as int),
                decreases to@.len() - k,
            {
                out.push(to[k]);
                k = k + 1;
                proof {
                    assert(out@ =~= base + to@.take(k as int));
                }
            }
            proof {
                assert(to@.take(to@.len() as int) =~= to@);
            }
            i = i + from.len();
        } else {
            proof {
                if from@.len() <= rest.len() {
                    assert(rest.take(from@.len() as int) =~= s@.subrange(i as int, i + from@.len()));
                }
                assert(rest.drop_first() =~= s@.skip(i + 1));
                assert(out@.push(s@[i as int]) + replace_all(s@.skip(i + 1), from@, to@) =~= out@ + replace_all(rest, from@, to@));
            }
            out.push(s[i]);
            i = i + 1;
        }
    }
    proof {
        assert(out@ + replace_all(s@.skip(i as int), from@, to@) =~= out@);
    }
    out
}

/// Decimal rendering of a natural number (no sign, no padding).
pub open spec fn digit_char(d: nat) -> char {
    ((d % 10) + 48) as char
}

pub open spec fn decimal(n: nat) -> Seq<char>
    decreases n,
{
    if n < 10 {
        seq![digit_char(n)]
    } else {
        decimal(n / 10).push(digit_char(n % 10))
    }
}

pub fn digit_char_exec(d: u64) -> (r: char)
    requires
        d < 10,
    ensures
        r == digit_char(d as nat),
{
    let b: u8 = (d as u8) + 48;
    b as char
}

pub fn push_decimal(out: &mut Vec<char>, n: u64)
    ensures
        final(out)@ == old(out)@ + decimal(n as nat),
    decreases n,
{
    if n >= 10 {
        push_decimal(out, n / 10);
    }
    out.push(digit_char_exec(n % 10));
    proof {
        if n >= 10 {
            assert(digit_char((n % 10) as nat) == digit_char(n as nat % 10));
        }
    }
}

/// Value of a run of ASCII digits.
pub open spec fn digits_value(s: Seq<char>) -> nat
    decreases s.len(),
{
    if s.len() == 0 {
        0
    } else {
        digits_value(s.drop_last()) * 10 + ((s.last() as u32) - 48) as nat
    }
}

pub open spec fn all_ascii_digits(s: Seq<char>) -> bool {
    forall|i: int| 0 <= i < s.len() ==> is_ascii_digit(#[trigger] s[i])
}

/// `str::parse::<u64>()`: optional `+`, then one or more ASCII digits,
/// value at most `u64::MAX`.
pub open spec fn parse_u64(s: Seq<char>) -> Option<u64> {
    let d = if s.len() > 0 && s[0] == '+' { s.drop_first() } else { s };
    if d.len() > 0 && all_ascii_digits(d) && digits_value(d) <= u64::MAX {
        Some(digits_value(d) as u64)
    } else {
        None
    }
}

/// `str::parse::<u32>()`.
pub open spec fn parse_u32(s: Seq<char>) -> Option<u32> {
    let d = if s.len() > 0 && s[0] == '+' { s.drop_first() } else { s };
    if d.len() > 0 && all_ascii_digits(d) && digits_value(d) <= u32::MAX {
        Some(digits_value(d) as u32)
    } else {
        None
    }
}

pub fn parse_u64_exec(s: &[char]) -> (r: Option<u64>)
    ensures
        r == parse_u64(s@),
{
    let start: usize = if s.len() > 0 && s[0] == '+' { 1 } else { 0 };
    let ghost d = s@.skip(start as int);
    proof {
        if s@.len() > 0 && s@[0] == '+' {
            assert(d =~= s@.drop_first());
        } else {
            assert(d =~= s@);
        }
        assert(d == (if s@.len() > 0 && s@[0] == '+' { s@.drop_first() } else { s@ }));
    }
    if start >= s.len() {
        return None;
    }
    let mut acc: u64 = 0;
    let mut i: usize = start;
    while i < s.len()
        invariant
            start <= i <= s@.len(),
            d == s@.skip(start as int),
            d == (if s@.len() > 0 && s@[0] == '+' { s@.drop_first() } else { s@ }),
            d.len() > 0,
            all_ascii_digits(d.take(i - start)),
            acc as nat == digits_value(d.take(i - start)),
        decreases s@.len() - i,
    {
        let c = s[i];
        if !('0' <= c && c <= '9') {
            proof {
                assert(d[i - start] == c);
                assert(!is_ascii_digit(d[i - start]));
                assert(!all_ascii_digits(d));
            }
            return None;
        }
        let dv: u64 = ((c as u8) - 48) as u64;
        proof {
            assert(d.take(i - start + 1).drop_last() =~= d.take(i - start));
            assert(d.take(i - start + 1).last() == c);
            assert(dv == (c as u32) - 48);
        }
        if acc > (u64::MAX - dv) / 10 {
            proof {
                assert(digits_value(d.take(i - start + 1)) > u64::MAX) by (nonlinear_arith)
                    requires
                        digits_value(d.take(i - start + 1)) == acc * 10 + dv,
                        acc > (u64::MAX - dv) / 10,
                        dv <= 9;
                if all_ascii_digits(d) {
                    lemma_digits_value_prefix_mono(d, i - start + 1);
                }
            }
            return None;
        }
        acc = acc * 10 + dv;
        i = i + 1;
        proof {
            assert forall|j: int| 0 <= j < i - start implies is_ascii_digit(#[trigger] d.take(i - start)[j]) by {
                if j < i - start - 1 {
                    assert(d.take(i - start)[j] == d.take(i - start - 1)[j]);
                }
            }
        }
    }
    proof {
        assert(d.take(i - start) =~= d);
    }
    Some(acc)
}

pub proof fn lemma_digits_value_prefix_mono(d: Seq<char>, k: int)
    requires
        0 <= k <= d.len(),
        all_ascii_digits(d),
    ensures
        digits_value(d) >= digits_value(d.take(k)),
    decreases d.len(),
{
    if d.len() > k {
        let t = d.drop_last();
        assert(t.take(k) =~= d.take(k));
        assert forall|i: int| 0 <= i < t.len() implies is_ascii_digit(#[trigger] t[i]) by {
            assert(t[i] == d[i]);
        }
        lemma_digits_value_prefix_mono(t, k);
        assert(d.take(d.len() as int) =~= d);
        assert(digits_value(d) >= digits_value(t)) by (nonlinear_arith)
            requires
                digits_value(d) == digits_value(t) * 10 + ((d.last() as u32) - 48) as nat,
        ;
    } else {
        assert(d.take(k) =~= d);
    }
}

/// Append a string slice to a `String`.
pub fn push_str(out: &mut String, s: &str)
    ensures
        final(out)@ == old(out)@ + s@,
{
    out.append(s);
}

/// Append characters to a `String`.
pub fn push_chars(out: &mut String, v: &[char])
    ensures
        final(out)@ == old(out)@ + v@,
{
    let s = string_of(v);
    out.append(s.as_str());
}

/// Append one character to a `String`.
#[verifier::external_body]
pub(crate) fn push_char(out: &mut String, c: char)
    ensures
        final(out)@ == old(out)@.push(c),
{
    out.push(c);
}

/// Characters equal to a literal.
pub fn eq_str(v: &[char], lit: &str) -> (r: bool)
    ensures
        r == (v@ == lit@),
{
    let w = chars_of(lit);
    if v.len() != w.len() {
        return false;
    }
    let mut i: usize = 0;
    while i < v.len()
        invariant
            v@.len() == w@.len(),
            w@ == lit@,
            i <= v@.len(),
            forall|j: int| 0 <= j < i ==> v@[j] == w@[j],
        decreases v@.len() - i,
    {
        if v[i] != w[i] {
            return false;
        }
        i = i + 1;
    }
    proof {
        assert(v@ =~= w@);
    }
    true
}


/// Index of the first `c` in `s`, or `s.len()` when there is none.
pub open spec fn char_pos(s: Seq<char>, c: char) -> nat
    decreases s.len(),
{
    if s.len() == 0 {
        0
    } else if s[0] == c {
        0
    } else {
        1 + char_pos(s.drop_first(), c)
    }
}

pub proof fn lemma_char_pos(s: Seq<char>, c: char)
    ensures
        char_pos(s, c) <= s.len(),
        forall|j: int| 0 <= j < char_pos(s, c) ==> #[trigger] s[j] != c,
        char_pos(s, c) < s.len() ==> s[char_pos(s, c) as int] == c,
    decreases s.len(),
{
    if s.len() > 0 && s[0] != c {
        lemma_char_pos(s.drop_first(), c);
        assert forall|j: int| 0 <= j < char_pos(s, c) implies #[trigger] s[j] != c by {
            if j > 0 {
                assert(s[j] == s.drop_first()[j - 1]);
            }
        }
        if char_pos(s, c) < s.len() {
            assert(s[char_pos(s, c) as int] == s.drop_first()[char_pos(s.drop_first(), c) as int]);
        }
    }
}

pub proof fn lemma_char_pos_is(s: Seq<char>, c: char, k: int)
    requires
        0 <= k <= s.len(),
        forall|j: int| 0 <= j < k ==> #[trigger] s[j] != c,
        k == s.len() || s[k] == c,
    ensures
        char_pos(s, c) == k,
    decreases s.len(),
{
    if k > 0 {
        let t = s.drop_first();
        assert(s[0] != c);
        assert forall|j: int| 0 <= j < k - 1 implies #[trigger] t[j] != c by {
            assert(t[j] == s[j + 1]);
        }
        if k - 1 < t.len() {
            assert(t[k - 1] == s[k]);
        }
        lemma_char_pos_is(t, c, k - 1);
    }
}

/// `str::split(c)`: the pieces between occurrences of `c`, empties kept.
pub open spec fn split_char(s: Seq<char>, c: char) -> Seq<Seq<char>>
    decreases s.len(),
{
    let p = char_pos(s, c);
    if p < s.len() {
        seq![s.take(p as int)] + split_char(s.skip(p + 1int), c)
    } else {
        seq![s]
    }
}

/// First index `>= from` holding `c`, or `v.len()`.
pub fn char_pos_from(v: &[char], c: char, from: usize) -> (r: usize)
    requires
        from <= v@.len(),
    ensures
        from <= r <= v@.len(),
        r - from == char_pos(v@.skip(from as int), c),
{
    let mut i = from;
    while i < v.len() && v[i] != c
        invariant
            from <= i <= v@.len(),
            forall|j: int| from <= j < i ==> v@[j] != c,
        decreases v@.len() - i,
    {
        i = i + 1;
    }
    proof {
        let t = v@.skip(from as int);
        assert forall|j: int| 0 <= j < i - from implies #[trigger] t[j] != c by {
            assert(t[j] == v@[j + from]);
        }
        if i < v@.len() {
            assert(t[i - from] == v@[i as int]);
        }
        lemma_char_pos_is(t, c, i - from);
    }
    i
}

/// Copy of `v[lo..hi]`.
pub fn slice_vec(v: &[char], lo: usize, hi: usize) -> (r: Vec<char>)
    requires
        lo <= hi <= v@.len(),
    ensures
        r@ == v@.subrange(lo as int, hi as int),
{
    let mut out: Vec<char> = Vec::new();
    let mut i = lo;
    while i < hi
        invariant
            lo <= i <= hi <= v@.len(),
            out@ == v@.subrange(lo as int, i as int),
        decreases hi - i,
    {
        out.push(v[i]);
        i = i + 1;
        proof {
            assert(out@ =~= v@.subrange(lo as int, i as int));
        }
    }
    out
}

pub open spec fn views(v: Seq<Vec<char>>) -> Seq<Seq<char>> {
    v.map_values(|x: Vec<char>| x@)
}

pub fn split_char_exec(v: &[char], c: char) -> (r: Vec<Vec<char>>)
    ensures
        views(r@) == split_char(v@, c),
{
    let mut out: Vec<Vec<char>> = Vec::new();
    let mut start: usize = 0;
    proof {
        assert(v@.skip(0) =~= v@);
    }
    loop
        invariant
            start <= v@.len(),
            views(out@) + split_char(v@.skip(start as int), c) == split_char(v@, c),
        decreases v@.len() - start,
    {
        let p = char_pos_from(v, c, start);
        let piece = slice_vec(v, start, p);
        let ghost rest = v@.skip(start as int);
        proof {
            assert(rest.take(p - start) =~= piece@);
        }
        if p < v.len() {
            proof {
                assert(rest.skip(p - start + 1) =~= v@.skip(p + 1));
                assert(views(out@.push(piece)) =~= views(out@).push(piece@));
                assert(views(out@.push(piece)) + split_char(v@.skip(p + 1), c) =~= views(out@) + split_char(rest, c));
            }
            out.push(piece);
            start = p + 1;
        } else {
            proof {
                assert(rest =~= piece@);
                assert(views(out@.push(piece)) =~= views(out@).push(piece@));
                assert(views(out@.push(piece)) =~= views(out@) + split_char(rest, c));
            }
            out.push(piece);
            return out;
        }
    }
}

/// Copy of `v` without surrounding whitespace.
pub fn trim_exec(v: &[char]) -> (r: Vec<char>)
    ensures
        r@ == trim(v@),
{
    let (lo, hi) = trim_range(v);
    slice_vec(v, lo, hi)
}

/// The character views of a list of strings.
pub open spec fn string_views(v: Seq<String>) -> Seq<Seq<char>> {
    v.map_values(|x: String| x@)
}

/// Strings holding the given character vectors, in order.
pub fn strings_of(v: &Vec<Vec<char>>) -> (r: Vec<String>)
    ensures
        string_views(r@) == views(v@),
{
    let mut out: Vec<String> = Vec::new();
    let mut i: usize = 0;
    while i < v.len()
        invariant
            i <= v@.len(),
            string_views(out@) == views(v@.take(i as int)),
        decreases v@.len() - i,
    {
        let ghost before = out@;
        let x = string_of(&v[i]);
        out.push(x);
        proof {
            assert(string_views(out@) =~= string_views(before).push(v@[i as int]@));
            assert(views(v@.take(i + 1)) =~= views(v@.take(i as int)).push(v@[i as int]@));
        }
        i = i + 1;
    }
    proof {
        assert(v@.take(v@.len() as int) =~= v@);
    }
    out
}

/// Splitting always yields at least one piece.
pub proof fn lemma_split_char_nonempty(s: Seq<char>, c: char)
    ensures
        split_char(s, c).len() >= 1,
{
}

/// Two character vectors hold the same characters.
pub fn eq_chars(a: &[char], b: &[char]) -> (r: bool)
    ensures
        r == (a@ == b@),
{
    if a.len() != b.len() {
        return false;
    }
    let mut i: usize = 0;
    while i < a.len()
        invariant
            a@.len() == b@.len(),
            i <= a@.len(),
            forall|j: int| 0 <= j < i ==> a@[j] == b@[j],
        decreases a@.len() - i,
    {
        if a[i] != b[i] {
            return false;
        }
        i = i + 1;
    }
    proof {
        assert(a@ =~= b@);
    }
    true
}

/// Whether `c` occurs in `v`.
pub fn contains_char_exec(v: &[char], c: char) -> (r: bool)
    ensures
        r == v@.contains(c),
{
    let mut i: usize = 0;
    while i < v.len()
        invariant
            i <= v@.len(),
            forall|j: int| 0 <= j < i ==> v@[j] != c,
        decreases v@.len() - i,
    {
        if v[i] == c {
            proof {
                assert(v@[i as int] == c);
            }
            return true;
        }
        i = i + 1;
    }
    false
}

} // verus!
