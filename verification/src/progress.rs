//! Progress reporting: run timing and the number formats of the
//! progress lines.
//!
//! Printing (to stderr, with colours) is the binary's job; the widths,
//! the timing and every number format live here.

use vstd::prelude::*;

use crate::models::TokenUsage;
use crate::text::{decimal, push_decimal, push_str, string_of};

verus! {

/// Width of the horizontal rules.
pub const RULE_WIDTH: usize = 70;

/// Width of the stage-name column.
pub const STAGE_NAME_WIDTH: usize = 22;

/// Width of the stage-detail column.
pub const STAGE_DETAIL_WIDTH: usize = 32;

/// Progress reporter state: whether it prints, and when the run began.
#[derive(Debug, Clone, Copy, PartialEq, Eq)]
pub struct Progress {
    pub enabled: bool,
    /// Start of the run, Unix epoch milliseconds.
    pub started_ms: u64,
}

impl Progress {
    /// A reporter that started now.
    pub fn new(enabled: bool) -> (r: Self)
        ensures
            r.enabled == enabled,
    {
        Progress { enabled, started_ms: crate::audit::now_unix_ms() }
    }

    /// Milliseconds since the reporter started (0 if the clock went back),
    /// for the clock reading taken by the call.
    pub fn elapsed(&self) -> (r: u64)
        ensures
            exists|now: u64| r == #[trigger] elapsed_ms(self.started_ms, now),
    {
        let now = crate::audit::now_unix_ms();
        let r = elapsed_between(self.started_ms, now);
        assert(r == elapsed_ms(self.started_ms, now));
        r
    }

    /// Start of a stage, Unix epoch milliseconds.
    pub fn stage_start(&self) -> (r: u64) {
        crate::audit::now_unix_ms()
    }
}

/// Milliseconds from `start` to `now`, 0 when `now` is earlier.
pub open spec fn elapsed_ms(start: u64, now: u64) -> int {
    if now >= start { now - start } else { 0 }
}

/// Milliseconds from `start` to `now`, 0 when `now` is earlier.
pub fn elapsed_between(start: u64, now: u64) -> (r: u64)
    ensures
        r == elapsed_ms(start, now),
{
    if now >= start {
        now - start
    } else {
        0
    }
}

/// What the header block shows.
#[derive(Debug, Clone, PartialEq, Eq)]
pub struct HeaderInfo {
    pub version: String,
    pub range: String,
    pub release: String,
    pub version_bump: String,
    pub provider: Option<String>,
    pub model: Option<String>,
    pub voice: String,
    pub license: LicenseStatus,
}

/// Whether a license key is active.
#[derive(Debug, Clone, Default, PartialEq, Eq)]
pub enum LicenseStatus {
    #[default]
    Free,
    Licensed { name: String },
}

/// What the summary block shows.
#[derive(Debug, Clone, PartialEq, Eq)]
pub struct SummaryInfo {
    pub output_path: Option<String>,
    pub output_bytes: usize,
    pub commits: usize,
    pub llm_calls: usize,
    pub tokens: TokenUsage,
    /// Run time in milliseconds.
    pub elapsed_ms: u64,
    pub audit_log_path: Option<String>,
}

/// `n` with two digits, zero-padded.
pub open spec fn two_digits(n: nat) -> Seq<char>
    recommends
        n < 100,
{
    if n < 10 {
        seq!['0'] + decimal(n)
    } else {
        decimal(n)
    }
}

/// Round `num / den` to tenths, ties to even: the tenths count.
pub open spec fn tenths_half_even(num: nat, den: nat) -> nat
    recommends
        den > 0,
{
    let q = (num * 10) / den;
    let r = (num * 10) % den;
    if 2 * r > den || (2 * r == den && q % 2 == 1) {
        q + 1
    } else {
        q
    }
}

/// `t` tenths as `<units>.<tenth>`.
pub open spec fn one_decimal(t: nat) -> Seq<char> {
    decimal(t / 10) + seq!['.'] + decimal(t % 10)
}

/// Round `num / den` to an integer, ties to even.
pub open spec fn rounded_half_even(num: nat, den: nat) -> nat
    recommends
        den > 0,
{
    let q = num / den;
    let r = num % den;
    if 2 * r > den || (2 * r == den && q % 2 == 1) {
        q + 1
    } else {
        q
    }
}

/// `2^k`.
pub open spec fn pow2(k: nat) -> nat
    decreases k,
{
    if k == 0 {
        1
    } else {
        2 * pow2((k - 1) as nat)
    }
}

/// Spacing of the `f32` values around the integer `n`: 1 below `2^24`,
/// doubling with each further binary digit.
pub open spec fn f32_unit(n: nat) -> nat
    decreases n,
{
    if n < 0x100_0000 {
        1
    } else {
        2 * f32_unit(n / 2)
    }
}

/// The integer `n` as the nearest `f32` (ties to even).
pub open spec fn f32_int(n: nat) -> nat {
    rounded_half_even(n, f32_unit(n)) * f32_unit(n)
}

/// The binary places `k` (searched upward from `from`) at which
/// `a * 2^k / 10^9` first reaches `2^23`: those of an `f32` near
/// `a / 10^9`.
pub open spec fn quotient_places(a: nat, from: nat) -> nat
    decreases 64 - from,
{
    if from >= 64 || a * pow2(from) >= 0x80_0000 * 1_000_000_000 {
        from
    } else {
        quotient_places(a, from + 1)
    }
}

/// `floor(log2(s))` for `1 <= s < 64`.
pub open spec fn exponent_of(s: nat) -> nat {
    if s < 2 {
        0
    } else if s < 4 {
        1
    } else if s < 8 {
        2
    } else if s < 16 {
        3
    } else if s < 32 {
        4
    } else {
        5
    }
}

/// `Duration::as_secs_f32` of `s` seconds and `nanos` nanoseconds
/// (`1 <= s < 60`), as a multiple of `2^-(23 - exponent_of(s))`: the
/// nanoseconds as an `f32`, divided by `10^9` as an `f32`, added to the
/// seconds as an `f32`, each step rounded to nearest, ties to even.
pub open spec fn f32_seconds(s: nat, nanos: nat) -> nat {
    let a = f32_int(nanos);
    let e = exponent_of(s);
    if a == 0 {
        s * pow2((23 - e) as nat)
    } else {
        let k = quotient_places(a, 0);
        let m = rounded_half_even(a * pow2(k), 1_000_000_000);
        rounded_half_even(s * pow2(k) + m, pow2((k + e - 23) as nat))
    }
}

/// `123ms` below a second (the whole milliseconds); below a minute the
/// seconds as `Duration::as_secs_f32` gives them, shown with one decimal
/// (the exact binary value rounded, ties to even); `Xm YYs` from there.
pub open spec fn duration_text(secs: nat, nanos: nat) -> Seq<char> {
    if secs == 0 {
        decimal(nanos / 1_000_000) + "ms"@
    } else if secs < 60 {
        one_decimal(tenths_half_even(f32_seconds(secs, nanos), pow2((23 - exponent_of(secs)) as nat))) + "s"@
    } else {
        decimal(secs / 60) + "m "@ + two_digits(secs % 60) + "s"@
    }
}

/// Spacing of the `f64` values around `n`: 1 below `2^53`, doubling with
/// each further binary digit.
pub open spec fn f64_unit(n: nat) -> nat
    decreases n,
{
    if n < 0x20_0000_0000_0000 {
        1
    } else {
        2 * f64_unit(n / 2)
    }
}

/// `n` as the nearest `f64` (ties to even).
pub open spec fn f64_of(n: nat) -> nat {
    rounded_half_even(n, f64_unit(n)) * f64_unit(n)
}

/// `123 B` below a KiB; KiB with one decimal below a MiB; MiB after: the
/// count as an `f64` divided by the unit (exactly, a power of two), shown
/// with one decimal, ties to even.
pub open spec fn bytes_text(n: nat) -> Seq<char> {
    if n < 1024 {
        decimal(n) + " B"@
    } else if n < 1048576 {
        one_decimal(tenths_half_even(n, 1024)) + " KB"@
    } else {
        one_decimal(tenths_half_even(f64_of(n), 1048576)) + " MB"@
    }
}

/// Digits grouped in threes from the right, separated by commas.
pub open spec fn grouped_digits(d: Seq<char>) -> Seq<char>
    decreases d.len(),
{
    if d.len() <= 3 {
        d
    } else {
        grouped_digits(d.take(d.len() - 3)) + seq![','] + d.skip(d.len() - 3)
    }
}

fn tenths_exec(num: u64, den: u64) -> (r: u64)
    requires
        den > 0,
        num <= 0xffff_ffff_ffff,
        den <= 0xffff_ffff,
    ensures
        r == tenths_half_even(num as nat, den as nat),
{
    let q = (num * 10) / den;
    let r = (num * 10) % den;
    if 2 * r > den || (2 * r == den && q % 2 == 1) {
        q + 1
    } else {
        q
    }
}

fn push_one_decimal(out: &mut String, t: u64)
    ensures
        final(out)@ == old(out)@ + one_decimal(t as nat),
{
    let mut d: Vec<char> = Vec::new();
    push_decimal(&mut d, t / 10);
    d.push('.');
    push_decimal(&mut d, t % 10);
    proof {
        assert(d@ =~= one_decimal(t as nat));
    }
    crate::text::push_chars(out, &d);
}

fn push_decimal_str(out: &mut String, n: u64)
    ensures
        final(out)@ == old(out)@ + decimal(n as nat),
{
    let mut d: Vec<char> = Vec::new();
    push_decimal(&mut d, n);
    proof {
        assert(d@ =~= decimal(n as nat));
    }
    crate::text::push_chars(out, &d);
}

fn pow2_exec(k: u32) -> (r: u128)
    requires
        k <= 64,
    ensures
        r == pow2(k as nat),
        r >= 1,
{
    proof {
        assert(pow2(64) == 0x1_0000_0000_0000_0000) by {
            reveal_with_fuel(pow2, 65);
        }
    }
    let mut p: u128 = 1;
    let mut i: u32 = 0;
    while i < k
        invariant
            i <= k <= 64,
            p == pow2(i as nat),
            p >= 1,
            pow2(64) == 0x1_0000_0000_0000_0000,
        decreases k - i,
    {
        proof {
            lemma_pow2_mono((i + 1) as nat, 64);
        }
        p = p * 2;
        i = i + 1;
    }
    p
}

/// `pow2` is monotone.
proof fn lemma_pow2_mono(i: nat, j: nat)
    requires
        i <= j,
    ensures
        pow2(i) <= pow2(j),
    decreases j,
{
    if i < j {
        lemma_pow2_mono(i, (j - 1) as nat);
    }
}

/// The integer `n` as the nearest `f32`.
fn f32_int_exec(n: u64) -> (r: u128)
    requires
        n < 0x4000_0000,
    ensures
        r == f32_int(n as nat),
        r <= n + 128,
{
    let mut m: u64 = n;
    let mut unit: u64 = 1;
    while m >= 0x100_0000
        invariant
            f32_unit(n as nat) == unit * f32_unit(m as nat),
            1 <= unit,
            unit == 1 || unit * 0x80_0000 <= n,
            m as nat * unit <= n,
            n < (m as nat + 1) * unit,
            n < 0x4000_0000,
        decreases m,
    {
        let ghost m0 = m;
        let ghost u0 = unit;
        assert(u0 * 0x100_0000 <= n) by (nonlinear_arith)
            requires
                m0 * u0 <= n,
                m0 >= 0x100_0000,
                u0 >= 1,
        ;
        assert(f32_unit(m as nat) == 2 * f32_unit((m / 2) as nat));
        m = m / 2;
        unit = unit * 2;
        assert(f32_unit(n as nat) == unit * f32_unit(m as nat)) by (nonlinear_arith)
            requires
                f32_unit(n as nat) == u0 * f32_unit(m0 as nat),
                f32_unit(m0 as nat) == 2 * f32_unit(m as nat),
                unit == 2 * u0,
        ;
        assert(unit * 0x80_0000 <= n) by (nonlinear_arith)
            requires
                u0 * 0x100_0000 <= n,
                unit == 2 * u0,
        ;
        assert(m as nat * unit <= n && n < (m as nat + 1) * unit) by (nonlinear_arith)
            requires
                m0 * u0 <= n,
                n < (m0 + 1) * u0,
                m == m0 / 2,
                unit == 2 * u0,
        ;
    }
    assert(f32_unit(m as nat) == 1);
    assert(unit <= 128) by (nonlinear_arith)
        requires
            unit == 1 || unit * 0x80_0000 <= n,
            n < 0x4000_0000,
    ;
    assert(f32_unit(n as nat) == unit) by (nonlinear_arith)
        requires
            f32_unit(n as nat) == unit * f32_unit(m as nat),
            f32_unit(m as nat) == 1,
    ;
    let u = unit as u128;
    let v = rounded_exec(n as u128, u);
    assert(v * u <= n + 128) by (nonlinear_arith)
        requires
            v * u <= n + u,
            u <= 128,
    ;
    v * u
}

/// Format a duration of `secs` seconds and `nanos` nanoseconds, as the
/// fields of a `std::time::Duration`.
pub fn format_duration(secs: u64, nanos: u32) -> (r: String)
    requires
        nanos < 1_000_000_000,
    ensures
        r@ == duration_text(secs as nat, nanos as nat),
{
    let mut out = String::new();
    if secs == 0 {
        push_decimal_str(&mut out, (nanos / 1_000_000) as u64);
        push_str(&mut out, "ms");
    } else if secs < 60 {
        let e: u32 = if secs < 2 {
            0
        } else if secs < 4 {
            1
        } else if secs < 8 {
            2
        } else if secs < 16 {
            3
        } else if secs < 32 {
            4
        } else {
            5
        };
        let a = f32_int_exec(nanos as u64);
        proof {
            assert(pow2(18) == 262144) by {
            reveal_with_fuel(pow2, 19);
        }
            assert(pow2(23) == 8388608) by {
            reveal_with_fuel(pow2, 24);
        }
            assert(pow2(35) == 0x8_0000_0000) by {
            reveal_with_fuel(pow2, 36);
        }
            assert(pow2(54) == 0x40_0000_0000_0000) by {
            reveal_with_fuel(pow2, 55);
        }
            lemma_pow2_mono(18, (23 - e) as nat);
            lemma_pow2_mono((23 - e) as nat, 23);
        }
        let scale = pow2_exec(23 - e);
        proof {
            assert(pow2(64) == 0x1_0000_0000_0000_0000) by {
                reveal_with_fuel(pow2, 65);
            }
        }
        let c: u128 = if a == 0 {
            assert(secs * scale <= 60 * 8388608) by (nonlinear_arith)
                requires
                    secs < 60,
                    scale <= 8388608,
            ;
            secs as u128 * scale
        } else {
            let mut k: u32 = 0;
            let mut p: u128 = 1;
            while k < 64 && a * p < 0x80_0000 * 1_000_000_000
                invariant
                    1 <= a <= 0x4000_0080,
                    k <= 64,
                    p == pow2(k as nat),
                    1 <= p,
                    p <= 0x1_0000_0000_0000_0000,
                    quotient_places(a as nat, 0) == quotient_places(a as nat, k as nat),
                    k > 0 ==> a * p < 2 * 0x80_0000 * 1_000_000_000,
                    pow2(54) == 0x40_0000_0000_0000,
                    pow2(64) == 0x1_0000_0000_0000_0000,
                    a * p <= 0x4000_0080 * 0x1_0000_0000_0000_0000,
                decreases 64 - k,
            {
                let ghost p0 = p;
                proof {
                    lemma_pow2_mono((k + 1) as nat, 64);
                    if k >= 54 {
                        lemma_pow2_mono(54, k as nat);
                        assert(a * p >= 0x40_0000_0000_0000) by (nonlinear_arith)
                            requires
                                a >= 1,
                                p >= 0x40_0000_0000_0000,
                        ;
                    }
                }
                p = p * 2;
                k = k + 1;
                assert(a * p <= 0x4000_0080 * 0x1_0000_0000_0000_0000) by (nonlinear_arith)
                    requires
                        a <= 0x4000_0080,
                        p <= 0x1_0000_0000_0000_0000,
                ;
                assert(a * p < 2 * 0x80_0000 * 1_000_000_000) by (nonlinear_arith)
                    requires
                        a * p0 < 0x80_0000 * 1_000_000_000,
                        p == 2 * p0,
                ;
            }
            assert(k > 0) by {
                if k == 0 {
                    assert(a * p < 0x80_0000 * 1_000_000_000) by (nonlinear_arith)
                        requires
                            a <= 0x4000_0080,
                            p == 1,
                    ;
                }
            }
            assert(k <= 53) by {
                if k >= 54 {
                    lemma_pow2_mono(54, k as nat);
                    assert(a * p >= 0x40_0000_0000_0000) by (nonlinear_arith)
                        requires
                            a >= 1,
                            p >= 0x40_0000_0000_0000,
                    ;
                }
            }
            assert(k >= 23) by {
                if k < 23 {
                    lemma_pow2_mono(k as nat, 22);
                    assert(pow2(22) == 4194304) by {
            reveal_with_fuel(pow2, 23);
        }
                    assert(a * p < 0x80_0000 * 1_000_000_000) by (nonlinear_arith)
                        requires
                            a <= 0x4000_0080,
                            p <= 4194304,
                    ;
                }
            }
            assert(quotient_places(a as nat, k as nat) == k);
            assert(p <= 0x20_0000_0000_0000) by {
                lemma_pow2_mono(k as nat, 53);
                assert(pow2(53) == 0x20_0000_0000_0000) by {
            reveal_with_fuel(pow2, 54);
        }
            }
            let m = rounded_exec(a * p, 1_000_000_000);
            let d = pow2_exec(k + e - 23);
            proof {
                lemma_pow2_mono((k + e - 23) as nat, 35);
            }
            assert(secs * p + m < 0x1000_0000_0000_0000) by (nonlinear_arith)
                requires
                    secs < 60,
                    p <= 0x20_0000_0000_0000,
                    m <= (a * p) / 1_000_000_000 + 1,
                    a * p < 2 * 0x80_0000 * 1_000_000_000,
            ;
            rounded_exec(secs as u128 * p + m, d)
        };
        assert(c <= 0x1000_0000_0000_0000);
        let t = tenths_exec128(c, scale);
        assert(t <= 0xffff_ffff_ffff_ffff_u128) by (nonlinear_arith)
            requires
                t <= (c * 10) / (scale as int) + 1,
                c <= 0x1000_0000_0000_0000,
                scale >= 262144,
        ;
        push_one_decimal(&mut out, t as u64);
        push_str(&mut out, "s");
    } else {
        push_decimal_str(&mut out, secs / 60);
        push_str(&mut out, "m ");
        if secs % 60 < 10 {
            push_str(&mut out, "0");
        }
        push_decimal_str(&mut out, secs % 60);
        push_str(&mut out, "s");
        proof {
            reveal_strlit("0");
        }
    }
    out
}

fn rounded_exec(num: u128, den: u128) -> (r: u128)
    requires
        0 < den <= 0x1_0000_0000_0000_0000,
        num < 0x1_0000_0000_0000_0000_0000,
    ensures
        r == rounded_half_even(num as nat, den as nat),
        r <= num / den + 1,
        r * den <= num + den,
{
    proof {
        vstd::arithmetic::div_mod::lemma_fundamental_div_mod(num as int, den as int);
    }
    let q = num / den;
    let r = num % den;
    assert(q * den <= num && (q + 1) * den == q * den + den) by (nonlinear_arith)
        requires
            num == den * q + r,
            r >= 0,
    ;
    if 2 * r > den || (2 * r == den && q % 2 == 1) {
        q + 1
    } else {
        q
    }
}

fn tenths_exec128(num: u128, den: u128) -> (r: u128)
    requires
        0 < den <= 0x1_0000_0000,
        num <= 0x1_0000_0000_0000_1000,
    ensures
        r == tenths_half_even(num as nat, den as nat),
        r <= (num * 10) / (den as int) + 1,
{
    rounded_exec(num * 10, den)
}

/// `n` as the nearest `f64`.
fn f64_exec(n: u64) -> (r: u128)
    ensures
        r == f64_of(n as nat),
        r <= 0x1_0000_0000_0000_1000,
{
    let mut m: u64 = n;
    let mut unit: u64 = 1;
    while m >= 0x20_0000_0000_0000
        invariant
            f64_unit(n as nat) == unit * f64_unit(m as nat),
            1 <= unit,
            unit == 1 || unit * 0x10_0000_0000_0000 <= n,
            m as nat * unit <= n,
            n < (m as nat + 1) * unit,
        decreases m,
    {
        let ghost m0 = m;
        let ghost u0 = unit;
        assert(u0 * 0x20_0000_0000_0000 <= n) by (nonlinear_arith)
            requires
                m0 * u0 <= n,
                m0 >= 0x20_0000_0000_0000,
                u0 >= 1,
        ;
        assert(f64_unit(m as nat) == 2 * f64_unit((m / 2) as nat));
        m = m / 2;
        unit = unit * 2;
        assert(f64_unit(n as nat) == unit * f64_unit(m as nat)) by (nonlinear_arith)
            requires
                f64_unit(n as nat) == u0 * f64_unit(m0 as nat),
                f64_unit(m0 as nat) == 2 * f64_unit(m as nat),
                unit == 2 * u0,
        ;
        assert(unit * 0x10_0000_0000_0000 <= n) by (nonlinear_arith)
            requires
                u0 * 0x20_0000_0000_0000 <= n,
                unit == 2 * u0,
        ;
        assert(m as nat * unit <= n && n < (m as nat + 1) * unit) by (nonlinear_arith)
            requires
                m0 * u0 <= n,
                n < (m0 + 1) * u0,
                m == m0 / 2,
                unit == 2 * u0,
        ;
    }
    assert(f64_unit(m as nat) == 1);
    assert(unit <= 4096) by (nonlinear_arith)
        requires
            unit == 1 || unit * 0x10_0000_0000_0000 <= n,
            n <= 0xffff_ffff_ffff_ffff,
    ;
    assert(f64_unit(n as nat) == unit) by (nonlinear_arith)
        requires
            f64_unit(n as nat) == unit * f64_unit(m as nat),
            f64_unit(m as nat) == 1,
    ;
    let u = unit as u128;
    let v = rounded_exec(n as u128, u);
    v * u
}

/// Format a byte count.
pub fn format_bytes(n: usize) -> (r: String)
    ensures
        r@ == bytes_text(n as nat),
{
    let mut out = String::new();
    let m = n as u64;
    if m < 1024 {
        push_decimal_str(&mut out, m);
        push_str(&mut out, " B");
    } else if m < 1048576 {
        push_one_decimal(&mut out, tenths_exec(m, 1024));
        push_str(&mut out, " KB");
    } else {
        let t = tenths_exec128(f64_exec(m), 1048576);
        assert(t <= 0xffff_ffff_ffff_ffff_u128) by (nonlinear_arith)
            requires
                t <= (f64_of(m as nat) * 10) / 1048576 + 1,
                f64_of(m as nat) <= 0x1_0000_0000_0000_1000,
        ;
        push_one_decimal(&mut out, t as u64);
        push_str(&mut out, " MB");
    }
    out
}

/// Format an integer with thousands separators: `1234567` as `1,234,567`.
pub fn format_count(n: u64) -> (r: String)
    ensures
        r@ == grouped_digits(decimal(n as nat)),
{
    let mut d: Vec<char> = Vec::new();
    push_decimal(&mut d, n);
    proof {
        assert(d@ =~= decimal(n as nat));
    }
    let out = group_exec(&d);
    string_of(&out)
}

fn group_exec(d: &Vec<char>) -> (r: Vec<char>)
    ensures
        r@ == grouped_digits(d@),
    decreases d@.len(),
{
    if d.len() <= 3 {
        return crate::text::slice_vec(d, 0, d.len());
    }
    let head = crate::text::slice_vec(d, 0, d.len() - 3);
    let mut out = group_exec(&head);
    out.push(',');
    let mut k = d.len() - 3;
    let ghost base = out@;
    while k < d.len()
        invariant
            d@.len() > 3,
            d@.len() - 3 <= k <= d@.len(),
            out@ == base + d@.subrange(d@.len() - 3, k as int),
        decreases d@.len() - k,
    {
        out.push(d[k]);
        k = k + 1;
        proof {
            assert(out@ =~= base + d@.subrange(d@.len() - 3, k as int));
        }
    }
    proof {
        assert(head@ =~= d@.take(d@.len() - 3));
        assert(d@.subrange(d@.len() - 3, d@.len() as int) =~= d@.skip(d@.len() - 3));
    }
    out
}

/// Rule segments on each side of a centred ` label ` in a rule of
/// `total` characters: the left gets half the rest (rounded down), the
/// right the remainder; both 0 when the label does not fit.
pub fn divider_sides(label: &str, total: usize) -> (r: (usize, usize))
    ensures
        ({
            let len = label@.len() + 2;
            let side = if total >= len { (total - len) / 2 } else { 0 };
            &&& r.0 == side
            &&& r.1 == if total >= side + len { total - side - len } else { 0 }
        }),
{
    let n = crate::text::chars_of(label).len();
    if n > usize::MAX - 2 {
        return (0, 0);
    }
    let len = n + 2;
    let side = if total >= len { (total - len) / 2 } else { 0 };
    let right = if total >= side + len { total - side - len } else { 0 };
    (side, right)
}

} // verus!
