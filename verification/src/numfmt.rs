//! Human-readable sizes.  A size is shown as its byte count converted to
//! `f64`, divided by a power of 1024 and printed with a fixed number of
//! decimals.  That is computed here exactly with integers: the conversion
//! to `f64` rounds to 53 significant bits (ties to even), division by a
//! power of two is exact, and the printed decimals round to nearest (ties to
//! even).

use vstd::prelude::*;
use crate::text::{concat, decimal, digit_char, push_char, u64_to_string};

verus! {

/// `2^53`, the first integer past the exact range of `f64`.
pub const F64_EXACT: u128 = 9007199254740992;

/// `n` rounded to a multiple of `m`, to nearest, ties to the even multiple.
pub open spec fn round_to_multiple(n: nat, m: nat) -> nat {
    let q = n / m;
    let r = n % m;
    if 2 * r > m || (2 * r == m && q % 2 == 1) {
        (q + 1) * m
    } else {
        q * m
    }
}

/// The spacing of `f64` values around `n`: the least power of two `m` (from
/// `m` on, doubling at most `k` times) with `n < 2^53 * m`.
pub open spec fn f64_unit(n: nat, m: nat, k: nat) -> nat
    decreases k,
{
    if k == 0 || n < F64_EXACT * m {
        m
    } else {
        f64_unit(n, 2 * m, (k - 1) as nat)
    }
}

/// The value of `n as f64` for `n < 2^64`.
pub open spec fn f64_value(n: nat) -> nat {
    round_to_multiple(n, f64_unit(n, 1, 11))
}

/// `v / d` in whole units of `1 / scale`, rounded to nearest, ties to even.
pub open spec fn fixed_units(v: nat, d: nat, scale: nat) -> nat {
    round_to_multiple(v * scale, d) / d
}

/// `u / 100` printed with two decimals.
pub open spec fn two_decimals(u: nat) -> Seq<char> {
    decimal(u / 100) + seq!['.', digit_char((u % 100) / 10), digit_char(u % 10)]
}

/// `u / 10` printed with one decimal.
pub open spec fn one_decimal(u: nat) -> Seq<char> {
    decimal(u / 10) + seq!['.', digit_char(u % 10)]
}

/// How a byte count is shown: in GB, MB or KB with two decimals, or in
/// bytes.
pub open spec fn human_size_spec(bytes: nat) -> Seq<char> {
    let v = f64_value(bytes);
    if v >= 1073741824 {
        two_decimals(fixed_units(v, 1073741824, 100)) + " GB"@
    } else if v >= 1048576 {
        two_decimals(fixed_units(v, 1048576, 100)) + " MB"@
    } else if v >= 1024 {
        two_decimals(fixed_units(v, 1024, 100)) + " KB"@
    } else {
        decimal(bytes) + " B"@
    }
}

/// How a file size is shown in KB with one decimal.
pub open spec fn human_kb_spec(size: nat) -> Seq<char> {
    one_decimal(fixed_units(f64_value(size), 1024, 10)) + " KB"@
}

/// `round_to_multiple` on numbers below `2^100`.
fn round_multiple(n: u128, m: u128) -> (r: u128)
    requires
        m > 0,
        n < 0x10_0000_0000_0000_0000_0000_0000u128,
        m <= 0x1_0000_0000_0000_0000u128,
    ensures
        r == round_to_multiple(n as nat, m as nat),
        r <= n + m,
{
    let q = n / m;
    let r = n % m;
    assert(q * m <= n) by (nonlinear_arith)
        requires
            q == n / m,
            m > 0,
    ;
    if 2 * r > m || (2 * r == m && q % 2 == 1) {
        assert((q + 1) * m <= n + m) by (nonlinear_arith)
            requires
                q * m <= n,
        ;
        (q + 1) * m
    } else {
        q * m
    }
}

/// The value of `n as f64`.
pub fn f64_of(n: u64) -> (r: u128)
    ensures
        r == f64_value(n as nat),
        r <= 0x1_0000_0000_0000_0000u128,
{
    let mut m: u128 = 1;
    let mut k: u32 = 11;
    proof {
        reveal_with_fuel(p2_of, 12);
    }
    while k > 0 && (n as u128) >= F64_EXACT * m
        invariant
            k <= 11,
            1 <= m <= 2048,
            m * p2_of(k) == 2048,
            f64_unit(n as nat, 1, 11) == f64_unit(n as nat, m as nat, k as nat),
        decreases k,
    {
        let ghost pk = p2_of(k);
        let ghost pk1 = p2_of((k - 1) as u32);
        assert(pk == 2 * pk1);
        assert((m * 2) * pk1 == 2048) by (nonlinear_arith)
            requires
                m * pk == 2048,
                pk == 2 * pk1,
        ;
        proof {
            lemma_p2_of_pos((k - 1) as u32);
        }
        assert(m * 2 <= 2048) by (nonlinear_arith)
            requires
                (m * 2) * pk1 == 2048,
                pk1 >= 1,
        ;
        m = m * 2;
        k = k - 1;
    }
    assert(n < F64_EXACT * m) by {
        if k == 0 {
            assert(p2_of(k) == 1);
            assert(m * p2_of(k) == 2048);
            assert(m * 1 == 2048);
        }
    };
    let r = round_multiple(n as u128, m);
    assert(r <= 0x1_0000_0000_0000_0000u128) by {
        assert(r == round_to_multiple(n as nat, m as nat));
        let q = (n as nat) / (m as nat);
        assert(q * m <= n) by (nonlinear_arith)
            requires
                q == (n as nat) / (m as nat),
                m > 0,
        ;
        assert(q < F64_EXACT) by (nonlinear_arith)
            requires
                q * m <= n,
                n < F64_EXACT * m,
                m > 0,
        ;
        assert((q + 1) * m <= F64_EXACT * m) by (nonlinear_arith)
            requires
                q + 1 <= F64_EXACT,
                m > 0,
        ;
    };
    r
}

proof fn lemma_p2_of_pos(k: u32)
    ensures
        p2_of(k) >= 1,
    decreases k,
{
    if k > 0 {
        lemma_p2_of_pos((k - 1) as u32);
    }
}

/// `2^k`.
spec fn p2_of(k: u32) -> nat
    decreases k,
{
    if k == 0 {
        1
    } else {
        2 * p2_of((k - 1) as u32)
    }
}

/// `v / d` in whole units of `1 / scale`.
fn fixed(v: u128, d: u128, scale: u128) -> (r: u64)
    requires
        v <= 0x1_0000_0000_0000_0000u128,
        1024 <= d <= 1073741824,
        1 <= scale <= 100,
    ensures
        r == fixed_units(v as nat, d as nat, scale as nat),
{
    assert(v * scale <= 100 * 0x1_0000_0000_0000_0000u128) by (nonlinear_arith)
        requires
            v <= 0x1_0000_0000_0000_0000u128,
            1 <= scale <= 100,
    ;
    let n = v * scale;
    let t = round_multiple(n, d);
    let u = t / d;
    assert(u <= 0xffff_ffff_ffff_ffffu128) by (nonlinear_arith)
        requires
            u == t / d,
            t <= n + d,
            n == v * scale,
            v <= 0x1_0000_0000_0000_0000u128,
            scale <= 100,
            d >= 1024,
    ;
    u as u64
}

/// `u / 100` with two decimals.
fn format_two_decimals(u: u64) -> (r: String)
    ensures
        r@ == two_decimals(u as nat),
{
    let mut s = u64_to_string(u / 100);
    push_char(&mut s, '.');
    push_char(&mut s, digit((u % 100) / 10));
    push_char(&mut s, digit(u % 10));
    s
}

/// `u / 10` with one decimal.
fn format_one_decimal(u: u64) -> (r: String)
    ensures
        r@ == one_decimal(u as nat),
{
    let mut s = u64_to_string(u / 10);
    push_char(&mut s, '.');
    push_char(&mut s, digit(u % 10));
    s
}

fn digit(d: u64) -> (c: char)
    requires
        d < 10,
    ensures
        c == digit_char(d as nat),
{
    let u = (d as u8) + 48;
    u as char
}

/// A byte count for people: `"1.50 KB"`, `"12.00 MB"`, `"512 B"`.
pub fn human_size(bytes: u64) -> (r: String)
    ensures
        r@ == human_size_spec(bytes as nat),
{
    let v = f64_of(bytes);
    if v >= 1073741824 {
        let s = format_two_decimals(fixed(v, 1073741824, 100));
        concat(s.as_str(), " GB")
    } else if v >= 1048576 {
        let s = format_two_decimals(fixed(v, 1048576, 100));
        concat(s.as_str(), " MB")
    } else if v >= 1024 {
        let s = format_two_decimals(fixed(v, 1024, 100));
        concat(s.as_str(), " KB")
    } else {
        let s = u64_to_string(bytes);
        concat(s.as_str(), " B")
    }
}

/// A file size in KB with one decimal: `"1.5 KB"`.
pub fn human_kb(size: u64) -> (r: String)
    ensures
        r@ == human_kb_spec(size as nat),
{
    let v = f64_of(size);
    let s = format_one_decimal(fixed(v, 1024, 10));
    concat(s.as_str(), " KB")
}

} // verus!
