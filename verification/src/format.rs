use vstd::prelude::*;
use crate::text::{concat, string_of};

verus! {

/// The character string of a decimal digit.
pub open spec fn digit_str(d: nat) -> Seq<char> {
    if d == 0 {
        "0"@
    } else if d == 1 {
        "1"@
    } else if d == 2 {
        "2"@
    } else if d == 3 {
        "3"@
    } else if d == 4 {
        "4"@
    } else if d == 5 {
        "5"@
    } else if d == 6 {
        "6"@
    } else if d == 7 {
        "7"@
    } else if d == 8 {
        "8"@
    } else {
        "9"@
    }
}

/// The decimal notation of a natural number, without leading zeros.
pub open spec fn decimal(n: nat) -> Seq<char>
    decreases n,
{
    if n < 10 {
        digit_str(n)
    } else {
        decimal(n / 10) + digit_str(n % 10)
    }
}

fn digit(d: u128) -> (r: &'static str)
    requires
        d < 10,
    ensures
        r@ == digit_str(d as nat),
{
    if d == 0 {
        "0"
    } else if d == 1 {
        "1"
    } else if d == 2 {
        "2"
    } else if d == 3 {
        "3"
    } else if d == 4 {
        "4"
    } else if d == 5 {
        "5"
    } else if d == 6 {
        "6"
    } else if d == 7 {
        "7"
    } else if d == 8 {
        "8"
    } else {
        "9"
    }
}

/// The decimal notation of a number.
pub fn decimal_string(n: u128) -> (r: String)
    ensures
        r@ == decimal(n as nat),
    decreases n,
{
    if n < 10 {
        string_of(digit(n))
    } else {
        let head = decimal_string(n / 10);
        concat(head.as_str(), digit(n % 10))
    }
}

/// `num / den` rounded to the nearest integer, ties to even.
pub open spec fn round_half_even(num: nat, den: nat) -> nat
    recommends
        den > 0,
{
    let q = num / den;
    let r = num % den;
    if 2 * r > den || (2 * r == den && q % 2 == 1) {
        q + 1
    } else {
        q
    }
}

fn round_half_even_exec(num: u128, den: u128) -> (r: u128)
    requires
        den > 0,
        num / den < u128::MAX,
    ensures
        r == round_half_even(num as nat, den as nat),
{
    let q = num / den;
    let r = num % den;
    if r > den - r || (r == den - r && q % 2 == 1) {
        q + 1
    } else {
        q
    }
}

/// The value an integer takes as a 64-bit float: itself below 2^53, and
/// otherwise the nearest multiple of the spacing of floats at its size, ties
/// to even. `u` is the spacing tried, `k` its exponent.
pub open spec fn f64_value_from(m: nat, u: nat, k: nat) -> nat
    decreases 128 - k,
{
    if k >= 128 || u == 0 || m / u < 0x20_0000_0000_0000 {
        round_half_even(m, u) * u
    } else {
        f64_value_from(m, 2 * u, k + 1)
    }
}

pub open spec fn f64_value(m: nat) -> nat {
    f64_value_from(m, 1, 0)
}

/// The text of an amount of memory given in megabytes: "N MB" below a
/// gigabyte, otherwise the gigabytes with two decimals, as "X.YZ GB".
pub open spec fn memory_text(m: nat) -> Seq<char> {
    if m >= 1024 {
        let h = round_half_even(f64_value(m) * 100, 1024);
        decimal(h / 100) + "."@ + decimal((h % 100) / 10) + decimal(h % 10) + " GB"@
    } else {
        decimal(m) + " MB"@
    }
}

fn f64_value_exec(m: u64) -> (r: u128)
    ensures
        r == f64_value(m as nat),
        r <= 0x1_0000_0000_0000_0800,
{
    let m = m as u128;
    let mut u: u128 = 1;
    let mut k: u128 = 0;
    proof {
        vstd::arithmetic::power2::lemma2_to64();
    }
    while m / u >= 0x20_0000_0000_0000
        invariant
            1 <= u <= 2048,
            u == vstd::arithmetic::power2::pow2(k as nat),
            k <= 11,
            m < 0x1_0000_0000_0000_0000,
            f64_value(m as nat) == f64_value_from(m as nat, u as nat, k as nat),
        decreases 11 - k,
    {
        proof {
            if k == 11 {
                vstd::arithmetic::power2::lemma2_to64();
                assert(u == 2048);
                assert(m / 2048 < 0x20_0000_0000_0000) by (nonlinear_arith)
                    requires
                        m < 0x1_0000_0000_0000_0000,
                ;
            }
            vstd::arithmetic::power2::lemma_pow2_unfold(k as nat + 1);
            vstd::arithmetic::power2::lemma2_to64();
            if k < 11 {
                vstd::arithmetic::power2::lemma_pow2_strictly_increases(k as nat, 11);
            }
        }
        u = u * 2;
        k = k + 1;
    }
    proof {
        assert(m / u <= m) by (nonlinear_arith)
            requires
                u >= 1,
        ;
        assert(m / u < 0x20_0000_0000_0000);
    }
    let q = round_half_even_exec(m, u);
    proof {
        vstd::arithmetic::div_mod::lemma_fundamental_div_mod(m as int, u as int);
        assert((m / u) * u <= m);
        assert(q * u <= m + u) by (nonlinear_arith)
            requires
                q <= m / u + 1,
                (m / u) * u <= m,
                u >= 1,
        ;
    }
    q * u
}


/// Formats an amount of memory given in megabytes: "N MB" below a gigabyte,
/// otherwise the gigabytes with two decimals, as "X.YZ GB".
pub fn format_memory(memory_bytes: usize) -> (r: String)
    ensures
        r@ == memory_text(memory_bytes as nat),
{
    if memory_bytes >= 1024 {
        let v = f64_value_exec(memory_bytes as u64);
        let h = round_half_even_exec(v * 100, 1024);
        let whole = decimal_string(h / 100);
        let a = concat(whole.as_str(), ".");
        let b = concat(a.as_str(), digit((h % 100) / 10));
        let c = concat(b.as_str(), digit(h % 10));
        let r = concat(c.as_str(), " GB");
        proof {
            assert(decimal(((h % 100) / 10) as nat) == digit_str(((h % 100) / 10) as nat));
            assert(decimal((h % 10) as nat) == digit_str((h % 10) as nat));
        }
        r
    } else {
        let n = decimal_string(memory_bytes as u128);
        concat(n.as_str(), " MB")
    }
}

/// The dots of a "loading..." indicator: one, two or three, by tick.
pub open spec fn dots_text(tick_timer: nat) -> Seq<char> {
    if tick_timer % 3 == 0 {
        "."@
    } else if tick_timer % 3 == 1 {
        ".."@
    } else {
        "..."@
    }
}

/// The dots of a "loading..." indicator for a tick of the interface.
pub fn dots(tick_timer: usize) -> (r: String)
    ensures
        r@ == dots_text(tick_timer as nat),
{
    let d = if tick_timer % 3 == 0 {
        "."
    } else if tick_timer % 3 == 1 {
        ".."
    } else {
        "..."
    };
    string_of(d)
}


/// The value of the fraction `num / den` as a 32-bit float, as a pair
/// `(n, s)` standing for `n / s`: `s` is the power of two `2^k` that scales
/// the fraction into [2^23, 2^24), and `n` the scaled fraction rounded to the
/// nearest integer, ties to even.
pub open spec fn f32_fraction_from(num: nat, den: nat, s: nat, k: nat) -> (nat, nat)
    decreases 64 - k,
{
    if k >= 64 || den == 0 || (num * s) / den >= 0x80_0000 {
        (round_half_even(num * s, den), s)
    } else {
        f32_fraction_from(num, den, 2 * s, k + 1)
    }
}

pub open spec fn f32_fraction(num: nat, den: nat) -> (nat, nat) {
    f32_fraction_from(num, den, 1, 0)
}

/// The float `num / den` (of 32 bits) written with one decimal.
pub open spec fn one_decimal_text(num: nat, den: nat) -> Seq<char> {
    let (n, s) = f32_fraction(num, den);
    let t = round_half_even(n * 10, s);
    decimal(t / 10) + "."@ + decimal(t % 10)
}

/// The short text of a download count: the number below 999, thousands with
/// one decimal below ten thousand, whole thousands below a million, millions
/// with one decimal below ten million, whole millions above.
pub open spec fn downloads_text(d: nat) -> Seq<char> {
    if d < 999 {
        decimal(d)
    } else if d < 10000 {
        one_decimal_text(d, 1000) + "K"@
    } else if d < 1_000_000 {
        decimal(d / 1000) + "K"@
    } else if d < 10_000_000 {
        one_decimal_text(d, 1_000_000) + "M"@
    } else {
        decimal(d / 1_000_000) + "M"@
    }
}

fn one_decimal(num: u128, den: u128) -> (r: String)
    requires
        1 <= den <= 1_000_000,
        den <= 2 * num,
        num < 0x1_0000_0000,
    ensures
        r@ == one_decimal_text(num as nat, den as nat),
{
    let mut s: u128 = 1;
    let mut k: u128 = 0;
    proof {
        vstd::arithmetic::power2::lemma2_to64();
    }
    let mut p: u128 = num;
    while p / den < 0x80_0000
        invariant
            1 <= den <= 1_000_000,
            den <= 2 * num,
            num < 0x1_0000_0000,
            k <= 24,
            s == vstd::arithmetic::power2::pow2(k as nat),
            s <= 0x100_0000,
            p == num * s,
            p <= num * 0x100_0000,
            f32_fraction(num as nat, den as nat) == f32_fraction_from(num as nat, den as nat, s as nat, k as nat),
        decreases 24 - k,
    {
        proof {
            vstd::arithmetic::power2::lemma2_to64();
            if k == 24 {
                assert(s == 0x100_0000);
                assert((num * s) / (den as int) >= 0x80_0000) by (nonlinear_arith)
                    requires
                        s == 0x100_0000,
                        1 <= den <= 2 * num,
                ;
            }
            vstd::arithmetic::power2::lemma_pow2_unfold(k as nat + 1);
            if k + 1 < 24 {
                vstd::arithmetic::power2::lemma_pow2_strictly_increases(k as nat + 1, 24);
            }
            assert(p * 2 == num * (s * 2) && num * (s * 2) <= num * 0x100_0000) by (nonlinear_arith)
                requires
                    p == num * s,
                    s * 2 <= 0x100_0000,
            ;
        }
        s = s * 2;
        k = k + 1;
        p = p * 2;
    }
    proof {
        assert(num * 0x100_0000 < 0x1_0000_0000 * 0x100_0000) by (nonlinear_arith)
            requires
                num < 0x1_0000_0000,
        ;
    }
    let n = round_half_even_exec(num * s, den);
    proof {
        assert((num * s) / (den as int) <= num * s) by (nonlinear_arith)
            requires
                den >= 1,
        ;
    }
    let t = round_half_even_exec(n * 10, s);
    let whole = decimal_string(t / 10);
    let a = concat(whole.as_str(), ".");
    let r = concat(a.as_str(), digit(t % 10));
    proof {
        assert(decimal((t % 10) as nat) == digit_str((t % 10) as nat));
    }
    r
}

/// The short text of a download count, as shown on the mod store.
pub fn format_downloads(downloads: usize) -> (r: String)
    ensures
        r@ == downloads_text(downloads as nat),
{
    let d = downloads as u128;
    if downloads < 999 {
        decimal_string(d)
    } else if downloads < 10000 {
        let x = one_decimal(d, 1000);
        concat(x.as_str(), "K")
    } else if downloads < 1_000_000 {
        let x = decimal_string(d / 1000);
        concat(x.as_str(), "K")
    } else if downloads < 10_000_000 {
        let x = one_decimal(d, 1_000_000);
        concat(x.as_str(), "M")
    } else {
        let x = decimal_string(d / 1_000_000);
        concat(x.as_str(), "M")
    }
}

} // verus!
