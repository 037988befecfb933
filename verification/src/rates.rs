//! Rates and ratios of a batch, as fixed-point numbers with two decimal
//! places: a value `v` stands for `v / 100`.

use vstd::arithmetic::div_mod::*;
use vstd::prelude::*;

verus! {

/// The quotient `n / d` rounded to the nearest integer, a half upwards.
/// It is zero where `d` is zero.
pub open spec fn rounded_div(n: nat, d: nat) -> nat {
    if d == 0 {
        0
    } else {
        ((2 * n + d) / (2 * d)) as nat
    }
}

/// A value cut off at the largest `u128`.
pub open spec fn saturated(value: nat) -> nat {
    if value > u128::MAX {
        u128::MAX as nat
    } else {
        value
    }
}

/// `rounded_div(n, d)` is the integer nearest to `n / d`: twice the
/// distance between `n` and `d` times the result is at most `d`.
pub proof fn lemma_rounded_div_nearest(n: nat, d: nat)
    requires
        d > 0,
    ensures
        2 * d * rounded_div(n, d) - d <= 2 * n < 2 * d * rounded_div(n, d) + d,
{
    let x = (2 * n + d) as int;
    let m = (2 * d) as int;
    lemma_fundamental_div_mod(x, m);
    lemma_mod_bound(x, m);
    assert(m * (x / m) == 2 * d * rounded_div(n, d)) by (nonlinear_arith)
        requires
            m == 2 * d,
            x / m == rounded_div(n, d),
    ;
}

/// Rounding a quotient never yields more than the dividend.
pub proof fn lemma_rounded_div_bound(n: nat, d: nat)
    requires
        d > 0,
    ensures
        rounded_div(n, d) <= n,
        n <= d ==> rounded_div(n, d) <= 1,
{
    lemma_rounded_div_nearest(n, d);
    let r = rounded_div(n, d);
    if r > n {
        assert(2 * d * r >= 2 * d * (n + 1)) by (nonlinear_arith)
            requires
                r >= n + 1,
                d > 0,
        ;
        assert(2 * d * (n + 1) == 2 * d * n + 2 * d) by (nonlinear_arith);
        assert(2 * d * n >= 2 * n) by (nonlinear_arith)
            requires
                d >= 1,
        ;
    }
    if n <= d && r >= 2 {
        assert(2 * d * r >= 4 * d) by (nonlinear_arith)
            requires
                r >= 2,
                d > 0,
        ;
    }
}

/// A multiple of the divisor can be taken out of a rounded quotient.
pub proof fn lemma_rounded_div_split(q: nat, rest: nat, d: nat)
    requires
        d > 0,
    ensures
        rounded_div(q * d + rest, d) == q + rounded_div(rest, d),
{
    let m = (2 * d) as int;
    let x = (2 * rest + d) as int;
    lemma_div_multiples_vanish_fancy(q as int, 0, m);
    lemma_fundamental_div_mod(x, m);
    lemma_mod_bound(x, m);
    let r = x % m;
    let k = x / m;
    assert(2 * (q * d + rest) + d == m * (q + k) + r) by (nonlinear_arith)
        requires
            m == 2 * d,
            x == 2 * rest + d,
            x == m * k + r,
    ;
    lemma_fundamental_div_mod_converse((2 * (q * d + rest) + d) as int, m, q + k, r);
}

/// Computes `rounded_div(n * scale, d)`, cut off at the largest `u128`.
pub fn scaled_ratio(n: u128, scale: u32, d: u64) -> (ratio: u128)
    requires
        d > 0,
    ensures
        ratio == saturated(rounded_div(n as nat * scale as nat, d as nat)),
{
    let whole = n / (d as u128);
    let rest = n % (d as u128);
    assert(rest * scale <= u64::MAX * u32::MAX) by (nonlinear_arith)
        requires
            rest < d,
            d <= u64::MAX,
            scale <= u32::MAX,
    ;
    let tail = (2 * (rest * (scale as u128)) + d as u128) / (2 * (d as u128));
    proof {
        let s = scale as nat;
        let dn = d as nat;
        lemma_fundamental_div_mod(n as int, d as int);
        assert(n as nat * s == (whole as nat * s) * dn + rest as nat * s) by (nonlinear_arith)
            requires
                n == d * whole + rest,
                dn == d,
                s == scale,
        ;
        lemma_rounded_div_split(whole as nat * s, rest as nat * s, dn);
        assert(tail == rounded_div(rest as nat * s, dn));
    }
    match whole.checked_mul(scale as u128) {
        None => u128::MAX,
        Some(head) => match head.checked_add(tail) {
            None => u128::MAX,
            Some(ratio) => ratio,
        },
    }
}

/// Requests per second, in hundredths: the outcomes of the batch over its
/// duration; zero where the duration is zero.
pub open spec fn spec_requests_per_second(total: nat, duration_micros: nat) -> nat {
    rounded_div(total * 100_000_000, duration_micros)
}

/// The share of successes among all outcomes, in hundredths of a percent;
/// zero where there was no outcome.
pub open spec fn spec_success_rate(success: nat, total: nat) -> nat {
    rounded_div(success * 10_000, total)
}

/// Megabytes received, in hundredths; a megabyte is a million bytes.
pub open spec fn spec_megabytes(bytes: nat) -> nat {
    rounded_div(bytes * 100, 1_000_000)
}

/// Megabits received per second, in hundredths, cut off at the largest
/// `u128`; a megabit is a million bits. Zero where the duration is zero.
pub open spec fn spec_megabits_per_second(bytes: nat, duration_micros: nat) -> nat {
    saturated(rounded_div(bytes * 800, duration_micros))
}

/// Requests per second, in hundredths.
pub fn requests_per_second(total: usize, duration_micros: u64) -> (rps: u128)
    ensures
        rps == spec_requests_per_second(total as nat, duration_micros as nat),
{
    if duration_micros == 0 {
        0
    } else {
        proof {
            lemma_rounded_div_bound(total as nat * 100_000_000, duration_micros as nat);
            assert(total as nat * 100_000_000 <= u128::MAX);
        }
        scaled_ratio(total as u128, 100_000_000, duration_micros)
    }
}

/// The success rate, in hundredths of a percent.
pub fn success_rate(success: usize, total: usize) -> (rate: u128)
    ensures
        rate == spec_success_rate(success as nat, total as nat),
        success <= total ==> rate <= 10_000,
{
    if total == 0 {
        0
    } else {
        proof {
            lemma_rounded_div_bound(success as nat * 10_000, total as nat);
            if success <= total {
                lemma_rounded_div_split(10_000, 0, total as nat);
                lemma_basic_div(total as int, 2 * total as int);
                assert(rounded_div(10_000 * total as nat, total as nat) == 10_000);
                lemma_rounded_div_monotone(
                    success as nat * 10_000,
                    10_000 * total as nat,
                    total as nat,
                );
            }
        }
        scaled_ratio(success as u128, 10_000, total as u64)
    }
}

/// A rounded quotient does not fall when the dividend grows.
pub proof fn lemma_rounded_div_monotone(a: nat, b: nat, d: nat)
    requires
        a <= b,
    ensures
        rounded_div(a, d) <= rounded_div(b, d),
{
    if d > 0 {
        lemma_div_is_ordered((2 * a + d) as int, (2 * b + d) as int, (2 * d) as int);
    }
}

/// Megabytes received, in hundredths.
pub fn megabytes(bytes: u128) -> (mb: u128)
    ensures
        mb == spec_megabytes(bytes as nat),
{
    proof {
        lemma_rounded_div_bound(bytes as nat, 10_000);
        lemma_megabytes_reduced(bytes as nat);
    }
    scaled_ratio(bytes, 1, 10_000)
}

/// Hundredths of a megabyte are ten thousands of bytes.
pub proof fn lemma_megabytes_reduced(bytes: nat)
    ensures
        spec_megabytes(bytes) == rounded_div(bytes, 10_000),
{
    let x = (2 * bytes + 10_000) as int;
    lemma_div_denominator(100 * x, 100, 20_000);
    lemma_div_multiples_vanish_quotient(100, x, 20_000);
    assert((2 * (bytes * 100) + 1_000_000) == 100 * x);
}

/// Megabits received per second, in hundredths.
pub fn megabits_per_second(bytes: u128, duration_micros: u64) -> (mbps: u128)
    ensures
        mbps == spec_megabits_per_second(bytes as nat, duration_micros as nat),
{
    if duration_micros == 0 {
        0
    } else {
        scaled_ratio(bytes, 800, duration_micros)
    }
}

} // verus!
