//! Small verified integer helpers: floor and round-to-nearest division by a
//! positive divisor.  Ghost `/` on `int` is Euclidean division, which for a
//! positive divisor coincides with flooring; the executable bodies work on
//! magnitudes so that only unsigned machine division is needed.

use vstd::prelude::*;
use vstd::arithmetic::div_mod::{lemma_fundamental_div_mod, lemma_fundamental_div_mod_converse};

verus! {

/// Division rounding to the nearest integer, ties toward positive infinity:
/// `floor((2n + d) / (2d))` for a positive divisor `d`.
pub open spec fn round_div_spec(n: int, d: int) -> int {
    (2 * n + d) / (2 * d)
}

/// Floor division of `n` by a positive divisor `d`.
pub fn flr_div(n: i64, d: i64) -> (q: i64)
    requires
        0 < d,
        -0x2000_0000_0000_0000 <= n <= 0x2000_0000_0000_0000,
        d <= 0x2000_0000_0000_0000,
    ensures
        q == n as int / d as int,
{
    if n >= 0 {
        let qu: u64 = (n as u64) / (d as u64);
        qu as i64
    } else {
        let m: u64 = (-n) as u64;
        let c: u64 = (m + (d as u64) - 1) / (d as u64);
        proof {
            let mi = m as int;
            let di = d as int;
            let ci = c as int;
            lemma_fundamental_div_mod(mi + di - 1, di);
            let r0 = (mi + di - 1) % di;
            assert((-ci) * di == -(di * ci)) by (nonlinear_arith);
            lemma_fundamental_div_mod_converse(-mi, di, -ci, di - 1 - r0);
        }
        -(c as i64)
    }
}

/// Division by a positive divisor, rounded to the nearest integer (ties
/// toward positive infinity).
pub fn round_div(n: i64, d: i64) -> (q: i64)
    requires
        0 < d,
        -0x0800_0000_0000_0000 <= n <= 0x0800_0000_0000_0000,
        d <= 0x0800_0000_0000_0000,
    ensures
        q == round_div_spec(n as int, d as int),
{
    flr_div(2 * n + d, 2 * d)
}

/// A rounded quotient is within one half of the exact quotient:
/// the error `round_div_spec(n, d) * d - n` lies in `(-d/2, d/2]`.
pub proof fn lemma_round_div_close(n: int, d: int)
    requires
        0 < d,
    ensures
        2 * (round_div_spec(n, d) * d - n) <= d,
        2 * (n - round_div_spec(n, d) * d) < d,
{
    lemma_fundamental_div_mod(2 * n + d, 2 * d);
    let q = (2 * n + d) / (2 * d);
    assert((2 * d) * q == 2 * (q * d)) by (nonlinear_arith);
}

/// A floored quotient stays between any bounds whose multiples enclose the
/// numerator.
pub proof fn lemma_flr_div_bounds(n: int, d: int, lo: int, hi: int)
    requires
        0 < d,
        lo * d <= n,
        n <= hi * d + (d - 1),
    ensures
        lo <= n / d <= hi,
{
    lemma_fundamental_div_mod(n, d);
    let q = n / d;
    assert(lo <= q <= hi) by (nonlinear_arith)
        requires
            0 < d,
            lo * d <= n,
            n <= hi * d + (d - 1),
            n == d * q + n % d,
            0 <= n % d < d,
    ;
}

/// A rounded quotient stays between any bounds whose multiples enclose the
/// numerator.
pub proof fn lemma_round_div_bounds(n: int, d: int, lo: int, hi: int)
    requires
        0 < d,
        lo * d <= n,
        n <= hi * d,
    ensures
        lo <= round_div_spec(n, d) <= hi,
{
    lemma_round_div_close(n, d);
    let q = round_div_spec(n, d);
    assert(lo <= q <= hi) by (nonlinear_arith)
        requires
            0 < d,
            lo * d <= n,
            n <= hi * d,
            2 * (q * d - n) <= d,
            2 * (n - q * d) < d,
    ;
}

/// Rounding an exact multiple returns the factor.
pub proof fn lemma_round_div_exact(a: int, d: int)
    requires
        0 < d,
    ensures
        round_div_spec(a * d, d) == a,
{
    assert(2 * (a * d) + d == a * (2 * d) + d) by (nonlinear_arith);
    lemma_fundamental_div_mod_converse(2 * (a * d) + d, 2 * d, a, d);
}

} // verus!
