//! Fixed-point arithmetic.
//!
//! Every real-valued quantity of the engine (a price, a quantity, a cash
//! amount, a rate, an indicator value) is a decimal fixed-point number held in
//! an `i64` that counts millionths: the real number `x` is stored as
//! `x * SCALE`, rounded down. Products and quotients are computed exactly in
//! 128 bits and rounded once, toward negative infinity.

use vstd::prelude::*;
use vstd::arithmetic::div_mod::lemma_fundamental_div_mod;
use vstd::arithmetic::div_mod::lemma_fundamental_div_mod_converse;

verus! {

/// Number of stored units that make up the real number one.
pub const SCALE: i64 = 1_000_000;

/// `x` can be stored in an `i64`.
pub open spec fn fits_i64(x: int) -> bool {
    i64::MIN <= x <= i64::MAX
}

/// The quotient `a / b` rounded toward negative infinity, for any non-zero `b`.
pub open spec fn floor_div(a: int, b: int) -> int {
    if b > 0 {
        a / b
    } else {
        (-a) / (-b)
    }
}

/// Product of two fixed-point numbers, as a fixed-point number.
pub open spec fn scaled_mul(a: int, b: int) -> int {
    (a * b) / (SCALE as int)
}

/// `r` is the integer square root of `n`: the largest integer whose square
/// does not exceed `n`.
pub open spec fn is_floor_sqrt(n: int, r: int) -> bool {
    0 <= r && r * r <= n && n < (r + 1) * (r + 1)
}

/// Integer square root of a non-negative `n`.
pub open spec fn floor_sqrt(n: int) -> int {
    choose|r: int| is_floor_sqrt(n, r)
}

/// For a positive divisor the quotient is the unique `q` with
/// `q * d <= x < (q + 1) * d`.
pub proof fn lemma_div_bounds(x: int, d: int)
    requires
        d > 0,
    ensures
        (x / d) * d <= x < (x / d + 1) * d,
{
    lemma_fundamental_div_mod(x, d);
    assert((x / d + 1) * d == (x / d) * d + d) by (nonlinear_arith);
    assert(d * (x / d) == (x / d) * d) by (nonlinear_arith);
}

/// Any `q` with `q * d <= x < (q + 1) * d` is the quotient.
pub proof fn lemma_div_unique(x: int, d: int, q: int)
    requires
        d > 0,
        q * d <= x < (q + 1) * d,
    ensures
        x / d == q,
{
    let r = x - q * d;
    assert((q + 1) * d == q * d + d) by (nonlinear_arith);
    lemma_fundamental_div_mod_converse(x, d, q, r);
}

/// Division by a positive divisor is monotonic in the dividend.
pub proof fn lemma_div_monotonic(x: int, y: int, d: int)
    requires
        d > 0,
        x <= y,
    ensures
        x / d <= y / d,
{
    lemma_div_bounds(x, d);
    lemma_div_bounds(y, d);
    let a = x / d;
    let b = y / d;
    if a > b {
        assert(a * d >= (b + 1) * d) by (nonlinear_arith)
            requires
                a >= b + 1,
                d > 0,
        ;
    }
}

/// A multiple of the divisor divides exactly.
pub proof fn lemma_div_exact(q: int, d: int)
    requires
        d > 0,
    ensures
        (q * d) / d == q,
{
    assert((q + 1) * d == q * d + d) by (nonlinear_arith);
    lemma_div_unique(q * d, d, q);
}

/// The integer square root is unique.
pub proof fn lemma_floor_sqrt_unique(n: int, r: int)
    requires
        is_floor_sqrt(n, r),
    ensures
        floor_sqrt(n) == r,
{
    let s = floor_sqrt(n);
    if s < r {
        assert((s + 1) * (s + 1) <= r * r) by (nonlinear_arith)
            requires
                0 <= s,
                s + 1 <= r,
        ;
    }
    if r < s {
        assert((r + 1) * (r + 1) <= s * s) by (nonlinear_arith)
            requires
                0 <= r,
                r + 1 <= s,
        ;
    }
}

/// Quotient rounded toward negative infinity.
pub fn div_floor(a: i128, b: i128) -> (q: i128)
    requires
        b != 0,
        b < 0 ==> a != i128::MIN && b != i128::MIN,
    ensures
        q == floor_div(a as int, b as int),
{
    let (n, d): (i128, i128) = if b > 0 {
        (a, b)
    } else {
        (-a, -b)
    };
    if n >= 0 {
        n / d
    } else {
        let m: i128 = -(n + 1);
        let t: i128 = m / d;
        proof {
            // m == t * d + r with 0 <= r < d, so n == (-t - 1) * d + (d - 1 - r).
            let ti = t as int;
            let di = d as int;
            lemma_div_bounds(m as int, di);
            assert((ti + 1) * di == ti * di + di) by (nonlinear_arith);
            assert((-ti - 1) * di == -(ti * di) - di) by (nonlinear_arith);
            assert((-ti - 1 + 1) * di == -(ti * di)) by (nonlinear_arith);
            lemma_div_unique(n as int, di, -ti - 1);
        }
        -t - 1
    }
}

/// Narrows a 128-bit value to an `i64` where it fits.
pub fn narrow(x: i128) -> (r: Option<i64>)
    ensures
        match r {
            Some(v) => v == x,
            None => !fits_i64(x as int),
        },
{
    if x < i64::MIN as i128 || x > i64::MAX as i128 {
        None
    } else {
        Some(x as i64)
    }
}

/// Product of two fixed-point numbers, rounded toward negative infinity.
pub fn mul_scaled(a: i64, b: i64) -> (r: i128)
    ensures
        r == scaled_mul(a as int, b as int),
        -0x1000_0000_0000_0000_0000_0000_0000 <= r <= 0x1000_0000_0000_0000_0000_0000_0000,
{
    assert(-0x4000_0000_0000_0000_0000_0000_0000_0000 <= a * b
        <= 0x4000_0000_0000_0000_0000_0000_0000_0000) by (nonlinear_arith)
        requires
            -0x8000_0000_0000_0000 <= a <= 0x7fff_ffff_ffff_ffff,
            -0x8000_0000_0000_0000 <= b <= 0x7fff_ffff_ffff_ffff,
    ;
    let p: i128 = (a as i128) * (b as i128);
    div_floor(p, SCALE as i128)
}

/// Integer square root.
pub fn isqrt(n: u128) -> (r: u64)
    ensures
        r == floor_sqrt(n as int),
{
    // Invariant: lo * lo <= n < hi * hi, with hi <= 2^64.
    let mut lo: u128 = 0;
    let mut hi: u128 = 0x1_0000_0000_0000_0000;
    while hi - lo > 1
        invariant
            lo < hi <= 0x1_0000_0000_0000_0000,
            lo * lo <= n,
            n < hi * hi,
        decreases hi - lo,
    {
        let mid: u128 = lo + (hi - lo) / 2;
        assert(mid * mid < 0x1_0000_0000_0000_0000_0000_0000_0000_0000) by (nonlinear_arith)
            requires
                0 <= mid < 0x1_0000_0000_0000_0000,
        ;
        if mid * mid <= n {
            lo = mid;
        } else {
            hi = mid;
        }
    }
    proof {
        lemma_floor_sqrt_unique(n as int, lo as int);
    }
    lo as u64
}

} // verus!
