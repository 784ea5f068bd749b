//! Sums, minima and maxima over windows of a series, and what follows from
//! their definitions.

use vstd::prelude::*;
use crate::fixed::lemma_div_exact;
use crate::fixed::lemma_div_monotonic;

verus! {

/// The smaller of two integers.
pub open spec fn min2(a: int, b: int) -> int {
    if a <= b {
        a
    } else {
        b
    }
}

/// The larger of two integers.
pub open spec fn max2(a: int, b: int) -> int {
    if a >= b {
        a
    } else {
        b
    }
}

/// The magnitude of an integer.
pub open spec fn abs(a: int) -> int {
    if a >= 0 {
        a
    } else {
        -a
    }
}

/// The sum of `s[lo], ..., s[hi - 1]`.
pub open spec fn window_sum(s: Seq<i64>, lo: int, hi: int) -> int
    decreases hi - lo,
{
    if hi <= lo {
        0
    } else {
        window_sum(s, lo, hi - 1) + s[hi - 1]
    }
}

/// The least of `s[lo], ..., s[hi - 1]`, for a window that is not empty.
pub open spec fn window_min(s: Seq<i64>, lo: int, hi: int) -> int
    decreases hi - lo,
{
    if hi <= lo + 1 {
        s[lo] as int
    } else {
        min2(window_min(s, lo, hi - 1), s[hi - 1] as int)
    }
}

/// The greatest of `s[lo], ..., s[hi - 1]`, for a window that is not empty.
pub open spec fn window_max(s: Seq<i64>, lo: int, hi: int) -> int
    decreases hi - lo,
{
    if hi <= lo + 1 {
        s[lo] as int
    } else {
        max2(window_max(s, lo, hi - 1), s[hi - 1] as int)
    }
}

/// The sum of the squared distances of `s[lo], ..., s[hi - 1]` from `center`.
pub open spec fn window_sq_dev(s: Seq<i64>, center: int, lo: int, hi: int) -> int
    decreases hi - lo,
{
    if hi <= lo {
        0
    } else {
        window_sq_dev(s, center, lo, hi - 1) + (s[hi - 1] - center) * (s[hi - 1] - center)
    }
}

/// The arithmetic mean of `s[lo], ..., s[hi - 1]`, rounded down.
pub open spec fn window_mean(s: Seq<i64>, lo: int, hi: int) -> int {
    window_sum(s, lo, hi) / (hi - lo)
}

/// A window's sum is its first element plus the sum of the rest.
pub proof fn lemma_window_sum_front(s: Seq<i64>, lo: int, hi: int)
    requires
        lo < hi,
    ensures
        window_sum(s, lo, hi) == s[lo] + window_sum(s, lo + 1, hi),
    decreases hi - lo,
{
    if hi == lo + 1 {
        assert(window_sum(s, lo, lo) == 0);
    } else {
        lemma_window_sum_front(s, lo, hi - 1);
    }
}

/// Moving a window one step drops its first element and takes in the next.
pub proof fn lemma_window_sum_slide(s: Seq<i64>, lo: int, hi: int)
    requires
        lo <= hi,
    ensures
        window_sum(s, lo + 1, hi + 1) == window_sum(s, lo, hi) - s[lo] + s[hi],
{
    if lo < hi {
        lemma_window_sum_front(s, lo, hi);
    }
}

/// A window's sum lies between its length times the least and the greatest
/// 64-bit value.
pub proof fn lemma_window_sum_bounds(s: Seq<i64>, lo: int, hi: int)
    requires
        0 <= lo <= hi <= s.len(),
    ensures
        (hi - lo) * i64::MIN <= window_sum(s, lo, hi) <= (hi - lo) * i64::MAX,
    decreases hi - lo,
{
    if lo < hi {
        lemma_window_sum_bounds(s, lo, hi - 1);
    }
}

/// The sum of a window of non-negative elements is non-negative.
pub proof fn lemma_window_sum_nonnegative(s: Seq<i64>, lo: int, hi: int)
    requires
        0 <= lo <= hi <= s.len(),
        forall|j: int| lo <= j < hi ==> s[j] >= 0,
    ensures
        0 <= window_sum(s, lo, hi),
    decreases hi - lo,
{
    if lo < hi {
        lemma_window_sum_nonnegative(s, lo, hi - 1);
    }
}

/// A quotient of a value between `n * lo` and `n * hi` by `n` lies between
/// `lo` and `hi`.
pub proof fn lemma_mean_bounds(sum: int, n: int, lo: int, hi: int)
    requires
        n > 0,
        n * lo <= sum <= n * hi,
    ensures
        lo <= sum / n <= hi,
{
    assert(n * lo == lo * n && n * hi == hi * n) by (nonlinear_arith);
    lemma_div_monotonic(lo * n, sum, n);
    lemma_div_monotonic(sum, hi * n, n);
    lemma_div_exact(lo, n);
    lemma_div_exact(hi, n);
}

/// The mean of a window that is not empty is a 64-bit value.
pub proof fn lemma_window_mean_fits(s: Seq<i64>, lo: int, hi: int)
    requires
        0 <= lo < hi <= s.len(),
    ensures
        i64::MIN <= window_mean(s, lo, hi) <= i64::MAX,
{
    lemma_window_sum_bounds(s, lo, hi);
    lemma_mean_bounds(window_sum(s, lo, hi), hi - lo, i64::MIN as int, i64::MAX as int);
}

/// Two series that agree on a window have the same sum over it.
pub proof fn lemma_window_sum_agree(s: Seq<i64>, t: Seq<i64>, lo: int, hi: int)
    requires
        forall|j: int| lo <= j < hi ==> s[j] == t[j],
    ensures
        window_sum(s, lo, hi) == window_sum(t, lo, hi),
    decreases hi - lo,
{
    if lo < hi {
        lemma_window_sum_agree(s, t, lo, hi - 1);
    }
}

/// The sum of a window whose elements all equal `c` is `c` times its length.
pub proof fn lemma_window_sum_constant(s: Seq<i64>, c: int, lo: int, hi: int)
    requires
        lo <= hi,
        forall|j: int| lo <= j < hi ==> s[j] == c,
    ensures
        window_sum(s, lo, hi) == c * (hi - lo),
    decreases hi - lo,
{
    if lo < hi {
        lemma_window_sum_constant(s, c, lo, hi - 1);
        assert(c * (hi - lo) == c * (hi - 1 - lo) + c) by (nonlinear_arith);
    } else {
        assert(c * (hi - lo) == 0) by (nonlinear_arith)
            requires
                hi - lo == 0,
        ;
    }
}

/// A sum of squared distances is non-negative and grows with the window.
pub proof fn lemma_window_sq_dev_monotonic(s: Seq<i64>, center: int, lo: int, mid: int, hi: int)
    requires
        lo <= mid <= hi,
    ensures
        0 <= window_sq_dev(s, center, lo, mid) <= window_sq_dev(s, center, lo, hi),
    decreases hi - lo,
{
    if mid < hi {
        lemma_window_sq_dev_monotonic(s, center, lo, mid, hi - 1);
        let d = s[hi - 1] - center;
        assert(d * d >= 0) by (nonlinear_arith);
    } else if lo < mid {
        lemma_window_sq_dev_monotonic(s, center, lo, mid - 1, mid - 1);
        let d = s[mid - 1] - center;
        assert(d * d >= 0) by (nonlinear_arith);
    }
}

/// Around the common value of its elements, a window has no deviation.
pub proof fn lemma_window_sq_dev_constant(s: Seq<i64>, c: int, lo: int, hi: int)
    requires
        forall|j: int| lo <= j < hi ==> s[j] == c,
    ensures
        window_sq_dev(s, c, lo, hi) == 0,
    decreases hi - lo,
{
    if lo < hi {
        lemma_window_sq_dev_constant(s, c, lo, hi - 1);
        assert((s[hi - 1] - c) * (s[hi - 1] - c) == 0) by (nonlinear_arith)
            requires
                s[hi - 1] - c == 0,
        ;
    }
}

} // verus!
