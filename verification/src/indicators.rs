//! The indicator engine: series derived from the bars of a feed.
//!
//! Every indicator returns a series as long as its input, aligned with it
//! index by index. Where an index has too little history behind it (the
//! warm-up region) the series holds the placeholder zero, which stands for no
//! value. The window of an index `i` and a period `p` is the `p` bars that end
//! with bar `i`.

use vstd::prelude::*;
use crate::data::DataFeed;
use crate::error::BacktestError;
use crate::fixed::SCALE;
use crate::fixed::div_floor;
use crate::fixed::fits_i64;
use crate::fixed::floor_div;
use crate::fixed::floor_sqrt;
use crate::fixed::isqrt;
use crate::fixed::lemma_div_bounds;
use crate::fixed::lemma_div_exact;
use crate::fixed::lemma_div_monotonic;
use crate::fixed::lemma_floor_sqrt_unique;
use crate::fixed::narrow;
use crate::series::abs;
use crate::series::lemma_mean_bounds;
use crate::series::lemma_window_mean_fits;
use crate::series::lemma_window_sq_dev_constant;
use crate::series::lemma_window_sq_dev_monotonic;
use crate::series::lemma_window_sum_agree;
use crate::series::lemma_window_sum_bounds;
use crate::series::lemma_window_sum_constant;
use crate::series::lemma_window_sum_nonnegative;
use crate::series::lemma_window_sum_slide;
use crate::series::max2;
use crate::series::min2;
use crate::series::window_max;
use crate::series::window_mean;
use crate::series::window_min;
use crate::series::window_sq_dev;
use crate::series::window_sum;

verus! {

/// The indicators of one bar series.
pub struct Indicators {
    pub ohlcv: DataFeed,
}

/// `period` is at least one and at most `len`.
pub open spec fn period_valid(period: int, len: int) -> bool {
    1 <= period <= len
}

/// Simple moving average at index `i`: the mean of the window that ends at
/// `i`, or the placeholder in the warm-up region.
pub open spec fn sma_at(s: Seq<i64>, period: int, i: int) -> int {
    if 1 <= period && period - 1 <= i {
        window_mean(s, i - period + 1, i + 1)
    } else {
        0
    }
}

/// The simple moving average is the arithmetic mean of its window, rounded
/// down: `period` times the average falls short of the sum of the window by
/// less than `period`.
pub proof fn lemma_sma_is_mean(s: Seq<i64>, period: int, i: int)
    requires
        1 <= period,
        period - 1 <= i,
    ensures
        sma_at(s, period, i) * period <= window_sum(s, i - period + 1, i + 1) < (sma_at(
            s,
            period,
            i,
        ) + 1) * period,
{
    lemma_div_bounds(window_sum(s, i - period + 1, i + 1), period);
}

/// One step of exponential smoothing with factor `2 / (period + 1)`.
pub open spec fn ema_step(previous: int, price: int, period: int) -> int {
    previous + (2 * (price - previous)) / (period + 1)
}

/// Exponential moving average at index `i` of the part of `s` that begins at
/// `start`: the mean of the first `period` values at the first index that
/// has them behind it, then one smoothing step per index.
pub open spec fn ema_at(s: Seq<i64>, start: int, period: int, i: int) -> int
    decreases i,
{
    if period < 1 || start < 0 || i < start + period - 1 {
        0
    } else if i == start + period - 1 {
        window_mean(s, start, start + period)
    } else {
        ema_step(ema_at(s, start, period, i - 1), s[i] as int, period)
    }
}

/// A smoothing step lands between the previous value and the price.
pub proof fn lemma_ema_step_between(previous: int, price: int, period: int)
    requires
        period >= 1,
    ensures
        min2(previous, price) <= ema_step(previous, price, period) <= max2(previous, price),
{
    let d = price - previous;
    let n = period + 1;
    if d >= 0 {
        assert(2 * d <= d * n) by (nonlinear_arith)
            requires
                d >= 0,
                n >= 2,
        ;
        lemma_div_monotonic(2 * d, d * n, n);
        lemma_div_exact(d, n);
    } else {
        assert(d * n <= 2 * d) by (nonlinear_arith)
            requires
                d < 0,
                n >= 2,
        ;
        lemma_div_monotonic(d * n, 2 * d, n);
        lemma_div_monotonic(2 * d, 0, n);
        lemma_div_exact(d, n);
    }
}

/// The exponential moving average is a 64-bit value at every index.
pub proof fn lemma_ema_fits(s: Seq<i64>, start: int, period: int, i: int)
    requires
        0 <= start,
        1 <= period,
        start + period <= s.len(),
        i < s.len(),
    ensures
        fits_i64(ema_at(s, start, period, i)),
    decreases i,
{
    if i == start + period - 1 {
        lemma_window_mean_fits(s, start, start + period);
    } else if i > start + period - 1 {
        lemma_ema_fits(s, start, period, i - 1);
        lemma_ema_step_between(ema_at(s, start, period, i - 1), s[i] as int, period);
    }
}

/// The exponential moving average starts from the simple moving average: at
/// index `period - 1` the two agree.
pub proof fn lemma_ema_seed_is_sma(s: Seq<i64>, period: int)
    requires
        1 <= period,
    ensures
        ema_at(s, 0, period, period - 1) == sma_at(s, period, period - 1),
{
}

/// Past its first value the exponential moving average is a recurrence: the
/// value at `i` is one smoothing step from the value at `i - 1` toward the
/// price at `i`.
pub proof fn lemma_ema_recurrence(s: Seq<i64>, period: int, i: int)
    requires
        1 <= period <= i,
    ensures
        ema_at(s, 0, period, i) == ema_step(ema_at(s, 0, period, i - 1), s[i] as int, period),
{
}

/// The exponential moving average at `i` depends on no price after index
/// `i`: two series that agree up to `i` have the same value there.
pub proof fn lemma_ema_ignores_future(s: Seq<i64>, t: Seq<i64>, start: int, period: int, i: int)
    requires
        forall|j: int| 0 <= j <= i ==> s[j] == t[j],
    ensures
        ema_at(s, start, period, i) == ema_at(t, start, period, i),
    decreases i,
{
    if period >= 1 && start >= 0 {
        if i == start + period - 1 {
            lemma_window_sum_agree(s, t, start, start + period);
        } else if i > start + period - 1 {
            lemma_ema_ignores_future(s, t, start, period, i - 1);
        }
    }
}

/// A series of `n` placeholders.
fn zeros(n: usize) -> (v: Vec<i64>)
    ensures
        v@.len() == n,
        forall|i: int| 0 <= i < n ==> v@[i] == 0,
{
    let mut v: Vec<i64> = Vec::new();
    let mut i: usize = 0;
    while i < n
        invariant
            i <= n,
            v@.len() == i,
            forall|j: int| 0 <= j < i ==> v@[j] == 0,
        decreases n - i,
    {
        v.push(0);
        i += 1;
    }
    v
}

/// The period as an index, where it is valid for a series of `len` values.
fn checked_period(period: i64, len: usize) -> (r: Option<usize>)
    ensures
        match r {
            Some(p) => p == period && period_valid(period as int, len as int),
            None => !period_valid(period as int, len as int),
        },
{
    if period < 1 || period as u64 > len as u64 {
        None
    } else {
        Some(period as usize)
    }
}

/// The sum of `data[lo], ..., data[hi - 1]`.
fn sum_window(data: &Vec<i64>, lo: usize, hi: usize) -> (sum: i128)
    requires
        lo <= hi <= data@.len(),
    ensures
        sum == window_sum(data@, lo as int, hi as int),
{
    let mut sum: i128 = 0;
    let mut j: usize = lo;
    while j < hi
        invariant
            lo <= j <= hi <= data@.len(),
            sum == window_sum(data@, lo as int, j as int),
        decreases hi - j,
    {
        proof {
            lemma_window_sum_bounds(data@, lo as int, j as int);
        }
        sum = sum + data[j] as i128;
        j += 1;
    }
    sum
}

/// Simple moving average of `data` over `period` values.
///
/// The value at an index from `period - 1` on is the mean, rounded down, of
/// the `period` values that end there; before that it is the placeholder.
/// The period must be at least one and at most the length of `data`.
pub fn sma(data: &Vec<i64>, period: i64) -> (r: Result<Vec<i64>, BacktestError>)
    ensures
        r is Ok <==> period_valid(period as int, data@.len() as int),
        match r {
            Ok(out) => {
                &&& out@.len() == data@.len()
                &&& forall|i: int| 0 <= i < out@.len() ==> out@[i] == sma_at(data@, period as int, i)
            },
            Err(e) => e == BacktestError::InvalidPeriod,
        },
{
    match checked_period(period, data.len()) {
        Some(p) => Ok(sma_over(data, p)),
        None => Err(BacktestError::InvalidPeriod),
    }
}

/// Simple moving average of `data` over a period that is valid for it.
pub fn sma_over(data: &Vec<i64>, period: usize) -> (out: Vec<i64>)
    requires
        period_valid(period as int, data@.len() as int),
    ensures
        out@.len() == data@.len(),
        forall|i: int| 0 <= i < out@.len() ==> out@[i] == sma_at(data@, period as int, i),
{
    let n = data.len();
    let p = period;
    let mut out = zeros(p - 1);
    let mut sum: i128 = sum_window(data, 0, p);
    let mut i: usize = p - 1;
    while i < n
        invariant
            1 <= p <= n,
            n == data@.len(),
            p == period,
            p - 1 <= i <= n,
            out@.len() == i,
            i < n ==> sum == window_sum(data@, i - p + 1, i + 1),
            forall|j: int| 0 <= j < i ==> out@[j] == sma_at(data@, period as int, j),
        decreases n - i,
    {
        proof {
            lemma_window_mean_fits(data@, i - p + 1, i + 1);
        }
        let mean = div_floor(sum, p as i128);
        out.push(mean as i64);
        i += 1;
        if i < n {
            proof {
                lemma_window_sum_slide(data@, i - p, i as int);
                lemma_window_sum_bounds(data@, i - p, i as int);
            }
            let delta: i128 = data[i] as i128 - data[i - p] as i128;
            sum = sum + delta;
        }
    }
    out
}

/// Exponential moving average over `period` values of the part of `data`
/// that begins at `start`. The part must hold at least `period` values.
fn ema_from(data: &Vec<i64>, start: usize, period: usize) -> (out: Vec<i64>)
    requires
        1 <= period,
        start + period <= data@.len(),
    ensures
        out@.len() == data@.len(),
        forall|i: int| 0 <= i < out@.len() ==> out@[i] == ema_at(data@, start as int, period as int, i),
{
    let n = data.len();
    let first = start + period - 1;
    let mut out = zeros(first);
    proof {
        lemma_window_mean_fits(data@, start as int, start + period);
    }
    let seed = div_floor(sum_window(data, start, start + period), period as i128);
    let mut previous: i64 = seed as i64;
    out.push(previous);
    let mut i: usize = first + 1;
    while i < n
        invariant
            1 <= period,
            start + period <= data@.len(),
            n == data@.len(),
            first == start + period - 1,
            first + 1 <= i <= n,
            out@.len() == i,
            previous == ema_at(data@, start as int, period as int, i - 1),
            forall|j: int| 0 <= j < i ==> out@[j] == ema_at(data@, start as int, period as int, j),
        decreases n - i,
    {
        proof {
            lemma_ema_fits(data@, start as int, period as int, i as int);
        }
        let change = div_floor(2 * (data[i] as i128 - previous as i128), period as i128 + 1);
        previous = (previous as i128 + change) as i64;
        out.push(previous);
        i += 1;
    }
    out
}

/// Exponential moving average of `data` over `period` values.
///
/// The value at index `period - 1` is the mean of the first `period` values.
/// Each later value moves the one before it toward the price by the factor
/// `2 / (period + 1)`. Earlier values are the placeholder. The period must
/// be at least one and at most the length of `data`.
pub fn ema(data: &Vec<i64>, period: i64) -> (r: Result<Vec<i64>, BacktestError>)
    ensures
        r is Ok <==> period_valid(period as int, data@.len() as int),
        match r {
            Ok(out) => {
                &&& out@.len() == data@.len()
                &&& forall|i: int|
                    0 <= i < out@.len() ==> out@[i] == ema_at(data@, 0, period as int, i)
            },
            Err(e) => e == BacktestError::InvalidPeriod,
        },
{
    match checked_period(period, data.len()) {
        Some(p) => Ok(ema_from(data, 0, p)),
        None => Err(BacktestError::InvalidPeriod),
    }
}

/// The first index at which both moving averages of the convergence line
/// have a value.
pub open spec fn macd_start(fast: int, slow: int) -> int {
    max2(fast, slow) - 1
}

/// Convergence line at index `i`: the fast exponential moving average less
/// the slow one, or the placeholder where either has no value yet.
pub open spec fn macd_at(s: Seq<i64>, fast: int, slow: int, i: int) -> int {
    if i < macd_start(fast, slow) {
        0
    } else {
        ema_at(s, 0, fast, i) - ema_at(s, 0, slow, i)
    }
}

/// Every value of the convergence line can be stored.
pub open spec fn macd_fits(s: Seq<i64>, fast: int, slow: int) -> bool {
    forall|i: int| 0 <= i < s.len() ==> fits_i64(#[trigger] macd_at(s, fast, slow, i))
}

/// Convergence line of a fast and a slow exponential moving average of
/// `data`, and its signal line.
///
/// The signal line is the exponential moving average over `period` values of
/// the part of the convergence line that has values: it starts from the mean
/// of the first `period` of them. `fast` and `slow` must be valid periods for
/// `data`, `period` at least one, and the convergence line must have at
/// least `period` values.
pub fn macd(data: &Vec<i64>, period: i64, fast: i64, slow: i64) -> (r: Result<
    (Vec<i64>, Vec<i64>),
    BacktestError,
>)
    ensures
        match r {
            Ok((line, signal)) => {
                &&& period_valid(fast as int, data@.len() as int)
                &&& period_valid(slow as int, data@.len() as int)
                &&& 1 <= period <= data@.len() - macd_start(fast as int, slow as int)
                &&& macd_fits(data@, fast as int, slow as int)
                &&& line@.len() == data@.len()
                &&& signal@.len() == data@.len()
                &&& forall|i: int|
                    0 <= i < line@.len() ==> line@[i] == macd_at(data@, fast as int, slow as int, i)
                &&& forall|i: int|
                    0 <= i < signal@.len() ==> signal@[i] == ema_at(
                        line@,
                        macd_start(fast as int, slow as int),
                        period as int,
                        i,
                    )
            },
            Err(BacktestError::InvalidPeriod) => {
                ||| period < 1
                ||| !period_valid(fast as int, data@.len() as int)
                ||| !period_valid(slow as int, data@.len() as int)
            },
            Err(BacktestError::InsufficientData) => {
                &&& 1 <= period
                &&& period_valid(fast as int, data@.len() as int)
                &&& period_valid(slow as int, data@.len() as int)
                &&& period > data@.len() - macd_start(fast as int, slow as int)
            },
            Err(BacktestError::Overflow) => {
                &&& period_valid(fast as int, data@.len() as int)
                &&& period_valid(slow as int, data@.len() as int)
                &&& 1 <= period <= data@.len() - macd_start(fast as int, slow as int)
                &&& !macd_fits(data@, fast as int, slow as int)
            },
            Err(_) => false,
        },
{
    let n = data.len();
    if period < 1 {
        return Err(BacktestError::InvalidPeriod);
    }
    let fast_period = match checked_period(fast, n) {
        Some(p) => p,
        None => {
            return Err(BacktestError::InvalidPeriod);
        },
    };
    let slow_period = match checked_period(slow, n) {
        Some(p) => p,
        None => {
            return Err(BacktestError::InvalidPeriod);
        },
    };
    let start = if fast_period > slow_period {
        fast_period - 1
    } else {
        slow_period - 1
    };
    if period as u64 > (n - start) as u64 {
        return Err(BacktestError::InsufficientData);
    }
    let fast_line = ema_from(data, 0, fast_period);
    let slow_line = ema_from(data, 0, slow_period);
    let mut line = zeros(start);
    let mut i: usize = start;
    while i < n
        invariant
            start <= i <= n,
            n == data@.len(),
            start == macd_start(fast as int, slow as int),
            period_valid(fast as int, n as int),
            period_valid(slow as int, n as int),
            1 <= period <= n - start,
            fast_line@.len() == n,
            slow_line@.len() == n,
            forall|j: int| 0 <= j < n ==> fast_line@[j] == ema_at(data@, 0, fast as int, j),
            forall|j: int| 0 <= j < n ==> slow_line@[j] == ema_at(data@, 0, slow as int, j),
            line@.len() == i,
            forall|j: int| 0 <= j < i ==> line@[j] == macd_at(data@, fast as int, slow as int, j),
        decreases n - i,
    {
        let value = match narrow(fast_line[i] as i128 - slow_line[i] as i128) {
            Some(v) => v,
            None => {
                assert(!fits_i64(macd_at(data@, fast as int, slow as int, i as int)));
                return Err(BacktestError::Overflow);
            },
        };
        line.push(value);
        i += 1;
    }
    let signal = ema_from(&line, start, period as usize);
    assert(macd_fits(data@, fast as int, slow as int)) by {
        assert forall|j: int| 0 <= j < data@.len() implies fits_i64(
            #[trigger] macd_at(data@, fast as int, slow as int, j),
        ) by {
            assert(line@[j] == macd_at(data@, fast as int, slow as int, j));
        }
    }
    Ok((line, signal))
}

/// True range of bar `i`: the greatest of the bar's own range and the
/// distances of its high and its low from the close before it.
pub open spec fn true_range(high: Seq<i64>, low: Seq<i64>, close: Seq<i64>, i: int) -> int {
    max2(high[i] - low[i], max2(abs(high[i] - close[i - 1]), abs(close[i - 1] - low[i])))
}

/// The sum of the true ranges of bars `lo, ..., hi - 1`.
pub open spec fn true_range_sum(high: Seq<i64>, low: Seq<i64>, close: Seq<i64>, lo: int, hi: int) -> int
    decreases hi - lo,
{
    if hi <= lo {
        0
    } else {
        true_range_sum(high, low, close, lo, hi - 1) + true_range(high, low, close, hi - 1)
    }
}

/// One step of Wilder smoothing over `period` values.
pub open spec fn atr_step(previous: int, range: int, period: int) -> int {
    (previous * (period - 1) + range) / period
}

/// Average true range at index `i`: at index `period` the mean of the true
/// ranges of bars `1, ..., period`, then one smoothing step per index;
/// before that the placeholder.
pub open spec fn atr_at(high: Seq<i64>, low: Seq<i64>, close: Seq<i64>, period: int, i: int) -> int
    decreases i,
{
    if period < 1 || i < period {
        0
    } else if i == period {
        true_range_sum(high, low, close, 1, period + 1) / period
    } else {
        atr_step(atr_at(high, low, close, period, i - 1), true_range(high, low, close, i), period)
    }
}

/// The true range of every bar but the first can be stored.
pub open spec fn true_ranges_fit(high: Seq<i64>, low: Seq<i64>, close: Seq<i64>) -> bool {
    forall|i: int| 1 <= i < close.len() ==> fits_i64(#[trigger] true_range(high, low, close, i))
}

/// Where a series holds the true ranges, its window sums are their sums.
proof fn lemma_true_range_sum(
    ranges: Seq<i64>,
    high: Seq<i64>,
    low: Seq<i64>,
    close: Seq<i64>,
    lo: int,
    hi: int,
)
    requires
        forall|j: int| lo <= j < hi ==> ranges[j] == true_range(high, low, close, j),
    ensures
        window_sum(ranges, lo, hi) == true_range_sum(high, low, close, lo, hi),
    decreases hi - lo,
{
    if lo < hi {
        lemma_true_range_sum(ranges, high, low, close, lo, hi - 1);
    }
}

/// The true range of bar `i`, in 128 bits.
fn range_of(high: &Vec<i64>, low: &Vec<i64>, close: &Vec<i64>, i: usize) -> (r: i128)
    requires
        1 <= i < close@.len(),
        high@.len() == close@.len(),
        low@.len() == close@.len(),
    ensures
        r == true_range(high@, low@, close@, i as int),
        r >= 0,
{
    let h = high[i] as i128;
    let l = low[i] as i128;
    let c = close[i - 1] as i128;
    let up = if h >= c {
        h - c
    } else {
        c - h
    };
    let down = if c >= l {
        c - l
    } else {
        l - c
    };
    let gap = if up >= down {
        up
    } else {
        down
    };
    if h - l >= gap {
        h - l
    } else {
        gap
    }
}

/// Average true range over `period` bars, with Wilder smoothing.
///
/// The value at index `period` is the mean of the true ranges of bars `1` to
/// `period`; each later value is `(previous * (period - 1) + range) /
/// period`. Earlier values are the placeholder, so a period as long as the
/// series leaves no value. The three series must be of one length, and the
/// period at least one and at most that length.
pub fn atr(high: &Vec<i64>, low: &Vec<i64>, close: &Vec<i64>, period: i64) -> (r: Result<
    Vec<i64>,
    BacktestError,
>)
    requires
        high@.len() == close@.len(),
        low@.len() == close@.len(),
    ensures
        match r {
            Ok(out) => {
                &&& period_valid(period as int, close@.len() as int)
                &&& true_ranges_fit(high@, low@, close@)
                &&& out@.len() == close@.len()
                &&& forall|i: int|
                    0 <= i < out@.len() ==> out@[i] == atr_at(high@, low@, close@, period as int, i)
            },
            Err(BacktestError::InvalidPeriod) => !period_valid(period as int, close@.len() as int),
            Err(BacktestError::Overflow) => period_valid(period as int, close@.len() as int)
                && !true_ranges_fit(high@, low@, close@),
            Err(_) => false,
        },
{
    let n = close.len();
    let p = match checked_period(period, n) {
        Some(p) => p,
        None => {
            return Err(BacktestError::InvalidPeriod);
        },
    };
    let mut ranges = zeros(1);
    let mut i: usize = 1;
    while i < n
        invariant
            1 <= i <= n,
            n == close@.len(),
            period_valid(period as int, n as int),
            high@.len() == close@.len(),
            low@.len() == close@.len(),
            ranges@.len() == i,
            forall|j: int| 1 <= j < i ==> ranges@[j] == true_range(high@, low@, close@, j),
        decreases n - i,
    {
        let range = match narrow(range_of(high, low, close, i)) {
            Some(v) => v,
            None => {
                return Err(BacktestError::Overflow);
            },
        };
        ranges.push(range);
        i += 1;
    }
    assert(true_ranges_fit(high@, low@, close@)) by {
        assert forall|j: int| 1 <= j < close@.len() implies fits_i64(
            #[trigger] true_range(high@, low@, close@, j),
        ) by {
            assert(ranges@[j] == true_range(high@, low@, close@, j));
        }
    }
    if p == n {
        return Ok(zeros(n));
    }
    let mut out = zeros(p);
    proof {
        lemma_true_range_sum(ranges@, high@, low@, close@, 1, p + 1);
        lemma_window_sum_nonnegative(ranges@, 1, p + 1);
        lemma_window_sum_bounds(ranges@, 1, p + 1);
        lemma_mean_bounds(window_sum(ranges@, 1, p + 1), p as int, 0, i64::MAX as int);
    }
    let mut previous: i64 = div_floor(sum_window(&ranges, 1, p + 1), p as i128) as i64;
    out.push(previous);
    let mut i: usize = p + 1;
    while i < n
        invariant
            1 <= p < n,
            p == period,
            n == close@.len(),
            ranges@.len() == n,
            forall|j: int| 1 <= j < n ==> ranges@[j] == true_range(high@, low@, close@, j),
            true_ranges_fit(high@, low@, close@),
            p + 1 <= i <= n,
            out@.len() == i,
            0 <= previous,
            previous == atr_at(high@, low@, close@, period as int, i - 1),
            forall|j: int| 0 <= j < i ==> out@[j] == atr_at(high@, low@, close@, period as int, j),
        decreases n - i,
    {
        let range = ranges[i];
        assert(0 <= previous * (p - 1) + range <= p * i64::MAX) by (nonlinear_arith)
            requires
                0 <= previous <= i64::MAX,
                0 <= range <= i64::MAX,
                1 <= p,
        ;
        proof {
            lemma_mean_bounds(previous * (p - 1) + range, p as int, 0, i64::MAX as int);
        }
        let total: i128 = previous as i128 * (p as i128 - 1) + range as i128;
        previous = div_floor(total, p as i128) as i64;
        out.push(previous);
        i += 1;
    }
    Ok(out)
}

/// Population variance of the window that ends at `i`, around the simple
/// moving average at `i`: the mean squared distance, with denominator
/// `period`.
pub open spec fn variance_at(s: Seq<i64>, period: int, i: int) -> int {
    window_sq_dev(s, sma_at(s, period, i), i - period + 1, i + 1) / period
}

/// Population standard deviation of the window that ends at `i`, rounded
/// down.
pub open spec fn deviation_at(s: Seq<i64>, period: int, i: int) -> int {
    floor_sqrt(variance_at(s, period, i))
}

/// Band position at index `i`: the distance of the price from the simple
/// moving average, in units of two standard deviations, as a fixed-point
/// number. Zero where the standard deviation is zero, and in the warm-up
/// region.
pub open spec fn bbands_at(s: Seq<i64>, period: int, i: int) -> int {
    if 1 <= period && period - 1 <= i && deviation_at(s, period, i) != 0 {
        (SCALE * (s[i] - sma_at(s, period, i))) / (2 * deviation_at(s, period, i))
    } else {
        0
    }
}

/// At index `i` the sum of squared distances fits 128 bits and the band
/// position can be stored.
pub open spec fn bbands_fits_at(s: Seq<i64>, period: int, i: int) -> bool {
    window_sq_dev(s, sma_at(s, period, i), i - period + 1, i + 1) <= u128::MAX && fits_i64(
        bbands_at(s, period, i),
    )
}

/// The band position can be computed and stored at every index.
pub open spec fn bbands_fits(s: Seq<i64>, period: int) -> bool {
    forall|i: int| period - 1 <= i < s.len() ==> #[trigger] bbands_fits_at(s, period, i)
}

/// On a window whose prices are all equal the band position is zero: there
/// is no deviation to measure the distance in.
pub proof fn lemma_bbands_constant(s: Seq<i64>, period: int, i: int)
    requires
        1 <= period,
        forall|j: int| i - period + 1 <= j <= i ==> s[j] == s[i],
    ensures
        bbands_at(s, period, i) == 0,
{
    if period - 1 <= i {
        let c = s[i] as int;
        lemma_window_sum_constant(s, c, i - period + 1, i + 1);
        lemma_div_exact(c, period);
        lemma_window_sq_dev_constant(s, c, i - period + 1, i + 1);
        lemma_floor_sqrt_unique(0, 0);
    }
}

/// The sum of the squared distances of `data[lo], ..., data[hi - 1]` from
/// `center`, where it fits 128 bits.
fn sq_dev_window(data: &Vec<i64>, center: i64, lo: usize, hi: usize) -> (r: Option<u128>)
    requires
        lo <= hi <= data@.len(),
    ensures
        match r {
            Some(total) => total == window_sq_dev(data@, center as int, lo as int, hi as int),
            None => window_sq_dev(data@, center as int, lo as int, hi as int) > u128::MAX,
        },
{
    let mut total: u128 = 0;
    let mut j: usize = lo;
    while j < hi
        invariant
            lo <= j <= hi <= data@.len(),
            total == window_sq_dev(data@, center as int, lo as int, j as int),
        decreases hi - j,
    {
        let d: i128 = data[j] as i128 - center as i128;
        let magnitude: u128 = if d < 0 {
            (-d) as u128
        } else {
            d as u128
        };
        assert(magnitude * magnitude == d * d && magnitude * magnitude
            <= 0xffff_ffff_ffff_ffff_ffff_ffff_ffff_ffff) by (nonlinear_arith)
            requires
                magnitude == d || magnitude == -d,
                0 <= magnitude <= 0xffff_ffff_ffff_ffff,
        ;
        let square: u128 = magnitude * magnitude;
        total = match total.checked_add(square) {
            Some(t) => t,
            None => {
                proof {
                    lemma_window_sq_dev_monotonic(
                        data@,
                        center as int,
                        lo as int,
                        j + 1,
                        hi as int,
                    );
                }
                return None;
            },
        };
        j += 1;
    }
    Some(total)
}

/// Band position of `data` over `period` values.
///
/// For each index from `period - 1` on: the distance of the price from the
/// simple moving average, divided by twice the population standard deviation
/// of the same window (denominator `period`). Where that deviation is zero
/// the value is zero; this is no error. Earlier values are the placeholder.
/// The period must be at least one and at most the length of `data`.
pub fn bbands(data: &Vec<i64>, period: i64) -> (r: Result<Vec<i64>, BacktestError>)
    ensures
        match r {
            Ok(out) => {
                &&& period_valid(period as int, data@.len() as int)
                &&& bbands_fits(data@, period as int)
                &&& out@.len() == data@.len()
                &&& forall|i: int|
                    0 <= i < out@.len() ==> out@[i] == bbands_at(data@, period as int, i)
            },
            Err(BacktestError::InvalidPeriod) => !period_valid(period as int, data@.len() as int),
            Err(BacktestError::Overflow) => period_valid(period as int, data@.len() as int)
                && !bbands_fits(data@, period as int),
            Err(_) => false,
        },
{
    let n = data.len();
    let means = match sma(data, period) {
        Ok(m) => m,
        Err(e) => {
            return Err(BacktestError::InvalidPeriod);
        },
    };
    let p = period as usize;
    let mut out = zeros(p - 1);
    let mut i: usize = p - 1;
    while i < n
        invariant
            1 <= p <= n,
            p == period,
            n == data@.len(),
            means@.len() == n,
            forall|j: int| 0 <= j < n ==> means@[j] == sma_at(data@, period as int, j),
            p - 1 <= i <= n,
            out@.len() == i,
            forall|j: int| 0 <= j < i ==> out@[j] == bbands_at(data@, period as int, j),
            forall|j: int| p - 1 <= j < i ==> bbands_fits_at(data@, period as int, j),
        decreases n - i,
    {
        let mean = means[i];
        let total = match sq_dev_window(data, mean, i + 1 - p, i + 1) {
            Some(t) => t,
            None => {
                assert(!bbands_fits_at(data@, period as int, i as int));
                return Err(BacktestError::Overflow);
            },
        };
        let deviation = isqrt(total / (p as u128));
        let value: i64 = if deviation == 0 {
            0
        } else {
            let distance: i128 = data[i] as i128 - mean as i128;
            match narrow(div_floor((SCALE as i128) * distance, 2 * (deviation as i128))) {
                Some(v) => v,
                None => {
                    assert(!bbands_fits_at(data@, period as int, i as int));
                    return Err(BacktestError::Overflow);
                },
            }
        };
        out.push(value);
        i += 1;
    }
    Ok(out)
}

/// Stochastic oscillator at index `i`: where the close lies between the
/// lowest low and the highest high of the window, in percent, as a
/// fixed-point number. Zero where the two are equal, and in the warm-up
/// region.
pub open spec fn stochastic_at(high: Seq<i64>, low: Seq<i64>, close: Seq<i64>, period: int, i: int) -> int {
    if 1 <= period && period - 1 <= i && window_max(high, i - period + 1, i + 1) != window_min(
        low,
        i - period + 1,
        i + 1,
    ) {
        floor_div(
            (close[i] - window_min(low, i - period + 1, i + 1)) * 100 * SCALE,
            window_max(high, i - period + 1, i + 1) - window_min(low, i - period + 1, i + 1),
        )
    } else {
        0
    }
}

/// The stochastic oscillator can be stored at every index.
pub open spec fn stochastic_fits(high: Seq<i64>, low: Seq<i64>, close: Seq<i64>, period: int) -> bool {
    forall|i: int|
        0 <= i < close.len() ==> fits_i64(#[trigger] stochastic_at(high, low, close, period, i))
}

/// The least of `data[lo], ..., data[hi - 1]`.
fn min_window(data: &Vec<i64>, lo: usize, hi: usize) -> (least: i64)
    requires
        lo < hi <= data@.len(),
    ensures
        least == window_min(data@, lo as int, hi as int),
{
    let mut least = data[lo];
    let mut j: usize = lo + 1;
    while j < hi
        invariant
            lo < j <= hi <= data@.len(),
            least == window_min(data@, lo as int, j as int),
        decreases hi - j,
    {
        if data[j] < least {
            least = data[j];
        }
        j += 1;
    }
    least
}

/// The greatest of `data[lo], ..., data[hi - 1]`.
fn max_window(data: &Vec<i64>, lo: usize, hi: usize) -> (greatest: i64)
    requires
        lo < hi <= data@.len(),
    ensures
        greatest == window_max(data@, lo as int, hi as int),
{
    let mut greatest = data[lo];
    let mut j: usize = lo + 1;
    while j < hi
        invariant
            lo < j <= hi <= data@.len(),
            greatest == window_max(data@, lo as int, j as int),
        decreases hi - j,
    {
        if data[j] > greatest {
            greatest = data[j];
        }
        j += 1;
    }
    greatest
}

/// Stochastic oscillator over `period` bars.
///
/// For each index from `period - 1` on: `(close - lowest low) / (highest
/// high - lowest low) * 100` over the window that ends there, and zero where
/// highest high and lowest low are equal; this is no error. Earlier values
/// are the placeholder. The three series must be of one length, and the
/// period at least one and at most that length.
pub fn stochastic(high: &Vec<i64>, low: &Vec<i64>, close: &Vec<i64>, period: i64) -> (r: Result<
    Vec<i64>,
    BacktestError,
>)
    requires
        high@.len() == close@.len(),
        low@.len() == close@.len(),
    ensures
        match r {
            Ok(out) => {
                &&& period_valid(period as int, close@.len() as int)
                &&& stochastic_fits(high@, low@, close@, period as int)
                &&& out@.len() == close@.len()
                &&& forall|i: int|
                    0 <= i < out@.len() ==> out@[i] == stochastic_at(
                        high@,
                        low@,
                        close@,
                        period as int,
                        i,
                    )
            },
            Err(BacktestError::InvalidPeriod) => !period_valid(period as int, close@.len() as int),
            Err(BacktestError::Overflow) => period_valid(period as int, close@.len() as int)
                && !stochastic_fits(high@, low@, close@, period as int),
            Err(_) => false,
        },
{
    let n = close.len();
    let p = match checked_period(period, n) {
        Some(p) => p,
        None => {
            return Err(BacktestError::InvalidPeriod);
        },
    };
    let mut out = zeros(p - 1);
    let mut i: usize = p - 1;
    while i < n
        invariant
            1 <= p <= n,
            p == period,
            n == close@.len(),
            high@.len() == close@.len(),
            low@.len() == close@.len(),
            p - 1 <= i <= n,
            out@.len() == i,
            forall|j: int|
                0 <= j < i ==> out@[j] == stochastic_at(high@, low@, close@, period as int, j),
        decreases n - i,
    {
        let lowest = min_window(low, i + 1 - p, i + 1);
        let highest = max_window(high, i + 1 - p, i + 1);
        let value: i64 = if highest == lowest {
            0
        } else {
            let distance: i128 = close[i] as i128 - lowest as i128;
            let span: i128 = highest as i128 - lowest as i128;
            assert(-0x1_0000_0000_0000_0000_0000_0000 < distance * 100 * SCALE
                < 0x1_0000_0000_0000_0000_0000_0000) by (nonlinear_arith)
                requires
                    -0x1_0000_0000_0000_0000 < distance < 0x1_0000_0000_0000_0000,
                    SCALE == 1_000_000,
            ;
            match narrow(div_floor(distance * 100 * (SCALE as i128), span)) {
                Some(v) => v,
                None => {
                    assert(!fits_i64(
                        stochastic_at(high@, low@, close@, period as int, i as int),
                    ));
                    return Err(BacktestError::Overflow);
                },
            }
        };
        out.push(value);
        i += 1;
    }
    assert(stochastic_fits(high@, low@, close@, period as int)) by {
        assert forall|j: int| 0 <= j < close@.len() implies fits_i64(
            #[trigger] stochastic_at(high@, low@, close@, period as int, j),
        ) by {
            assert(out@[j] == stochastic_at(high@, low@, close@, period as int, j));
        }
    }
    Ok(out)
}

/// Williams range position at index `i`: how far the price lies below the
/// highest price of the window, as a fraction of the window's range, as a
/// fixed-point number. Zero where the window is flat, and in the warm-up
/// region.
pub open spec fn williams_at(s: Seq<i64>, period: int, i: int) -> int {
    if 1 <= period && period - 1 <= i && window_max(s, i - period + 1, i + 1) != window_min(
        s,
        i - period + 1,
        i + 1,
    ) {
        ((window_max(s, i - period + 1, i + 1) - s[i]) * SCALE) / (window_max(
            s,
            i - period + 1,
            i + 1,
        ) - window_min(s, i - period + 1, i + 1))
    } else {
        0
    }
}

/// The Williams range position lies between zero and one.
pub proof fn lemma_williams_range(s: Seq<i64>, period: int, i: int)
    ensures
        0 <= williams_at(s, period, i) <= SCALE,
{
    if 1 <= period && period - 1 <= i {
        let lo = i - period + 1;
        let highest = window_max(s, lo, i + 1);
        let lowest = window_min(s, lo, i + 1);
        if highest != lowest {
            let span = highest - lowest;
            let distance = highest - s[i];
            lemma_mean_bounds(distance * SCALE, span, 0, SCALE as int);
        }
    }
}

/// Williams range position of `data` over `period` values.
///
/// For each index from `period - 1` on: `(highest - price) / (highest -
/// lowest)` over the window of prices that ends there, and zero where the
/// window is flat; this is no error. Earlier values are the placeholder. The
/// period must be at least one and at most the length of `data`.
pub fn williams(data: &Vec<i64>, period: i64) -> (r: Result<Vec<i64>, BacktestError>)
    ensures
        r is Ok <==> period_valid(period as int, data@.len() as int),
        match r {
            Ok(out) => {
                &&& out@.len() == data@.len()
                &&& forall|i: int|
                    0 <= i < out@.len() ==> out@[i] == williams_at(data@, period as int, i)
            },
            Err(e) => e == BacktestError::InvalidPeriod,
        },
{
    let n = data.len();
    let p = match checked_period(period, n) {
        Some(p) => p,
        None => {
            return Err(BacktestError::InvalidPeriod);
        },
    };
    let mut out = zeros(p - 1);
    let mut i: usize = p - 1;
    while i < n
        invariant
            1 <= p <= n,
            p == period,
            n == data@.len(),
            p - 1 <= i <= n,
            out@.len() == i,
            forall|j: int| 0 <= j < i ==> out@[j] == williams_at(data@, period as int, j),
        decreases n - i,
    {
        let lowest = min_window(data, i + 1 - p, i + 1);
        let highest = max_window(data, i + 1 - p, i + 1);
        let value: i64 = if highest == lowest {
            0
        } else {
            let distance: i128 = highest as i128 - data[i] as i128;
            let span: i128 = highest as i128 - lowest as i128;
            proof {
                lemma_williams_range(data@, period as int, i as int);
            }
            div_floor(distance * (SCALE as i128), span) as i64
        };
        out.push(value);
        i += 1;
    }
    Ok(out)
}

#[allow(non_snake_case)]
impl Indicators {
    /// The indicators of the bars of `ohlcv`.
    pub fn new(ohlcv: DataFeed) -> (r: Self)
        ensures
            r.ohlcv == ohlcv,
    {
        Indicators { ohlcv }
    }

    /// Simple moving average of the closing prices: see [`sma`].
    pub fn SMA(&self, period: i64) -> (r: Result<Vec<i64>, BacktestError>)
        ensures
            r is Ok <==> period_valid(period as int, self.ohlcv.close@.len() as int),
            match r {
                Ok(out) => {
                    &&& out@.len() == self.ohlcv.close@.len()
                    &&& forall|i: int|
                        0 <= i < out@.len() ==> out@[i] == sma_at(
                            self.ohlcv.close@,
                            period as int,
                            i,
                        )
                },
                Err(e) => e == BacktestError::InvalidPeriod,
            },
    {
        sma(&self.ohlcv.close, period)
    }

    /// Exponential moving average of the closing prices: see [`ema`].
    pub fn EMA(&self, period: i64) -> (r: Result<Vec<i64>, BacktestError>)
        ensures
            r is Ok <==> period_valid(period as int, self.ohlcv.close@.len() as int),
            match r {
                Ok(out) => {
                    &&& out@.len() == self.ohlcv.close@.len()
                    &&& forall|i: int|
                        0 <= i < out@.len() ==> out@[i] == ema_at(
                            self.ohlcv.close@,
                            0,
                            period as int,
                            i,
                        )
                },
                Err(e) => e == BacktestError::InvalidPeriod,
            },
    {
        ema(&self.ohlcv.close, period)
    }

    /// Convergence line and signal line of the closing prices: see [`macd`].
    pub fn MACD(&self, period: i64, fast: i64, slow: i64) -> (r: Result<
        (Vec<i64>, Vec<i64>),
        BacktestError,
    >)
        ensures
            match r {
                Ok((line, signal)) => {
                    &&& period_valid(fast as int, self.ohlcv.close@.len() as int)
                    &&& period_valid(slow as int, self.ohlcv.close@.len() as int)
                    &&& 1 <= period <= self.ohlcv.close@.len() - macd_start(fast as int, slow as int)
                    &&& macd_fits(self.ohlcv.close@, fast as int, slow as int)
                    &&& line@.len() == self.ohlcv.close@.len()
                    &&& signal@.len() == self.ohlcv.close@.len()
                    &&& forall|i: int|
                        0 <= i < line@.len() ==> line@[i] == macd_at(
                            self.ohlcv.close@,
                            fast as int,
                            slow as int,
                            i,
                        )
                    &&& forall|i: int|
                        0 <= i < signal@.len() ==> signal@[i] == ema_at(
                            line@,
                            macd_start(fast as int, slow as int),
                            period as int,
                            i,
                        )
                },
                Err(BacktestError::InvalidPeriod) => {
                    ||| period < 1
                    ||| !period_valid(fast as int, self.ohlcv.close@.len() as int)
                    ||| !period_valid(slow as int, self.ohlcv.close@.len() as int)
                },
                Err(BacktestError::InsufficientData) => {
                    &&& 1 <= period
                    &&& period_valid(fast as int, self.ohlcv.close@.len() as int)
                    &&& period_valid(slow as int, self.ohlcv.close@.len() as int)
                    &&& period > self.ohlcv.close@.len() - macd_start(fast as int, slow as int)
                },
                Err(BacktestError::Overflow) => {
                    &&& period_valid(fast as int, self.ohlcv.close@.len() as int)
                    &&& period_valid(slow as int, self.ohlcv.close@.len() as int)
                    &&& 1 <= period <= self.ohlcv.close@.len() - macd_start(fast as int, slow as int)
                    &&& !macd_fits(self.ohlcv.close@, fast as int, slow as int)
                },
                Err(_) => false,
            },
    {
        macd(&self.ohlcv.close, period, fast, slow)
    }

    /// Average true range of the bars: see [`atr`].
    pub fn ATR(&self, period: i64) -> (r: Result<Vec<i64>, BacktestError>)
        requires
            self.ohlcv.wf(),
        ensures
            match r {
                Ok(out) => {
                    &&& period_valid(period as int, self.ohlcv.close@.len() as int)
                    &&& true_ranges_fit(self.ohlcv.high@, self.ohlcv.low@, self.ohlcv.close@)
                    &&& out@.len() == self.ohlcv.close@.len()
                    &&& forall|i: int|
                        0 <= i < out@.len() ==> out@[i] == atr_at(
                            self.ohlcv.high@,
                            self.ohlcv.low@,
                            self.ohlcv.close@,
                            period as int,
                            i,
                        )
                },
                Err(BacktestError::InvalidPeriod) => !period_valid(
                    period as int,
                    self.ohlcv.close@.len() as int,
                ),
                Err(BacktestError::Overflow) => period_valid(
                    period as int,
                    self.ohlcv.close@.len() as int,
                ) && !true_ranges_fit(self.ohlcv.high@, self.ohlcv.low@, self.ohlcv.close@),
                Err(_) => false,
            },
    {
        atr(&self.ohlcv.high, &self.ohlcv.low, &self.ohlcv.close, period)
    }

    /// Band position of the closing prices: see [`bbands`].
    pub fn BBANDS(&self, period: i64) -> (r: Result<Vec<i64>, BacktestError>)
        ensures
            match r {
                Ok(out) => {
                    &&& period_valid(period as int, self.ohlcv.close@.len() as int)
                    &&& bbands_fits(self.ohlcv.close@, period as int)
                    &&& out@.len() == self.ohlcv.close@.len()
                    &&& forall|i: int|
                        0 <= i < out@.len() ==> out@[i] == bbands_at(
                            self.ohlcv.close@,
                            period as int,
                            i,
                        )
                },
                Err(BacktestError::InvalidPeriod) => !period_valid(
                    period as int,
                    self.ohlcv.close@.len() as int,
                ),
                Err(BacktestError::Overflow) => period_valid(
                    period as int,
                    self.ohlcv.close@.len() as int,
                ) && !bbands_fits(self.ohlcv.close@, period as int),
                Err(_) => false,
            },
    {
        bbands(&self.ohlcv.close, period)
    }

    /// Stochastic oscillator of the bars: see [`stochastic`].
    pub fn STOCHASTIC(&self, period: i64) -> (r: Result<Vec<i64>, BacktestError>)
        requires
            self.ohlcv.wf(),
        ensures
            match r {
                Ok(out) => {
                    &&& period_valid(period as int, self.ohlcv.close@.len() as int)
                    &&& stochastic_fits(
                        self.ohlcv.high@,
                        self.ohlcv.low@,
                        self.ohlcv.close@,
                        period as int,
                    )
                    &&& out@.len() == self.ohlcv.close@.len()
                    &&& forall|i: int|
                        0 <= i < out@.len() ==> out@[i] == stochastic_at(
                            self.ohlcv.high@,
                            self.ohlcv.low@,
                            self.ohlcv.close@,
                            period as int,
                            i,
                        )
                },
                Err(BacktestError::InvalidPeriod) => !period_valid(
                    period as int,
                    self.ohlcv.close@.len() as int,
                ),
                Err(BacktestError::Overflow) => period_valid(
                    period as int,
                    self.ohlcv.close@.len() as int,
                ) && !stochastic_fits(
                    self.ohlcv.high@,
                    self.ohlcv.low@,
                    self.ohlcv.close@,
                    period as int,
                ),
                Err(_) => false,
            },
    {
        stochastic(&self.ohlcv.high, &self.ohlcv.low, &self.ohlcv.close, period)
    }

    /// Williams range position of the closing prices: see [`williams`].
    pub fn WILLIAMS(&self, period: i64) -> (r: Result<Vec<i64>, BacktestError>)
        ensures
            r is Ok <==> period_valid(period as int, self.ohlcv.close@.len() as int),
            match r {
                Ok(out) => {
                    &&& out@.len() == self.ohlcv.close@.len()
                    &&& forall|i: int|
                        0 <= i < out@.len() ==> out@[i] == williams_at(
                            self.ohlcv.close@,
                            period as int,
                            i,
                        )
                },
                Err(e) => e == BacktestError::InvalidPeriod,
            },
    {
        williams(&self.ohlcv.close, period)
    }
}

} // verus!
