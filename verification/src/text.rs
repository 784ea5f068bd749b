//! Numbers and dates as text: the fields of a line of price data.
//!
//! A decimal is an optional sign, one or more digits, and optionally a point
//! followed by any number of digits. It is read as a fixed-point number; the
//! digits after the sixth fractional one are dropped. A date is written
//! `YYYY-MM-DD` and is read as the ordinal `YYYYMMDD`, which orders dates as
//! the calendar does.

use vstd::prelude::*;
use crate::fixed::fits_i64;
use crate::fixed::narrow;

verus! {

/// The byte `b` is one of the digits `0` to `9`.
pub open spec fn is_digit(b: u8) -> bool {
    48 <= b <= 57
}

/// The bytes `s[lo], ..., s[hi - 1]` are digits.
pub open spec fn digits(s: Seq<u8>, lo: int, hi: int) -> bool {
    forall|i: int| lo <= i < hi ==> is_digit(#[trigger] s[i])
}

/// The number that the digits `s[lo], ..., s[hi - 1]` write.
pub open spec fn digits_value(s: Seq<u8>, lo: int, hi: int) -> int
    decreases hi - lo,
{
    if hi <= lo {
        0
    } else {
        10 * digits_value(s, lo, hi - 1) + (s[hi - 1] - 48)
    }
}

/// The index of the first point at or after `from`, or the length of `s`
/// where there is none.
pub open spec fn find_point(s: Seq<u8>, from: int) -> int
    decreases s.len() - from,
{
    if from >= s.len() {
        s.len() as int
    } else if s[from] == 46 {
        from
    } else {
        find_point(s, from + 1)
    }
}

/// The length of the sign that `s` begins with: one or zero.
pub open spec fn sign_len(s: Seq<u8>) -> int {
    if s.len() > 0 && (s[0] == 45 || s[0] == 43) {
        1
    } else {
        0
    }
}

/// `s` begins with a minus sign.
pub open spec fn is_negative(s: Seq<u8>) -> bool {
    s.len() > 0 && s[0] == 45
}

/// `s` is a decimal: a sign or none, at least one digit, and then nothing,
/// or a point and digits.
pub open spec fn is_decimal(s: Seq<u8>) -> bool {
    let start = sign_len(s);
    let point = find_point(s, start);
    start < point && digits(s, start, point) && digits(s, point + 1, s.len() as int)
}

/// The digit at index `i`, or zero past the end of `s`.
pub open spec fn digit_or_zero(s: Seq<u8>, i: int) -> int {
    if i < s.len() {
        s[i] - 48
    } else {
        0
    }
}

/// The first six digits after the point at `point`, in millionths.
pub open spec fn fraction_value(s: Seq<u8>, point: int) -> int {
    100_000 * digit_or_zero(s, point + 1) + 10_000 * digit_or_zero(s, point + 2) + 1_000
        * digit_or_zero(s, point + 3) + 100 * digit_or_zero(s, point + 4) + 10 * digit_or_zero(
        s,
        point + 5,
    ) + digit_or_zero(s, point + 6)
}

/// The fixed-point number that the decimal `s` writes.
pub open spec fn decimal_value(s: Seq<u8>) -> int {
    let start = sign_len(s);
    let point = find_point(s, start);
    let magnitude = digits_value(s, start, point) * 1_000_000 + fraction_value(s, point);
    if is_negative(s) {
        -magnitude
    } else {
        magnitude
    }
}

/// `s` is one or more digits.
pub open spec fn is_unsigned(s: Seq<u8>) -> bool {
    s.len() > 0 && digits(s, 0, s.len() as int)
}

/// The number that the two digits at `i` and `i + 1` write.
pub open spec fn two_digits(s: Seq<u8>, i: int) -> int {
    10 * (s[i] - 48) + (s[i + 1] - 48)
}

/// The year of a date.
pub open spec fn date_year(s: Seq<u8>) -> int {
    100 * two_digits(s, 0) + two_digits(s, 2)
}

/// The month of a date.
pub open spec fn date_month(s: Seq<u8>) -> int {
    two_digits(s, 5)
}

/// The day of a date.
pub open spec fn date_day(s: Seq<u8>) -> int {
    two_digits(s, 8)
}

/// `s` is a date: four digits, two digits from 01 to 12 and two digits from
/// 01 to 31, with hyphens between them.
pub open spec fn is_date(s: Seq<u8>) -> bool {
    &&& s.len() == 10
    &&& digits(s, 0, 4)
    &&& s[4] == 45
    &&& digits(s, 5, 7)
    &&& s[7] == 45
    &&& digits(s, 8, 10)
    &&& 1 <= date_month(s) <= 12
    &&& 1 <= date_day(s) <= 31
}

/// The ordinal of the date `s`: year, month and day as one number.
pub open spec fn date_ordinal(s: Seq<u8>) -> int {
    date_year(s) * 10_000 + date_month(s) * 100 + date_day(s)
}

/// The first point at or after `from` lies between `from` and the end.
pub proof fn lemma_find_point_bounds(s: Seq<u8>, from: int)
    requires
        0 <= from <= s.len(),
    ensures
        from <= find_point(s, from) <= s.len(),
        find_point(s, from) < s.len() ==> s[find_point(s, from)] == 46,
    decreases s.len() - from,
{
    if from < s.len() && s[from] != 46 {
        lemma_find_point_bounds(s, from + 1);
    }
}

/// Digits write a number that is not negative and that grows as more digits
/// follow.
pub proof fn lemma_digits_value_monotonic(s: Seq<u8>, lo: int, mid: int, hi: int)
    requires
        lo <= mid <= hi,
        digits(s, lo, hi),
    ensures
        0 <= digits_value(s, lo, mid) <= digits_value(s, lo, hi),
    decreases hi - lo,
{
    if mid < hi {
        lemma_digits_value_monotonic(s, lo, mid, hi - 1);
    } else if lo < mid {
        lemma_digits_value_monotonic(s, lo, mid - 1, mid - 1);
    }
}

/// Ordinals order dates as the calendar does: a later year, or the same
/// year and a later month, or the same month and a later day, gives a
/// greater ordinal.
pub proof fn lemma_date_order(a: Seq<u8>, b: Seq<u8>)
    requires
        is_date(a),
        is_date(b),
    ensures
        date_ordinal(a) < date_ordinal(b) <==> {
            ||| date_year(a) < date_year(b)
            ||| date_year(a) == date_year(b) && date_month(a) < date_month(b)
            ||| date_year(a) == date_year(b) && date_month(a) == date_month(b) && date_day(a)
                < date_day(b)
        },
{
}

/// The digit that the byte at index `i` writes, where it is one.
fn digit_at(text: &[u8], i: usize) -> (r: Option<u64>)
    requires
        i < text@.len(),
    ensures
        match r {
            Some(d) => is_digit(text@[i as int]) && d == text@[i as int] - 48,
            None => !is_digit(text@[i as int]),
        },
{
    let b = text[i];
    if 48 <= b && b <= 57 {
        Some((b - 48) as u64)
    } else {
        None
    }
}

/// The digit `k` places after the point at `point`, or zero past the end,
/// of a text whose bytes after the point are digits.
fn fraction_digit(text: &[u8], point: usize, k: usize) -> (d: i128)
    requires
        point <= text@.len(),
        1 <= k,
        digits(text@, point + 1, text@.len() as int),
    ensures
        d == digit_or_zero(text@, point + k),
        0 <= d <= 9,
{
    if k < text.len() - point {
        (text[point + k] - 48) as i128
    } else {
        0
    }
}

/// Reads a number without sign or point. Gives nothing for a text that is
/// not one or more digits, or whose number does not fit 64 bits.
pub fn parse_unsigned(text: &[u8]) -> (r: Option<u64>)
    ensures
        r == if is_unsigned(text@) && digits_value(text@, 0, text@.len() as int) <= u64::MAX {
            Some(digits_value(text@, 0, text@.len() as int) as u64)
        } else {
            None
        },
{
    let n = text.len();
    if n == 0 {
        return None;
    }
    let mut value: u64 = 0;
    let mut i: usize = 0;
    while i < n
        invariant
            i <= n,
            n == text@.len(),
            digits(text@, 0, i as int),
            value == digits_value(text@, 0, i as int),
        decreases n - i,
    {
        let d = match digit_at(text, i) {
            Some(d) => d,
            None => {
                return None;
            },
        };
        if value > (u64::MAX - d) / 10 {
            proof {
                if is_unsigned(text@) {
                    lemma_digits_value_monotonic(text@, 0, i + 1, n as int);
                }
            }
            return None;
        }
        value = value * 10 + d;
        i += 1;
    }
    Some(value)
}

/// Reads a decimal as a fixed-point number. Gives nothing for a text that is
/// no decimal, or whose number does not fit the fixed-point range.
pub fn parse_decimal(text: &[u8]) -> (r: Option<i64>)
    ensures
        r == if is_decimal(text@) && fits_i64(decimal_value(text@)) {
            Some(decimal_value(text@) as i64)
        } else {
            None
        },
{
    let n = text.len();
    let negative = n > 0 && text[0] == 45;
    let start: usize = if n > 0 && (text[0] == 45 || text[0] == 43) {
        1
    } else {
        0
    };
    let mut whole: u64 = 0;
    let mut i: usize = start;
    while i < n && 48 <= text[i] && text[i] <= 57
        invariant
            start <= i <= n,
            n == text@.len(),
            start == sign_len(text@),
            digits(text@, start as int, i as int),
            whole == digits_value(text@, start as int, i as int),
            whole <= 9_223_372_036_854,
            find_point(text@, start as int) == find_point(text@, i as int),
        decreases n - i,
    {
        let d = (text[i] - 48) as u64;
        if whole * 10 + d > 9_223_372_036_854 {
            proof {
                if is_decimal(text@) {
                    let point = find_point(text@, start as int);
                    lemma_find_point_bounds(text@, i + 1);
                    lemma_digits_value_monotonic(text@, start as int, i + 1, point);
                }
            }
            return None;
        }
        whole = whole * 10 + d;
        i += 1;
    }
    proof {
        if i < n && text@[i as int] != 46 {
            lemma_find_point_bounds(text@, i + 1);
        }
    }
    if i == start || (i < n && text[i] != 46) {
        return None;
    }
    let point = i;
    let mut j: usize = point;
    while j < n
        invariant
            point <= j <= n,
            n == text@.len(),
            point == find_point(text@, sign_len(text@)),
            digits(text@, point + 1, if j < n {
                j + 1
            } else {
                n as int
            }),
        decreases n - j,
    {
        j += 1;
        if j < n && digit_at(text, j).is_none() {
            return None;
        }
    }
    let fraction: i128 = 100_000 * fraction_digit(text, point, 1) + 10_000 * fraction_digit(
        text,
        point,
        2,
    ) + 1_000 * fraction_digit(text, point, 3) + 100 * fraction_digit(text, point, 4) + 10
        * fraction_digit(text, point, 5) + fraction_digit(text, point, 6);
    let magnitude: i128 = whole as i128 * 1_000_000 + fraction;
    if negative {
        narrow(-magnitude)
    } else {
        narrow(magnitude)
    }
}

/// Reads a date as its ordinal. Gives nothing for a text that is no date.
pub fn parse_date(text: &[u8]) -> (r: Option<i64>)
    ensures
        r == if is_date(text@) {
            Some(date_ordinal(text@) as i64)
        } else {
            None
        },
{
    if text.len() != 10 || text[4] != 45 || text[7] != 45 {
        return None;
    }
    let y0 = match digit_at(text, 0) {
        Some(d) => d,
        None => {
            return None;
        },
    };
    let y1 = match digit_at(text, 1) {
        Some(d) => d,
        None => {
            return None;
        },
    };
    let y2 = match digit_at(text, 2) {
        Some(d) => d,
        None => {
            return None;
        },
    };
    let y3 = match digit_at(text, 3) {
        Some(d) => d,
        None => {
            return None;
        },
    };
    let m0 = match digit_at(text, 5) {
        Some(d) => d,
        None => {
            return None;
        },
    };
    let m1 = match digit_at(text, 6) {
        Some(d) => d,
        None => {
            return None;
        },
    };
    let d0 = match digit_at(text, 8) {
        Some(d) => d,
        None => {
            return None;
        },
    };
    let d1 = match digit_at(text, 9) {
        Some(d) => d,
        None => {
            return None;
        },
    };
    let year = 1000 * y0 + 100 * y1 + 10 * y2 + y3;
    let month = 10 * m0 + m1;
    let day = 10 * d0 + d1;
    if month < 1 || month > 12 || day < 1 || day > 31 {
        return None;
    }
    Some((year * 10_000 + month * 100 + day) as i64)
}

} // verus!
