//! Parsing of upstream time labels.
//!
//! Every upstream record carries its instant as text in the fixed pattern
//! `YYYY-MM-DD HH:MM:SS` with an optional `.fff` fraction. A row cannot be
//! ordered or windowed without a valid instant, so a record whose label does
//! not match the pattern (or names an impossible calendar date or time of
//! day) is rejected outright. The label is interpreted as proleptic-Gregorian
//! UTC and turned into integer seconds since the epoch; the fraction is kept
//! only in the displayed label, never in the ordering key.

use vstd::prelude::*;
use vstd::string::StrSliceExecFns;
use crate::numeric::digit_val;
use crate::numeric::is_ascii_digit;

verus! {

/// Gregorian leap-year rule.
pub open spec fn is_leap_year(y: int) -> bool {
    y % 4 == 0 && (y % 100 != 0 || y % 400 == 0)
}

/// Days in the calendar year `y`.
pub open spec fn days_in_year(y: int) -> int {
    if is_leap_year(y) {
        366
    } else {
        365
    }
}

/// Days in month `m` (1 to 12) of year `y`.
pub open spec fn days_in_month(y: int, m: int) -> int {
    if m == 4 || m == 6 || m == 9 || m == 11 {
        30
    } else if m == 2 {
        if is_leap_year(y) {
            29
        } else {
            28
        }
    } else {
        31
    }
}

/// Days in all calendar years before `y`, counted from year 0.
pub open spec fn days_before_year(y: int) -> int
    decreases y,
{
    if y <= 0 {
        0
    } else {
        days_before_year(y - 1) + days_in_year(y - 1)
    }
}

/// Days in the months of year `y` that precede month `m`.
pub open spec fn days_before_month(y: int, m: int) -> int
    decreases m,
{
    if m <= 1 {
        0
    } else {
        days_before_month(y, m - 1) + days_in_month(y, m - 1)
    }
}

/// The day count of the civil date `y-m-d`, counted from the first of year 0.
pub open spec fn day_index(y: int, m: int, d: int) -> int {
    days_before_year(y) + days_before_month(y, m) + d - 1
}

/// Seconds since the epoch of the civil instant `y-m-d h:mi:s` UTC.
pub open spec fn civil_to_epoch(y: int, m: int, d: int, h: int, mi: int, s: int) -> int {
    (day_index(y, m, d) - days_before_year(1970)) * 86400 + h * 3600 + mi * 60 + s
}

/// The value of the two-digit group at positions `i`, `i + 1`.
pub open spec fn two_digit_val(s: Seq<char>, i: int) -> int {
    digit_val(s[i]) * 10 + digit_val(s[i + 1])
}

/// The year named by a label's first four characters.
pub open spec fn label_year(s: Seq<char>) -> int {
    ((digit_val(s[0]) * 10 + digit_val(s[1])) * 10 + digit_val(s[2])) * 10 + digit_val(s[3])
}

/// A well-formed time label: the fixed pattern `YYYY-MM-DD HH:MM:SS` with an
/// optional three-digit fraction, naming a possible calendar date and time of
/// day.
pub open spec fn label_wf(s: Seq<char>) -> bool {
    &&& (s.len() == 19 || s.len() == 23)
    &&& is_ascii_digit(s[0]) && is_ascii_digit(s[1]) && is_ascii_digit(s[2]) && is_ascii_digit(
        s[3],
    )
    &&& s[4] == '-' && is_ascii_digit(s[5]) && is_ascii_digit(s[6])
    &&& s[7] == '-' && is_ascii_digit(s[8]) && is_ascii_digit(s[9])
    &&& s[10] == ' ' && is_ascii_digit(s[11]) && is_ascii_digit(s[12])
    &&& s[13] == ':' && is_ascii_digit(s[14]) && is_ascii_digit(s[15])
    &&& s[16] == ':' && is_ascii_digit(s[17]) && is_ascii_digit(s[18])
    &&& (s.len() == 23 ==> s[19] == '.' && is_ascii_digit(s[20]) && is_ascii_digit(s[21])
        && is_ascii_digit(s[22]))
    &&& 1 <= two_digit_val(s, 5) <= 12
    &&& 1 <= two_digit_val(s, 8) <= days_in_month(label_year(s), two_digit_val(s, 5))
    &&& two_digit_val(s, 11) <= 23
    &&& two_digit_val(s, 14) <= 59
    &&& two_digit_val(s, 17) <= 59
}

/// The epoch timestamp a well-formed label names.
pub open spec fn label_epoch(s: Seq<char>) -> int {
    civil_to_epoch(
        label_year(s),
        two_digit_val(s, 5),
        two_digit_val(s, 8),
        two_digit_val(s, 11),
        two_digit_val(s, 14),
        two_digit_val(s, 17),
    )
}

/// Decides the leap-year rule.
fn leap_year(y: u32) -> (b: bool)
    ensures
        b == is_leap_year(y as int),
{
    y % 4 == 0 && (y % 100 != 0 || y % 400 == 0)
}

/// Days in one calendar year.
fn year_len(y: u32) -> (d: u32)
    ensures
        d == days_in_year(y as int),
{
    if leap_year(y) {
        366
    } else {
        365
    }
}

/// Days in one month.
fn month_len(y: u32, m: u32) -> (d: u32)
    ensures
        d == days_in_month(y as int, m as int),
{
    if m == 4 || m == 6 || m == 9 || m == 11 {
        30
    } else if m == 2 {
        if leap_year(y) {
            29
        } else {
            28
        }
    } else {
        31
    }
}

/// Days in all calendar years before `y`.
fn days_before_year_exec(y: u32) -> (d: u32)
    requires
        y <= 9999,
    ensures
        d == days_before_year(y as int),
        d <= 366 * y,
{
    let mut i: u32 = 0;
    let mut acc: u32 = 0;
    while i < y
        invariant
            0 <= i <= y <= 9999,
            acc == days_before_year(i as int),
            acc <= 366 * i,
        decreases y - i,
    {
        acc = acc + year_len(i);
        i = i + 1;
    }
    acc
}

/// Days in the months of year `y` before month `m`.
fn days_before_month_exec(y: u32, m: u32) -> (d: u32)
    requires
        1 <= m <= 12,
    ensures
        d == days_before_month(y as int, m as int),
        d <= 31 * m,
{
    let mut i: u32 = 1;
    let mut acc: u32 = 0;
    while i < m
        invariant
            1 <= i <= m <= 12,
            acc == days_before_month(y as int, i as int),
            acc <= 31 * i,
        decreases m - i,
    {
        acc = acc + month_len(y, i);
        i = i + 1;
    }
    acc
}

/// Reads the decimal digit at position `i`, if there is one.
fn digit_at(s: &str, i: usize) -> (r: Option<u32>)
    requires
        i < s@.len(),
    ensures
        r is Some <==> is_ascii_digit(s@[i as int]),
        r is Some ==> r->0 == digit_val(s@[i as int]),
{
    let c = s.get_char(i);
    let u = c as u32;
    if 48 <= u && u <= 57 {
        Some(u - 48)
    } else {
        None
    }
}

/// Reads the two-digit group at positions `i`, `i + 1`, if both are digits.
fn two_digits_at(s: &str, i: usize) -> (r: Option<u32>)
    requires
        i < usize::MAX,
        i + 1 < s@.len(),
    ensures
        r is Some <==> is_ascii_digit(s@[i as int]) && is_ascii_digit(s@[i as int + 1]),
        r is Some ==> r->0 == two_digit_val(s@, i as int),
{
    let hi = digit_at(s, i);
    let lo = digit_at(s, i + 1);
    match (hi, lo) {
        (Some(h), Some(l)) => Some(h * 10 + l),
        _ => None,
    }
}

/// Checks that the separator character at position `i` is `want`.
fn separator_at(s: &str, i: usize, want: char) -> (b: bool)
    requires
        i < s@.len(),
    ensures
        b == (s@[i as int] == want),
{
    s.get_char(i) == want
}

/// Parses a time label into seconds since the epoch.
///
/// Returns the timestamp exactly when the label is well formed, and nothing
/// otherwise; rejection of the label is how an unordered record is kept out
/// of the store.
pub fn parse_time_label(s: &str) -> (r: Option<i64>)
    ensures
        r is Some <==> label_wf(s@),
        r is Some ==> r->0 == label_epoch(s@),
{
    let n = s.unicode_len();
    if n != 19 && n != 23 {
        return None;
    }
    if !(separator_at(s, 4, '-') && separator_at(s, 7, '-') && separator_at(s, 10, ' ')
        && separator_at(s, 13, ':') && separator_at(s, 16, ':')) {
        return None;
    }
    let year_hi = two_digits_at(s, 0);
    let year_lo = two_digits_at(s, 2);
    let month = two_digits_at(s, 5);
    let day = two_digits_at(s, 8);
    let hour = two_digits_at(s, 11);
    let minute = two_digits_at(s, 14);
    let second = two_digits_at(s, 17);
    let (year_hi, year_lo, month, day, hour, minute, second) = match (
        year_hi,
        year_lo,
        month,
        day,
        hour,
        minute,
        second,
    ) {
        (Some(a), Some(b), Some(c), Some(d), Some(e), Some(f), Some(g)) => (a, b, c, d, e, f, g),
        _ => {
            return None;
        },
    };
    let year = year_hi * 100 + year_lo;
    proof {
        assert(year == label_year(s@));
    }
    if n == 23 {
        let frac_ok = separator_at(s, 19, '.') && digit_at(s, 20).is_some() && digit_at(
            s,
            21,
        ).is_some() && digit_at(s, 22).is_some();
        if !frac_ok {
            return None;
        }
    }
    if !(1 <= month && month <= 12) {
        return None;
    }
    if !(1 <= day && day <= month_len(year, month)) {
        return None;
    }
    if hour > 23 || minute > 59 || second > 59 {
        return None;
    }
    let days = days_before_year_exec(year) + days_before_month_exec(year, month) + day - 1;
    let epoch_days = days_before_year_exec(1970);
    let secs: i64 = ((days as i64) - (epoch_days as i64)) * 86400 + (hour as i64) * 3600 + (
    minute as i64) * 60 + (second as i64);
    Some(secs)
}

} // verus!
