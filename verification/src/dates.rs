//! Calendar dates, kept as plain year / month / day values.
//!
//! An inventory record's validity (expiry) date is a calendar date with no
//! time component.  Dates are compared lexicographically by year, month and
//! day, and can be advanced day by day, which is all the expiry scanner
//! needs for its urgency bands.

use vstd::prelude::*;

use crate::strings::chars_to_string;
use crate::strings::dec_digits;
use crate::strings::push_all;
use crate::strings::u64_to_dec_chars;
use crate::strings::zero_pad;
use crate::strings::zero_pad_chars;

verus! {

/// A calendar date (proleptic Gregorian), no time component.
///
/// The year is limited to 1..=9999 so that every date the library handles
/// can be formatted as a four-digit year.
#[derive(Clone, Copy, Debug, PartialEq, Eq, Structural)]
pub struct Date {
    pub year: i32,
    pub month: u32,
    pub day: u32,
}

/// A leap year in the Gregorian calendar.
pub open spec fn spec_is_leap_year(y: int) -> bool {
    y % 4 == 0 && (y % 100 != 0 || y % 400 == 0)
}

/// Number of days in the given month of the given year.
pub open spec fn spec_days_in_month(y: int, m: int) -> int {
    if m == 2 {
        if spec_is_leap_year(y) {
            29
        } else {
            28
        }
    } else if m == 4 || m == 6 || m == 9 || m == 11 {
        30
    } else {
        31
    }
}

impl Date {
    /// A date this library accepts: a real calendar date with a
    /// four-digit year.
    pub open spec fn well_formed(self) -> bool {
        &&& 1 <= self.year <= 9999
        &&& 1 <= self.month <= 12
        &&& 1 <= self.day <= spec_days_in_month(self.year as int, self.month as int)
    }

    /// Lexicographic order on (year, month, day).
    pub open spec fn spec_le(self, other: Date) -> bool {
        if self.year != other.year {
            self.year < other.year
        } else if self.month != other.month {
            self.month < other.month
        } else {
            self.day <= other.day
        }
    }

    /// Strict form of [`Date::spec_le`].
    pub open spec fn spec_lt(self, other: Date) -> bool {
        self.spec_le(other) && self != other
    }

    /// True when `self` is on or before `other` in calendar order.
    pub fn le(&self, other: &Date) -> (r: bool)
        ensures
            r == self.spec_le(*other),
    {
        if self.year != other.year {
            self.year < other.year
        } else if self.month != other.month {
            self.month < other.month
        } else {
            self.day <= other.day
        }
    }

    /// True when `self` is strictly before `other` in calendar order.
    pub fn lt(&self, other: &Date) -> (r: bool)
        ensures
            r == self.spec_lt(*other),
    {
        if self.year != other.year {
            self.year < other.year
        } else if self.month != other.month {
            self.month < other.month
        } else {
            self.day < other.day
        }
    }
}

/// True when `y` is a leap year.
pub fn is_leap_year(y: i32) -> (r: bool)
    ensures
        r == spec_is_leap_year(y as int),
{
    y % 4 == 0 && (y % 100 != 0 || y % 400 == 0)
}

/// Number of days in month `m` of year `y`.
pub fn days_in_month(y: i32, m: u32) -> (r: u32)
    requires
        1 <= m <= 12,
    ensures
        r == spec_days_in_month(y as int, m as int),
        28 <= r <= 31,
{
    if m == 2 {
        if is_leap_year(y) {
            29
        } else {
            28
        }
    } else if m == 4 || m == 6 || m == 9 || m == 11 {
        30
    } else {
        31
    }
}

/// Checks the parts of a would-be date, returning a [`Date`] only when they
/// form a real calendar date with a four-digit year.
pub fn date_from_ymd(year: i64, month: u32, day: u32) -> (r: Option<Date>)
    ensures
        match r {
            Some(d) => d.well_formed() && d.year == year && d.month == month && d.day == day,
            None => !(Date { year: year as i32, month, day }).well_formed() || !(1 <= year
                <= 9999),
        },
{
    if year < 1 || year > 9999 {
        return None;
    }
    let y = year as i32;
    if month < 1 || month > 12 {
        return None;
    }
    if day < 1 || day > days_in_month(y, month) {
        return None;
    }
    Some(Date { year: y, month, day })
}

/// The day after `d`, saturating at 9999-12-31 so the result is always a
/// well-formed date.
pub open spec fn spec_next_day(d: Date) -> Date {
    if d.year == 9999 && d.month == 12 && d.day == 31 {
        d
    } else if d.day < spec_days_in_month(d.year as int, d.month as int) {
        Date { year: d.year, month: d.month, day: (d.day + 1) as u32 }
    } else if d.month < 12 {
        Date { year: d.year, month: (d.month + 1) as u32, day: 1 }
    } else {
        Date { year: (d.year + 1) as i32, month: 1, day: 1 }
    }
}

/// `d` advanced by `n` days (saturating at 9999-12-31).
pub open spec fn spec_add_days(d: Date, n: nat) -> Date
    decreases n,
{
    if n == 0 {
        d
    } else {
        spec_add_days(spec_next_day(d), (n - 1) as nat)
    }
}

/// The day after `d`, saturating at 9999-12-31.
pub fn next_day(d: &Date) -> (r: Date)
    requires
        d.well_formed(),
    ensures
        r == spec_next_day(*d),
        r.well_formed(),
        d.spec_le(r),
{
    if d.year == 9999 && d.month == 12 && d.day == 31 {
        *d
    } else if d.day < days_in_month(d.year, d.month) {
        Date { year: d.year, month: d.month, day: d.day + 1 }
    } else if d.month < 12 {
        Date { year: d.year, month: d.month + 1, day: 1 }
    } else {
        Date { year: d.year + 1, month: 1, day: 1 }
    }
}

/// `d` advanced by `n` days (saturating at 9999-12-31); the result is never
/// before `d`.
pub fn add_days(d: &Date, n: u32) -> (r: Date)
    requires
        d.well_formed(),
    ensures
        r == spec_add_days(*d, n as nat),
        r.well_formed(),
        d.spec_le(r),
{
    let mut cur: Date = *d;
    let mut i: u32 = 0;
    while i < n
        invariant
            0 <= i <= n,
            d.well_formed(),
            cur.well_formed(),
            d.spec_le(cur),
            spec_add_days(*d, n as nat) == spec_add_days(cur, (n - i) as nat),
        decreases n - i,
    {
        proof {
            lemma_le_transitive(*d, cur, spec_next_day(cur));
        }
        cur = next_day(&cur);
        i = i + 1;
    }
    cur
}

/// Calendar order is transitive.
pub proof fn lemma_le_transitive(a: Date, b: Date, c: Date)
    requires
        a.spec_le(b),
        b.spec_le(c),
    ensures
        a.spec_le(c),
{
}

/// `d` written as `YYYY-MM-DD`, with zero-padded fields.
pub open spec fn spec_format_ymd(d: Date) -> Seq<char> {
    zero_pad(dec_digits(d.year as nat), 4) + seq!['-'] + zero_pad(dec_digits(d.month as nat), 2)
        + seq!['-'] + zero_pad(dec_digits(d.day as nat), 2)
}

impl Date {
    /// Formats the date as `YYYY-MM-DD`.
    pub fn format_ymd(&self) -> (r: String)
        requires
            self.well_formed(),
        ensures
            r@ == spec_format_ymd(*self),
    {
        let mut out: Vec<char> = Vec::new();
        let y = zero_pad_chars(u64_to_dec_chars(self.year as u64), 4);
        push_all(&mut out, &y);
        out.push('-');
        let m = zero_pad_chars(u64_to_dec_chars(self.month as u64), 2);
        push_all(&mut out, &m);
        out.push('-');
        let d = zero_pad_chars(u64_to_dec_chars(self.day as u64), 2);
        push_all(&mut out, &d);
        proof {
            assert(out@ =~= spec_format_ymd(*self));
        }
        chars_to_string(&out)
    }
}

} // verus!
