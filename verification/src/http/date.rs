//! Dates in the form that HTTP writes them, such as
//! `Thu, 01 Jan 1970 00:00:00 GMT`.

use vstd::prelude::*;
use crate::http::wire::push_str;
use crate::text::string_of;

verus! {

/// The seconds of a day.
pub const SECONDS_PER_DAY: u64 = 86400;

/// The first second that lies beyond the year 9999, counted from the start
/// of 1970. A date is written with four digits for the year, so no later
/// time can be written.
pub const END_OF_TIME: u64 = 253402300800;

/// Whether a year of the Gregorian calendar is a leap year.
pub open spec fn is_leap(year: int) -> bool {
    year % 4 == 0 && (year % 100 != 0 || year % 400 == 0)
}

/// The number of days of a year.
pub open spec fn days_in_year(year: int) -> int {
    if is_leap(year) {
        366
    } else {
        365
    }
}

/// The number of days of a month, counted from 1, in a year.
pub open spec fn days_in_month(year: int, month: int) -> int {
    if month == 2 {
        if is_leap(year) {
            29
        } else {
            28
        }
    } else if month == 4 || month == 6 || month == 9 || month == 11 {
        30
    } else {
        31
    }
}

/// The number of leap years before a year, counted from the start of the
/// calendar.
pub open spec fn leap_years_before(year: int) -> int {
    (year - 1) / 4 - (year - 1) / 100 + (year - 1) / 400
}

/// The number of days from the start of 1970 to the start of a year.
pub open spec fn days_before_year(year: int) -> int {
    365 * (year - 1970) + leap_years_before(year) - leap_years_before(1970)
}

/// The number of days from the start of a year to the start of a month.
pub open spec fn days_before_month(year: int, month: int) -> int
    decreases month,
{
    if month <= 1 {
        0
    } else {
        days_before_month(year, month - 1) + days_in_month(year, month - 1)
    }
}

/// Whether year, month and day name a day of the calendar from 1970 on.
pub open spec fn is_date(year: int, month: int, day: int) -> bool {
    year >= 1970 && 1 <= month <= 12 && 1 <= day <= days_in_month(year, month)
}

/// The number of days from the start of 1970 to a date.
pub open spec fn days_to(year: int, month: int, day: int) -> int {
    days_before_year(year) + days_before_month(year, month) + day - 1
}

/// A time of the calendar: a date, a day of the week with Sunday as 0, and
/// a time of day.
#[derive(Debug, Clone, Copy, PartialEq, Eq, Structural)]
pub struct DateTime {
    pub year: u16,
    pub month: u8,
    pub day: u8,
    pub weekday: u8,
    pub hour: u8,
    pub minute: u8,
    pub second: u8,
}

impl DateTime {
    /// Whether this is the time that lies `secs` seconds after the start of
    /// 1970: its date lies as many whole days after it as `secs` holds, its
    /// time of day is the rest, and its day of the week follows from
    /// Thursday, the first of January 1970.
    pub open spec fn is_time(self, secs: u64) -> bool {
        &&& is_date(self.year as int, self.month as int, self.day as int)
        &&& days_to(self.year as int, self.month as int, self.day as int) == secs / 86400
        &&& self.weekday == (secs / 86400 + 4) % 7
        &&& self.hour == secs % 86400 / 3600
        &&& self.minute == secs % 3600 / 60
        &&& self.second == secs % 60
    }

    /// The time that lies `secs` seconds after the start of 1970, in UTC;
    /// `None` for a time beyond the year 9999.
    pub fn from_timestamp(secs: u64) -> (r: Option<DateTime>)
        ensures
            r is Some <==> secs < END_OF_TIME,
            r matches Some(t) ==> t.is_time(secs) && t.year <= 9999,
    {
        if secs >= END_OF_TIME {
            return None;
        }
        let days = secs / SECONDS_PER_DAY;
        let rest = secs % SECONDS_PER_DAY;
        let mut year: u64 = 1970;
        let mut left: u64 = days;
        while left >= year_length(year)
            invariant
                1970 <= year <= 9999 + 1,
                left <= days,
                days == days_before_year(year as int) + left,
                days < days_before_year(10000),
            decreases left,
        {
            left = left - year_length(year);
            year = year + 1;
        }
        assert(year <= 9999);
        let mut month: u64 = 1;
        while left >= month_length(year, month)
            invariant
                1970 <= year <= 9999,
                1 <= month <= 12,
                days == days_before_year(year as int) + days_before_month(
                    year as int,
                    month as int,
                ) + left,
                days_before_month(year as int, month as int) + left < days_in_year(year as int),
            decreases 12 - month,
        {
            proof {
                lemma_year_is_its_months(year as int);
                lemma_months_grow(year as int, month as int + 1, 13);
            }
            left = left - month_length(year, month);
            month = month + 1;
        }
        Some(
            DateTime {
                year: year as u16,
                month: month as u8,
                day: (left + 1) as u8,
                weekday: ((days + 4) % 7) as u8,
                hour: (rest / 3600) as u8,
                minute: (rest % 3600 / 60) as u8,
                second: (rest % 60) as u8,
            },
        )
    }

    /// The time in the form that HTTP writes it.
    pub fn to_string(&self) -> (r: String)
        ensures
            r@ == http_date_text(*self),
    {
        let mut out: Vec<char> = Vec::new();
        push_str(&mut out, weekday_name(self.weekday));
        out.push(',');
        out.push(' ');
        push_digits(&mut out, self.day as u16, 2);
        out.push(' ');
        push_str(&mut out, month_name(self.month));
        out.push(' ');
        push_digits(&mut out, self.year, 4);
        out.push(' ');
        push_digits(&mut out, self.hour as u16, 2);
        out.push(':');
        push_digits(&mut out, self.minute as u16, 2);
        out.push(':');
        push_digits(&mut out, self.second as u16, 2);
        push_str(&mut out, " GMT");
        assert(out@ =~= http_date_text(*self));
        string_of(&out)
    }
}

/// The date of HTTP for a time that lies `secs` seconds after the start of
/// 1970; `None` for a time beyond the year 9999.
pub fn http_date(secs: u64) -> (r: Option<String>)
    ensures
        r is Some <==> secs < END_OF_TIME,
        r matches Some(text) ==> exists|t: DateTime| t.is_time(secs) && text@ == http_date_text(t),
{
    match DateTime::from_timestamp(secs) {
        Some(t) => Some(t.to_string()),
        None => None,
    }
}

/// The number of days of a year.
fn year_length(year: u64) -> (r: u64)
    ensures
        r == days_in_year(year as int),
{
    if year % 4 == 0 && (year % 100 != 0 || year % 400 == 0) {
        366
    } else {
        365
    }
}

/// The number of days of a month in a year.
fn month_length(year: u64, month: u64) -> (r: u64)
    ensures
        r == days_in_month(year as int, month as int),
{
    if month == 2 {
        if year % 4 == 0 && (year % 100 != 0 || year % 400 == 0) {
            29
        } else {
            28
        }
    } else if month == 4 || month == 6 || month == 9 || month == 11 {
        30
    } else {
        31
    }
}

/// The twelve months of a year make up the year.
pub proof fn lemma_year_is_its_months(year: int)
    ensures
        days_before_month(year, 13) == days_in_year(year),
{
    reveal_with_fuel(days_before_month, 14);
}

/// The days before a month do not become fewer with the months.
pub proof fn lemma_months_grow(year: int, from: int, to: int)
    requires
        from <= to,
    ensures
        days_before_month(year, from) <= days_before_month(year, to),
    decreases to - from,
{
    if from < to {
        lemma_months_grow(year, from, to - 1);
    }
}

/// The name of a day of the week, with Sunday as 0.
pub open spec fn weekday_text(weekday: u8) -> Seq<char> {
    if weekday == 0 {
        "Sun"@
    } else if weekday == 1 {
        "Mon"@
    } else if weekday == 2 {
        "Tue"@
    } else if weekday == 3 {
        "Wed"@
    } else if weekday == 4 {
        "Thu"@
    } else if weekday == 5 {
        "Fri"@
    } else {
        "Sat"@
    }
}

/// The name of a month, counted from 1.
pub open spec fn month_text(month: u8) -> Seq<char> {
    if month == 1 {
        "Jan"@
    } else if month == 2 {
        "Feb"@
    } else if month == 3 {
        "Mar"@
    } else if month == 4 {
        "Apr"@
    } else if month == 5 {
        "May"@
    } else if month == 6 {
        "Jun"@
    } else if month == 7 {
        "Jul"@
    } else if month == 8 {
        "Aug"@
    } else if month == 9 {
        "Sep"@
    } else if month == 10 {
        "Oct"@
    } else if month == 11 {
        "Nov"@
    } else {
        "Dec"@
    }
}

/// The last `width` decimal digits of a number, with zeros in front where
/// the number has fewer.
pub open spec fn padded(n: nat, width: nat) -> Seq<char>
    decreases width,
{
    if width == 0 {
        Seq::empty()
    } else {
        padded(n / 10, (width - 1) as nat).push(((n % 10 + 48) as u8) as char)
    }
}

/// A time in the form that HTTP writes it: the day of the week, the day,
/// the month, the year and the time of day, followed by `GMT`.
pub open spec fn http_date_text(t: DateTime) -> Seq<char> {
    weekday_text(t.weekday) + seq![',', ' '] + padded(t.day as nat, 2) + seq![' '] + month_text(
        t.month,
    ) + seq![' '] + padded(t.year as nat, 4) + seq![' '] + padded(t.hour as nat, 2) + seq![':']
        + padded(t.minute as nat, 2) + seq![':'] + padded(t.second as nat, 2) + " GMT"@
}

/// The name of a day of the week.
fn weekday_name(weekday: u8) -> (r: &'static str)
    ensures
        r@ == weekday_text(weekday),
{
    if weekday == 0 {
        "Sun"
    } else if weekday == 1 {
        "Mon"
    } else if weekday == 2 {
        "Tue"
    } else if weekday == 3 {
        "Wed"
    } else if weekday == 4 {
        "Thu"
    } else if weekday == 5 {
        "Fri"
    } else {
        "Sat"
    }
}

/// The name of a month.
fn month_name(month: u8) -> (r: &'static str)
    ensures
        r@ == month_text(month),
{
    if month == 1 {
        "Jan"
    } else if month == 2 {
        "Feb"
    } else if month == 3 {
        "Mar"
    } else if month == 4 {
        "Apr"
    } else if month == 5 {
        "May"
    } else if month == 6 {
        "Jun"
    } else if month == 7 {
        "Jul"
    } else if month == 8 {
        "Aug"
    } else if month == 9 {
        "Sep"
    } else if month == 10 {
        "Oct"
    } else if month == 11 {
        "Nov"
    } else {
        "Dec"
    }
}

/// Appends the last `width` decimal digits of `n` to `out`.
fn push_digits(out: &mut Vec<char>, n: u16, width: u8)
    ensures
        final(out)@ == old(out)@ + padded(n as nat, width as nat),
    decreases width,
{
    if width > 0 {
        push_digits(out, n / 10, width - 1);
        out.push(((n % 10) as u8 + 48) as char);
        assert(out@ =~= old(out)@ + padded(n as nat, width as nat));
    } else {
        assert(out@ =~= old(out)@ + padded(n as nat, 0));
    }
}

} // verus!
