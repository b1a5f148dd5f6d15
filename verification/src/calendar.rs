//! Dates and times of day.  The library holds them as plain numbers; the
//! calendar arithmetic, validation, formatting and parsing are `chrono`'s.
use vstd::prelude::*;

use chrono::{Datelike, Days, NaiveDate, NaiveTime};

use crate::text::decimal;

verus! {

/// The first year that `chrono`'s dates reach.
pub open spec fn min_year() -> int {
    -262143
}

/// The last year that `chrono`'s dates reach.
pub open spec fn max_year() -> int {
    262142
}

pub open spec fn is_leap_year(y: int) -> bool {
    (y % 4 == 0 && y % 100 != 0) || y % 400 == 0
}

pub open spec fn days_in_month(y: int, m: int) -> int {
    if m == 2 {
        if is_leap_year(y) {
            29
        } else {
            28
        }
    } else if m == 4 || m == 6 || m == 9 || m == 11 {
        30
    } else {
        31
    }
}

/// A day of the proleptic Gregorian calendar that `chrono` can represent.
pub open spec fn valid_date(y: int, m: int, d: int) -> bool {
    &&& min_year() <= y <= max_year()
    &&& 1 <= m <= 12
    &&& 1 <= d <= days_in_month(y, m)
}

/// The number of a day: consecutive days have consecutive numbers
/// (1970-01-01 is day 0).
pub open spec fn day_number(y: int, m: int, d: int) -> int {
    let yy = if m <= 2 {
        y - 1
    } else {
        y
    };
    let era = yy / 400;
    let yoe = yy - era * 400;
    let mp = if m > 2 {
        m - 3
    } else {
        m + 9
    };
    let doy = (153 * mp + 2) / 5 + d - 1;
    let doe = yoe * 365 + yoe / 4 - yoe / 100 + doy;
    era * 146097 + doe - 719468
}

pub open spec fn first_day_number() -> int {
    day_number(min_year(), 1, 1)
}

pub open spec fn last_day_number() -> int {
    day_number(max_year(), 12, 31)
}

/// A calendar date.
#[derive(Debug, Clone, Copy, PartialEq, Eq, Structural)]
pub struct Date {
    pub year: i32,
    pub month: u32,
    pub day: u32,
}

impl Date {
    pub open spec fn valid(self) -> bool {
        valid_date(self.year as int, self.month as int, self.day as int)
    }

    pub open spec fn number(self) -> int {
        day_number(self.year as int, self.month as int, self.day as int)
    }

    /// The date `year-month-day`, when it exists and is in range.
    pub fn from_ymd_opt(year: i32, month: u32, day: u32) -> (r: Option<Date>)
        ensures
            r == (if valid_date(year as int, month as int, day as int) {
                Some(Date { year, month, day })
            } else {
                None
            }),
    {
        if date_exists(year, month, day) {
            Some(Date { year, month, day })
        } else {
            None
        }
    }

    pub fn year(&self) -> (r: i32)
        ensures
            r == self.year,
    {
        self.year
    }

    pub fn month(&self) -> (r: u32)
        ensures
            r == self.month,
    {
        self.month
    }

    pub fn day(&self) -> (r: u32)
        ensures
            r == self.day,
    {
        self.day
    }
}

/// Whether `a` comes before `b`: by year, then month, then day.
pub open spec fn date_before(a: Date, b: Date) -> bool {
    a.year < b.year || (a.year == b.year && (a.month < b.month || (a.month == b.month && a.day < b.day)))
}

/// Whether `a` comes before `b`.
pub fn is_before(a: Date, b: Date) -> (r: bool)
    ensures
        r == date_before(a, b),
{
    a.year < b.year || (a.year == b.year && (a.month < b.month || (a.month == b.month && a.day < b.day)))
}

/// A time of day, to the minute.
#[derive(Debug, Clone, Copy, PartialEq, Eq, Structural)]
pub struct Time {
    pub hour: u32,
    pub minute: u32,
}

impl Time {
    pub fn hour(&self) -> (r: u32)
        ensures
            r == self.hour,
    {
        self.hour
    }

    pub fn minute(&self) -> (r: u32)
        ensures
            r == self.minute,
    {
        self.minute
    }
}

// ------------------------------------------------------------------------------------------
// Text of dates
// ------------------------------------------------------------------------------------------

/// `t` with zeros in front, up to `w` characters.
pub open spec fn zero_pad(t: Seq<char>, w: nat) -> Seq<char> {
    if t.len() >= w {
        t
    } else {
        Seq::new((w - t.len()) as nat, |i: int| '0') + t
    }
}

/// How `chrono` writes a date: `YYYY-MM-DD`; a year outside `0..=9999`
/// with its sign and at least four digits.
pub open spec fn date_text(y: int, m: int, d: int) -> Seq<char> {
    let year = if 0 <= y <= 9999 {
        zero_pad(decimal(y as nat), 4)
    } else if y < 0 {
        seq!['-'] + zero_pad(decimal((-y) as nat), 4)
    } else {
        seq!['+'] + zero_pad(decimal(y as nat), 4)
    };
    year + seq!['-'] + zero_pad(decimal(m as nat), 2) + seq!['-'] + zero_pad(decimal(d as nat), 2)
}

/// What `chrono` reads from `text` as a date in the format `%Y-%m-%d`.
pub uninterp spec fn iso_date_parsed(text: Seq<char>) -> Option<(i32, u32, u32)>;

/// What `chrono` reads from `text` as a date in the format `%d.%m.%Y`.
pub uninterp spec fn dotted_date_parsed(text: Seq<char>) -> Option<(i32, u32, u32)>;

// ------------------------------------------------------------------------------------------
// The calls into chrono
// ------------------------------------------------------------------------------------------

/// `NaiveDate::from_ymd_opt(year, month, day).is_some()`: whether the date
/// exists in the proleptic Gregorian calendar and lies in `chrono`'s range.
#[verifier::external_body]
pub(crate) fn date_exists(year: i32, month: u32, day: u32) -> (r: bool)
    ensures
        r == valid_date(year as int, month as int, day as int),
{
    NaiveDate::from_ymd_opt(year, month, day).is_some()
}

/// `NaiveDate::checked_add_days`: the date `n` days later, or `None` when it
/// is past `chrono`'s last date.
#[verifier::external_body]
pub(crate) fn date_add_days(date: Date, n: u64) -> (r: Option<Date>)
    requires
        date.valid(),
    ensures
        match r {
            Some(e) => e.valid() && e.number() == date.number() + n,
            None => date.number() + n > last_day_number(),
        },
{
    let d = NaiveDate::from_ymd_opt(date.year, date.month, date.day).unwrap();
    match d.checked_add_days(Days::new(n)) {
        Some(e) => Some(Date { year: e.year(), month: e.month(), day: e.day() }),
        None => None,
    }
}

/// `NaiveDate::checked_sub_days`: the date `n` days earlier, or `None` when it
/// is before `chrono`'s first date.
#[verifier::external_body]
pub(crate) fn date_sub_days(date: Date, n: u64) -> (r: Option<Date>)
    requires
        date.valid(),
    ensures
        match r {
            Some(e) => e.valid() && e.number() == date.number() - n,
            None => date.number() - n < first_day_number(),
        },
{
    let d = NaiveDate::from_ymd_opt(date.year, date.month, date.day).unwrap();
    match d.checked_sub_days(Days::new(n)) {
        Some(e) => Some(Date { year: e.year(), month: e.month(), day: e.day() }),
        None => None,
    }
}

/// `(later - earlier).num_days()`: the signed number of days between two dates.
#[verifier::external_body]
pub(crate) fn days_between(earlier: Date, later: Date) -> (r: i64)
    requires
        earlier.valid(),
        later.valid(),
    ensures
        r == later.number() - earlier.number(),
{
    let a = NaiveDate::from_ymd_opt(earlier.year, earlier.month, earlier.day).unwrap();
    let b = NaiveDate::from_ymd_opt(later.year, later.month, later.day).unwrap();
    (b - a).num_days()
}

/// `NaiveTime::from_hms_opt(hour, minute, 0).is_some()`: whether the hour is
/// below 24 and the minute below 60.
#[verifier::external_body]
pub(crate) fn time_exists(hour: u32, minute: u32) -> (r: bool)
    ensures
        r == (hour < 24 && minute < 60),
{
    NaiveTime::from_hms_opt(hour, minute, 0).is_some()
}

/// `NaiveDate::to_string`: the date as `chrono` writes it.
#[verifier::external_body]
pub(crate) fn date_to_text(date: Date) -> (r: String)
    requires
        date.valid(),
    ensures
        r@ == date_text(date.year as int, date.month as int, date.day as int),
{
    NaiveDate::from_ymd_opt(date.year, date.month, date.day).unwrap().to_string()
}

/// `NaiveDate::from_str`: the date that `text` holds in the format `%Y-%m-%d`.
/// It is a valid date; the text that `chrono` writes for a date with a year in
/// `0..=9999` reads back as that date.  What other texts give is not stated.
#[verifier::external_body]
pub(crate) fn parse_iso_date(text: &str) -> (r: Option<Date>)
    ensures
        r == (match iso_date_parsed(text@) {
            Some((y, m, d)) => Some(Date { year: y, month: m, day: d }),
            None => None,
        }),
        r matches Some(e) ==> e.valid(),
        forall|y: i32, m: u32, d: u32|
            valid_date(y as int, m as int, d as int) && 0 <= y <= 9999 && text@ == date_text(
                y as int,
                m as int,
                d as int,
            ) ==> r == Some(Date { year: y, month: m, day: d }),
{
    match text.parse::<NaiveDate>() {
        Ok(e) => Some(Date { year: e.year(), month: e.month(), day: e.day() }),
        Err(_) => None,
    }
}

/// `NaiveDate::parse_from_str(text, "%d.%m.%Y")`: the date that `text` holds
/// in that format; it is a valid date.  Which texts are accepted is not stated.
#[verifier::external_body]
pub(crate) fn parse_dotted_date(text: &str) -> (r: Option<Date>)
    ensures
        r == (match dotted_date_parsed(text@) {
            Some((y, m, d)) => Some(Date { year: y, month: m, day: d }),
            None => None,
        }),
        r matches Some(e) ==> e.valid(),
{
    match NaiveDate::parse_from_str(text, "%d.%m.%Y") {
        Ok(e) => Some(Date { year: e.year(), month: e.month(), day: e.day() }),
        Err(_) => None,
    }
}

// ------------------------------------------------------------------------------------------
// Day numbers
// ------------------------------------------------------------------------------------------

/// The number of days before March 1 of year `yy + 1` counted the way
/// `day_number` counts them (its part that depends on the year alone).
pub open spec fn year_base(yy: int) -> int {
    let era = yy / 400;
    let yoe = yy - era * 400;
    era * 146097 + yoe * 365 + yoe / 4 - yoe / 100
}

/// A year of the March-based count has 365 days, 366 when the February it
/// ends with has a 29th.
proof fn lemma_year_base_step(yy: int)
    ensures
        year_base(yy + 1) == year_base(yy) + 365 + (if is_leap_year(yy + 1) { 1int } else { 0 }),
{
    let e = yy / 400;
    let r = yy % 400;
    assert(yy == 400 * e + r && 0 <= r < 400) by {
        vstd::arithmetic::div_mod::lemma_fundamental_div_mod(yy, 400);
    }
    if r < 399 {
        assert((yy + 1) / 400 == e);
        assert((yy + 1) % 4 == (r + 1) % 4);
        assert((yy + 1) % 100 == (r + 1) % 100);
        assert((yy + 1) % 400 == r + 1);
    } else {
        assert((yy + 1) / 400 == e + 1);
        assert((yy + 1) % 400 == 0);
    }
}

/// Within a month the days are numbered one after the other.
proof fn lemma_day_in_month(y: int, m: int, d: int)
    ensures
        day_number(y, m, d) == day_number(y, m, 1) + d - 1,
{
}

/// The first day of a month comes right after the last day of the month before.
proof fn lemma_next_month(y: int, m: int)
    requires
        1 <= m <= 11,
    ensures
        day_number(y, m + 1, 1) == day_number(y, m, 1) + days_in_month(y, m),
{
    if m == 1 {
    } else if m == 2 {
        lemma_year_base_step(y - 1);
    } else if m == 3 {
    } else if m == 4 {
    } else if m == 5 {
    } else if m == 6 {
    } else if m == 7 {
    } else if m == 8 {
    } else if m == 9 {
    } else if m == 10 {
    } else {
    }
}

/// January 1 comes right after December 31.
proof fn lemma_next_year(y: int)
    ensures
        day_number(y + 1, 1, 1) == day_number(y, 12, 1) + 31,
{
}

proof fn lemma_months_ordered(y: int, m1: int, m2: int)
    requires
        1 <= m1 < m2 <= 12,
    ensures
        day_number(y, m1, 1) + days_in_month(y, m1) <= day_number(y, m2, 1),
    decreases m2 - m1,
{
    lemma_next_month(y, m1);
    if m2 > m1 + 1 {
        lemma_months_ordered(y, m1 + 1, m2);
    }
}

/// A day of a year lies between its January 1 and the next January 1.
proof fn lemma_within_year(y: int, m: int, d: int)
    requires
        1 <= m <= 12,
        1 <= d <= days_in_month(y, m),
    ensures
        day_number(y, 1, 1) <= day_number(y, m, d) < day_number(y + 1, 1, 1),
{
    lemma_day_in_month(y, m, d);
    lemma_next_year(y);
    if m > 1 {
        lemma_months_ordered(y, 1, m);
    }
    if m < 12 {
        lemma_months_ordered(y, m, 12);
    }
}

proof fn lemma_years_ordered(y1: int, y2: int)
    requires
        y1 < y2,
    ensures
        day_number(y1 + 1, 1, 1) <= day_number(y2, 1, 1),
    decreases y2 - y1,
{
    if y2 > y1 + 1 {
        lemma_years_ordered(y1, y2 - 1);
        lemma_within_year(y2 - 1, 1, 1);
    }
}

/// A date is fixed by its day number: two dates of the calendar with the
/// same number are the same date.
pub proof fn lemma_day_number_injective(a: Date, b: Date)
    requires
        a.valid(),
        b.valid(),
        a.number() == b.number(),
    ensures
        a == b,
{
    let (ya, ma, da) = (a.year as int, a.month as int, a.day as int);
    let (yb, mb, db) = (b.year as int, b.month as int, b.day as int);
    lemma_within_year(ya, ma, da);
    lemma_within_year(yb, mb, db);
    if ya < yb {
        lemma_years_ordered(ya, yb);
    } else if yb < ya {
        lemma_years_ordered(yb, ya);
    } else {
        lemma_day_in_month(ya, ma, da);
        lemma_day_in_month(yb, mb, db);
        if ma < mb {
            lemma_months_ordered(ya, ma, mb);
        } else if mb < ma {
            lemma_months_ordered(ya, mb, ma);
        }
    }
}

} // verus!
