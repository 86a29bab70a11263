//! Dates and times of day as plain numbers, and the distances between
//! them.

use vstd::prelude::*;
use chrono::{Datelike, NaiveDate, NaiveDateTime, Timelike};
use crate::calendar::{
    count_days_before_month,
    day_number,
    days_in_month,
    get_days_in_month,
};
use vstd::arithmetic::div_mod::{
    lemma_div_basics,
    lemma_div_is_ordered,
    lemma_div_is_ordered_by_denominator,
    lemma_div_pos_is_pos,
    lemma_fundamental_div_mod_converse,
};
use crate::text::{int_text, push_int, push_two_digits, two_digit_text};
use crate::units::div_floor;

verus! {

/// Seconds in a day.
pub const SECONDS_PER_DAY: i64 = 86_400;

/// Nanoseconds in a second.
pub const NANOS_PER_SECOND: i64 = 1_000_000_000;

/// A date of the Gregorian calendar.
#[derive(Clone, Copy, Debug, PartialEq, Eq, Structural)]
pub struct Date {
    pub year: i32,
    pub month: u32,
    pub day: u32,
}

/// A date and a time of day. A leap second is the second before it with a
/// thousand million nanoseconds or more.
#[derive(Clone, Copy, Debug, PartialEq, Eq, Structural)]
pub struct DateTime {
    pub date: Date,
    pub hour: u32,
    pub minute: u32,
    pub second: u32,
    pub nanosecond: u32,
}

/// Whether a date exists in the calendar.
pub open spec fn valid_date(d: Date) -> bool {
    &&& 1 <= d.month <= 12
    &&& 1 <= d.day <= days_in_month(d.year as int, d.month as int)
}

/// Whether a date and time exist.
pub open spec fn valid_datetime(t: DateTime) -> bool {
    &&& valid_date(t.date)
    &&& t.hour < 24
    &&& t.minute < 60
    &&& t.second < 60
    &&& t.nanosecond < 2 * NANOS_PER_SECOND
}

/// Number of a date in the count of days in which the first of January of
/// year 1 is day 1.
pub open spec fn date_number(d: Date) -> int {
    day_number(d.year as int, d.month as int, d.day as int)
}

/// Seconds from the start of a day to a time of that day.
pub open spec fn second_of_day(t: DateTime) -> int {
    t.hour * 3600 + t.minute * 60 + t.second
}

/// Place of a date and time in the order of time: the earlier of two has
/// the smaller number.
pub open spec fn instant(t: DateTime) -> int {
    (date_number(t.date) * SECONDS_PER_DAY + second_of_day(t)) * (2 * NANOS_PER_SECOND)
        + t.nanosecond
}

/// `a` divided by a positive `b`, rounded toward zero.
pub open spec fn toward_zero(a: int, b: int) -> int {
    if a >= 0 {
        a / b
    } else {
        -((-a) / b)
    }
}

/// Whole days from date `a` to date `b`.
pub open spec fn days_between(a: Date, b: Date) -> int {
    date_number(b) - date_number(a)
}

/// The second that a leap second adds between two times of day: one more
/// where the earlier time of day is a leap second, whatever the dates.
pub open spec fn leap_adjustment(a: DateTime, b: DateTime) -> int {
    if second_of_day(b) > second_of_day(a) && a.nanosecond >= NANOS_PER_SECOND {
        1
    } else if second_of_day(b) < second_of_day(a) && b.nanosecond >= NANOS_PER_SECOND {
        -1
    } else {
        0
    }
}

/// Nanoseconds from `a` to `b`: the days between the dates, and the time
/// between the times of day with its leap second.
pub open spec fn nanos_between(a: DateTime, b: DateTime) -> int {
    (SECONDS_PER_DAY * days_between(a.date, b.date) + second_of_day(b) - second_of_day(a)
        + leap_adjustment(a, b)) * NANOS_PER_SECOND + (b.nanosecond - a.nanosecond)
}

/// Whole seconds from `a` to `b`, rounded toward zero.
pub open spec fn seconds_between(a: DateTime, b: DateTime) -> int {
    toward_zero(nanos_between(a, b), NANOS_PER_SECOND as int)
}

/// Whole minutes from `a` to `b`, rounded toward zero.
pub open spec fn minutes_between(a: DateTime, b: DateTime) -> int {
    toward_zero(seconds_between(a, b), 60)
}

/// Whole hours from `a` to `b`, rounded toward zero.
pub open spec fn hours_between(a: DateTime, b: DateTime) -> int {
    toward_zero(seconds_between(a, b), 3600)
}

/// The start of the day of a date.
pub open spec fn midnight(d: Date) -> DateTime {
    DateTime { date: d, hour: 0, minute: 0, second: 0, nanosecond: 0 }
}

/// Whole minutes from a time to the start of the next day.
pub open spec fn minutes_left(t: DateTime) -> int {
    toward_zero(
        toward_zero(
            (SECONDS_PER_DAY - second_of_day(t)) * NANOS_PER_SECOND - t.nanosecond,
            NANOS_PER_SECOND as int,
        ),
        60,
    )
}

/// What `chrono` reads from a text in the form year-month-day: the year,
/// the month and the day of the date that the text stands for, if it
/// stands for one.
pub uninterp spec fn read_date(text: Seq<char>) -> Option<(i32, u32, u32)>;

/// What `chrono` reads from a text in the form year-month-day
/// hour:minute:second: the year, month, day, hour, minute, second and
/// nanosecond of the date and time that the text stands for, if it stands
/// for one.
pub uninterp spec fn read_date_time(text: Seq<char>) -> Option<
    (i32, u32, u32, u32, u32, u32, u32),
>;

/// The date that a text in the form year-month-day stands for.
pub open spec fn date_at(text: Seq<char>) -> Option<Date> {
    match read_date(text) {
        Some(d) => Some(Date { year: d.0, month: d.1, day: d.2 }),
        None => None,
    }
}

/// The date and time that a text in the form year-month-day
/// hour:minute:second stands for.
pub open spec fn date_time_at(text: Seq<char>) -> Option<DateTime> {
    match read_date_time(text) {
        Some(t) => Some(
            DateTime {
                date: Date { year: t.0, month: t.1, day: t.2 },
                hour: t.3,
                minute: t.4,
                second: t.5,
                nanosecond: t.6,
            },
        ),
        None => None,
    }
}

/// Reads a date with `chrono::NaiveDate::parse_from_str` and the format
/// `%Y-%m-%d`. Trusted: the result is what `chrono` reads from the text,
/// and a date that `chrono` has read exists in the calendar.
#[verifier::external_body]
fn read_date_text(text: &str) -> (r: Option<(i32, u32, u32)>)
    ensures
        r == read_date(text@),
        r matches Some(d) ==> valid_date((Date { year: d.0, month: d.1, day: d.2 })),
{
    match NaiveDate::parse_from_str(text, "%Y-%m-%d") {
        Ok(d) => Some((d.year(), d.month(), d.day())),
        Err(_) => None,
    }
}

/// Reads a date and time with `chrono::NaiveDateTime::parse_from_str` and
/// the format `%Y-%m-%d %H:%M:%S`, and takes it apart with the methods of
/// `Datelike` and `Timelike`. Trusted: the result is what `chrono` reads
/// from the text, and a date and time that `chrono` has read exist: the
/// date in the calendar, the hour below 24, minute and second below 60,
/// the nanosecond below two thousand million.
#[verifier::external_body]
fn read_date_time_text(text: &str) -> (r: Option<(i32, u32, u32, u32, u32, u32, u32)>)
    ensures
        r == read_date_time(text@),
        r matches Some(t) ==> valid_datetime(
            (DateTime {
                date: Date { year: t.0, month: t.1, day: t.2 },
                hour: t.3,
                minute: t.4,
                second: t.5,
                nanosecond: t.6,
            }),
        ),
{
    match NaiveDateTime::parse_from_str(text, "%Y-%m-%d %H:%M:%S") {
        Ok(t) => Some(
            (t.year(), t.month(), t.day(), t.hour(), t.minute(), t.second(), t.nanosecond()),
        ),
        Err(_) => None,
    }
}

/// Reads a date in the form year-month-day.
pub fn parse_date(text: &str) -> (r: Option<Date>)
    ensures
        r == date_at(text@),
        r matches Some(d) ==> valid_date(d),
{
    match read_date_text(text) {
        Some(d) => Some(Date { year: d.0, month: d.1, day: d.2 }),
        None => None,
    }
}

/// Reads a date and time in the form year-month-day hour:minute:second.
pub fn parse_date_time(text: &str) -> (r: Option<DateTime>)
    ensures
        r == date_time_at(text@),
        r matches Some(t) ==> valid_datetime(t),
{
    match read_date_time_text(text) {
        Some(t) => Some(
            DateTime {
                date: Date { year: t.0, month: t.1, day: t.2 },
                hour: t.3,
                minute: t.4,
                second: t.5,
                nanosecond: t.6,
            },
        ),
        None => None,
    }
}

/// The month after a month, with its year.
pub open spec fn next_month(year: int, month: int) -> (int, int) {
    if month == 12 {
        (year + 1, 1)
    } else {
        (year, month + 1)
    }
}

/// A date as year, month and day, the month and the day in two digits.
pub open spec fn date_text(year: int, month: nat, day: nat) -> Seq<char> {
    int_text(year) + seq!['-'] + two_digit_text(month) + seq!['-'] + two_digit_text(day)
}

/// The month after a month, with its year.
pub fn month_after(year: i32, month: u32) -> (r: (i32, u32))
    requires
        year < i32::MAX,
        month < u32::MAX,
    ensures
        r.0 == next_month(year as int, month as int).0,
        r.1 == next_month(year as int, month as int).1,
{
    if month == 12 {
        (year + 1, 1)
    } else {
        (year, month + 1)
    }
}

/// A date as text.
pub fn format_date(year: i32, month: u32, day: u32) -> (r: String)
    ensures
        r@ == date_text(year as int, month as nat, day as nat),
{
    proof {
        reveal_strlit("-");
    }
    let mut out: String = String::new();
    push_int(&mut out, year as i64);
    out.append("-");
    push_two_digits(&mut out, month as u64);
    out.append("-");
    push_two_digits(&mut out, day as u64);
    assert(out@ =~= date_text(year as int, month as nat, day as nat));
    out
}

/// `a` divided by a positive `b`, rounded toward zero.
pub fn div_toward_zero(a: i128, b: i128) -> (q: i128)
    requires
        b > 0,
        a > i128::MIN,
    ensures
        q == toward_zero(a as int, b as int),
        a >= 0 ==> 0 <= q <= a,
        a < 0 ==> a <= q <= 0,
{
    proof {
        if a >= 0 {
            lemma_div_pos_is_pos(a as int, b as int);
            lemma_div_is_ordered_by_denominator(a as int, 1, b as int);
            lemma_div_basics(a as int);
        } else {
            lemma_div_pos_is_pos(-(a as int), b as int);
            lemma_div_is_ordered_by_denominator(-(a as int), 1, b as int);
            lemma_div_basics(-(a as int));
        }
    }
    if a >= 0 {
        a / b
    } else {
        -((-a) / b)
    }
}

/// Rounding toward zero never reverses the order of two numbers.
pub proof fn lemma_toward_zero_ordered(a: int, b: int, d: int)
    requires
        a <= b,
        d > 0,
    ensures
        toward_zero(a, d) <= toward_zero(b, d),
{
    if a >= 0 {
        lemma_div_is_ordered(a, b, d);
    } else if b < 0 {
        lemma_div_is_ordered(-b, -a, d);
    } else {
        lemma_div_pos_is_pos(-a, d);
        lemma_div_pos_is_pos(b, d);
    }
}

/// A whole number of units rounds to itself.
pub proof fn lemma_toward_zero_exact(q: int, d: int)
    requires
        d > 0,
    ensures
        toward_zero(q * d, d) == q,
{
    if q >= 0 {
        assert(q * d >= 0) by (nonlinear_arith)
            requires
                q >= 0,
                d > 0,
        ;
        assert(q * d == d * q + 0) by (nonlinear_arith);
        lemma_fundamental_div_mod_converse(q * d, d, q, 0);
    } else {
        assert(q * d < 0) by (nonlinear_arith)
            requires
                q < 0,
                d > 0,
        ;
        assert(-(q * d) == d * (-q) + 0) by (nonlinear_arith);
        lemma_fundamental_div_mod_converse(-(q * d), d, -q, 0);
    }
}

impl Date {
    /// Whether the date exists in the calendar.
    pub fn is_valid(&self) -> (r: bool)
        ensures
            r == valid_date(*self),
    {
        1 <= self.month && self.month <= 12 && 1 <= self.day && self.day <= get_days_in_month(
            self.year,
            self.month,
        ) as u32
    }

    /// Number of the date in the count of days.
    pub fn number(&self) -> (r: i64)
        requires
            valid_date(*self),
        ensures
            r == date_number(*self),
            -785_000_000_000 <= r <= 785_000_000_000,
    {
        let prior: i128 = self.year as i128 - 1;
        let q4: i128 = div_floor(prior, 4);
        let q100: i128 = div_floor(prior, 100);
        let q400: i128 = div_floor(prior, 400);
        proof {
            let p = prior as int;
            vstd::arithmetic::div_mod::lemma_div_is_ordered(-0x1_0000_0000, p, 4);
            vstd::arithmetic::div_mod::lemma_div_is_ordered(p, 0x1_0000_0000, 4);
            vstd::arithmetic::div_mod::lemma_div_is_ordered(-0x1_0000_0000, p, 100);
            vstd::arithmetic::div_mod::lemma_div_is_ordered(p, 0x1_0000_0000, 100);
            vstd::arithmetic::div_mod::lemma_div_is_ordered(-0x1_0000_0000, p, 400);
            vstd::arithmetic::div_mod::lemma_div_is_ordered(p, 0x1_0000_0000, 400);
        }
        let before: u32 = count_days_before_month(self.year, self.month);
        (365 * prior + q4 - q100 + q400 + before as i128 + self.day as i128) as i64
    }

    /// Whether this date lies before `other`.
    pub fn is_before(&self, other: &Date) -> (r: bool)
        requires
            valid_date(*self),
            valid_date(*other),
        ensures
            r == (date_number(*self) < date_number(*other)),
    {
        self.number() < other.number()
    }

    /// Whole days from this date to `other`.
    pub fn days_until(&self, other: &Date) -> (r: i64)
        requires
            valid_date(*self),
            valid_date(*other),
        ensures
            r == days_between(*self, *other),
            -1_570_000_000_000 <= r <= 1_570_000_000_000,
    {
        other.number() - self.number()
    }
}

impl DateTime {
    /// Whether the date and time exist.
    pub fn is_valid(&self) -> (r: bool)
        ensures
            r == valid_datetime(*self),
    {
        self.date.is_valid() && self.hour < 24 && self.minute < 60 && self.second < 60
            && self.nanosecond < 2_000_000_000
    }

    /// Place in the order of time.
    pub fn instant(&self) -> (r: i128)
        requires
            valid_datetime(*self),
        ensures
            r == instant(*self),
    {
        let days: i128 = self.date.number() as i128;
        let seconds: i128 = self.hour as i128 * 3600 + self.minute as i128 * 60 + self.second as i128;
        (days * 86_400 + seconds) * 2_000_000_000 + self.nanosecond as i128
    }

    /// Whole seconds from this time to `other`, rounded toward zero.
    pub fn seconds_until(&self, other: &DateTime) -> (r: i64)
        requires
            valid_datetime(*self),
            valid_datetime(*other),
        ensures
            r == seconds_between(*self, *other),
            -136_000_000_000_000_000 <= r <= 136_000_000_000_000_000,
            self.date == other.date ==> -86_402 <= r <= 86_402,
    {
        let from: i128 = self.hour as i128 * 3600 + self.minute as i128 * 60 + self.second as i128;
        let to: i128 = other.hour as i128 * 3600 + other.minute as i128 * 60
            + other.second as i128;
        let leap: i128 = if to > from && self.nanosecond >= 1_000_000_000 {
            1
        } else if to < from && other.nanosecond >= 1_000_000_000 {
            -1
        } else {
            0
        };
        let days: i128 = self.date.days_until(&other.date) as i128;
        let whole: i128 = 86_400 * days + to - from + leap;
        let nanos: i128 = whole * 1_000_000_000 + (other.nanosecond as i128
            - self.nanosecond as i128);
        let seconds: i128 = div_toward_zero(nanos, 1_000_000_000);
        proof {
            let n = NANOS_PER_SECOND as int;
            assert(whole == SECONDS_PER_DAY * days_between(self.date, other.date) + second_of_day(
                *other,
            ) - second_of_day(*self) + leap_adjustment(*self, *other));
            assert(nanos == nanos_between(*self, *other));
            assert((whole - 2) * n <= nanos <= (whole + 2) * n) by (nonlinear_arith)
                requires
                    nanos == whole * n + (other.nanosecond - self.nanosecond),
                    -2 * n < other.nanosecond - self.nanosecond < 2 * n,
                    n > 0,
            ;
            lemma_toward_zero_exact(whole - 2, n);
            lemma_toward_zero_exact(whole + 2, n);
            lemma_toward_zero_ordered((whole - 2) * n, nanos as int, n);
            lemma_toward_zero_ordered(nanos as int, (whole + 2) * n, n);
            assert(whole - 2 <= seconds <= whole + 2);
        }
        seconds as i64
    }

    /// Whole minutes from this time to `other`, rounded toward zero.
    pub fn minutes_until(&self, other: &DateTime) -> (r: i64)
        requires
            valid_datetime(*self),
            valid_datetime(*other),
        ensures
            r == minutes_between(*self, *other),
            -136_000_000_000_000_000 <= r <= 136_000_000_000_000_000,
            self.date == other.date ==> -86_402 <= r <= 86_402,
    {
        div_toward_zero(self.seconds_until(other) as i128, 60) as i64
    }

    /// Whole hours from this time to `other`, rounded toward zero.
    pub fn hours_until(&self, other: &DateTime) -> (r: i64)
        requires
            valid_datetime(*self),
            valid_datetime(*other),
        ensures
            r == hours_between(*self, *other),
            -136_000_000_000_000_000 <= r <= 136_000_000_000_000_000,
    {
        div_toward_zero(self.seconds_until(other) as i128, 3600) as i64
    }

    /// Whole minutes from the start of the day.
    pub fn minute_of_day(&self) -> (r: i64)
        requires
            valid_datetime(*self),
        ensures
            r == minutes_between(midnight(self.date), *self),
            0 <= r <= 1440,
    {
        let start = DateTime { date: self.date, hour: 0, minute: 0, second: 0, nanosecond: 0 };
        let seconds: i64 = start.seconds_until(self);
        proof {
            let n = NANOS_PER_SECOND as int;
            let nanos = nanos_between(start, *self);
            assert(nanos == second_of_day(*self) * n + self.nanosecond);
            assert(0 <= nanos <= 86_401 * n) by (nonlinear_arith)
                requires
                    nanos == second_of_day(*self) * n + self.nanosecond,
                    0 <= second_of_day(*self) <= 86_399,
                    0 <= self.nanosecond < 2 * n,
                    n > 0,
            ;
            lemma_toward_zero_exact(86_401, n);
            lemma_toward_zero_ordered(nanos, 86_401 * n, n);
            lemma_toward_zero_ordered(0, nanos, n);
            lemma_toward_zero_ordered(seconds as int, 86_401, 60);
            lemma_toward_zero_ordered(0, seconds as int, 60);
        }
        div_toward_zero(seconds as i128, 60) as i64
    }

    /// Whole minutes to the start of the next day.
    pub fn minutes_to_next_day(&self) -> (r: i64)
        requires
            valid_datetime(*self),
        ensures
            r == minutes_left(*self),
            0 <= r <= 1440,
    {
        let passed: i128 = self.hour as i128 * 3600 + self.minute as i128 * 60
            + self.second as i128;
        let nanos: i128 = (86_400 - passed) * 1_000_000_000 - self.nanosecond as i128;
        let seconds: i128 = div_toward_zero(nanos, 1_000_000_000);
        proof {
            let n = NANOS_PER_SECOND as int;
            assert(-1 * n <= nanos <= 86_400 * n) by (nonlinear_arith)
                requires
                    nanos == (86_400 - passed) * n - self.nanosecond,
                    0 <= passed <= 86_399,
                    0 <= self.nanosecond < 2 * n,
                    n > 0,
            ;
            lemma_toward_zero_exact(86_400, n);
            lemma_toward_zero_ordered(nanos as int, 86_400 * n, n);
            if nanos >= 0 {
                lemma_toward_zero_ordered(0, nanos as int, n);
            } else {
                lemma_toward_zero_exact(-1, n);
                lemma_toward_zero_ordered(-1 * n, nanos as int, n);
                lemma_toward_zero_ordered(nanos as int, 0, n);
            }
            assert(-1 <= seconds <= 86_400);
            lemma_toward_zero_ordered(seconds as int, 86_400, 60);
            lemma_toward_zero_ordered(-1, seconds as int, 60);
        }
        div_toward_zero(seconds, 60) as i64
    }
}

} // verus!
