//! The calendar of a month: its length, the days of the week of its days
//! and their names.

use vstd::prelude::*;
use vstd::arithmetic::div_mod::{lemma_fundamental_div_mod, lemma_fundamental_div_mod_converse};
use crate::timecard_data::DayRecord;
use crate::units::div_floor;

verus! {

/// A day of the week.
#[derive(Clone, Copy, Debug, PartialEq, Eq, Structural)]
pub enum Weekday {
    Mon,
    Tue,
    Wed,
    Thu,
    Fri,
    Sat,
    Sun,
}

/// Whether a year of the Gregorian calendar has a 29th of February.
pub open spec fn is_leap_year(year: int) -> bool {
    year % 4 == 0 && (year % 100 != 0 || year % 400 == 0)
}

/// Number of days of a month of a year.
pub open spec fn days_in_month(year: int, month: int) -> int {
    if month == 2 {
        if is_leap_year(year) {
            29
        } else {
            28
        }
    } else if month == 4 || month == 6 || month == 9 || month == 11 {
        30
    } else {
        31
    }
}

/// Number of days of `year` that lie before the first of `month`.
pub open spec fn days_before_month(year: int, month: int) -> int
    decreases month,
{
    if month <= 1 {
        0
    } else {
        days_before_month(year, month - 1) + days_in_month(year, month - 1)
    }
}

/// Number of days between the first of January of year 1 and the first of
/// January of `year`.
pub open spec fn days_before_year(year: int) -> int {
    365 * (year - 1) + (year - 1) / 4 - (year - 1) / 100 + (year - 1) / 400
}

/// Number of the day in a count of days in which the first of January of
/// year 1, a Monday, is day 1.
pub open spec fn day_number(year: int, month: int, day: int) -> int {
    days_before_year(year) + days_before_month(year, month) + day
}

/// The day of the week of the `n`th day of the count of `day_number`.
pub open spec fn weekday_of_number(n: int) -> Weekday {
    let r = n % 7;
    if r == 0 {
        Weekday::Sun
    } else if r == 1 {
        Weekday::Mon
    } else if r == 2 {
        Weekday::Tue
    } else if r == 3 {
        Weekday::Wed
    } else if r == 4 {
        Weekday::Thu
    } else if r == 5 {
        Weekday::Fri
    } else {
        Weekday::Sat
    }
}

/// The day of the week of a date.
pub open spec fn weekday_of(year: int, month: int, day: int) -> Weekday {
    weekday_of_number(day_number(year, month, day))
}

/// The name of a day of the week.
pub open spec fn weekday_name(weekday: Weekday) -> Seq<char> {
    match weekday {
        Weekday::Mon => "月"@,
        Weekday::Tue => "火"@,
        Weekday::Wed => "水"@,
        Weekday::Thu => "木"@,
        Weekday::Fri => "金"@,
        Weekday::Sat => "土"@,
        Weekday::Sun => "日"@,
    }
}

/// Tests `is_leap_year`.
pub fn leap_year(year: i32) -> (r: bool)
    ensures
        r == is_leap_year(year as int),
{
    // 4_000_000_000 is a multiple of 400, so the shift keeps every remainder.
    let shifted: i64 = year as i64 + 4_000_000_000;
    proof {
        let y = year as int;
        let s = shifted as int;
        lemma_fundamental_div_mod(y, 4);
        lemma_fundamental_div_mod(y, 100);
        lemma_fundamental_div_mod(y, 400);
        lemma_fundamental_div_mod_converse(s, 4, y / 4 + 1_000_000_000, y % 4);
        lemma_fundamental_div_mod_converse(s, 100, y / 100 + 40_000_000, y % 100);
        lemma_fundamental_div_mod_converse(s, 400, y / 400 + 10_000_000, y % 400);
    }
    shifted % 4 == 0 && (shifted % 100 != 0 || shifted % 400 == 0)
}

/// Number of days of a month.
pub fn get_days_in_month(year: i32, month: u32) -> (r: u8)
    requires
        1 <= month <= 12,
    ensures
        r == days_in_month(year as int, month as int),
        28 <= r <= 31,
{
    if month == 2 {
        if leap_year(year) {
            29
        } else {
            28
        }
    } else if month == 4 || month == 6 || month == 9 || month == 11 {
        30
    } else {
        31
    }
}

/// Number of days of `year` before the first of `month`.
pub fn count_days_before_month(year: i32, month: u32) -> (r: u32)
    requires
        1 <= month <= 12,
    ensures
        r == days_before_month(year as int, month as int),
        r <= 31 * (month - 1),
{
    let mut total: u32 = 0;
    let mut m: u32 = 1;
    while m < month
        invariant
            1 <= m <= month <= 12,
            total == days_before_month(year as int, m as int),
            total <= 31 * (m - 1),
        decreases month - m,
    {
        total = total + get_days_in_month(year, m) as u32;
        m = m + 1;
    }
    total
}

/// The day of the week of a date.
pub fn weekday_of_date(year: i32, month: u32, day: u32) -> (r: Weekday)
    requires
        1 <= month <= 12,
        1 <= day <= 31,
    ensures
        r == weekday_of(year as int, month as int, day as int),
{
    let prior: i128 = year as i128 - 1;
    let leaps: i128 = div_floor(prior, 4) - div_floor(prior, 100) + div_floor(prior, 400);
    let number: i128 = 365 * prior + leaps + count_days_before_month(year, month) as i128
        + day as i128;
    let quotient: i128 = div_floor(number, 7);
    proof {
        lemma_fundamental_div_mod(number as int, 7);
    }
    let r: i128 = number - 7 * quotient;
    if r == 0 {
        Weekday::Sun
    } else if r == 1 {
        Weekday::Mon
    } else if r == 2 {
        Weekday::Tue
    } else if r == 3 {
        Weekday::Wed
    } else if r == 4 {
        Weekday::Thu
    } else if r == 5 {
        Weekday::Fri
    } else {
        Weekday::Sat
    }
}

/// The name of a day of the week.
pub fn weekday_to_japanese(weekday: Weekday) -> (r: String)
    ensures
        r@ == weekday_name(weekday),
{
    match weekday {
        Weekday::Mon => String::from_str("月"),
        Weekday::Tue => String::from_str("火"),
        Weekday::Wed => String::from_str("水"),
        Weekday::Thu => String::from_str("木"),
        Weekday::Fri => String::from_str("金"),
        Weekday::Sat => String::from_str("土"),
        Weekday::Sun => String::from_str("日"),
    }
}

/// The empty records of the days of a month, first day first, each with
/// the name of its day of the week.
pub fn month_days(year: i32, month: u32) -> (r: Vec<DayRecord>)
    requires
        1 <= month <= 12,
    ensures
        r.len() == days_in_month(year as int, month as int),
        forall|i: int|
            0 <= i < r.len() ==> {
                &&& (#[trigger] r[i]).day == i + 1
                &&& r[i].weekday@ == weekday_name(weekday_of(year as int, month as int, i + 1))
                &&& r[i].is_sunday == (weekday_of(year as int, month as int, i + 1)
                    == Weekday::Sun)
                &&& r[i].clock_in@.len() == 0
                &&& r[i].clock_out@.len() == 0
                &&& r[i].remarks@.len() == 0
                &&& r[i].kosoku_minutes is None
                &&& r[i].zangyo is None
                &&& !r[i].is_kachiku
                &&& !r[i].is_trailer
                &&& !r[i].has_digitacho
                &&& !r[i].has_daily_report
                &&& r[i].tsuika_count == 0
            },
{
    let count: u8 = get_days_in_month(year, month);
    let mut days: Vec<DayRecord> = Vec::new();
    let mut day: u8 = 1;
    while day <= count
        invariant
            1 <= month <= 12,
            1 <= day <= count + 1,
            count == days_in_month(year as int, month as int),
            28 <= count <= 31,
            days.len() == day - 1,
            forall|i: int|
                0 <= i < days.len() ==> {
                    &&& (#[trigger] days[i]).day == i + 1
                    &&& days[i].weekday@ == weekday_name(
                        weekday_of(year as int, month as int, i + 1),
                    )
                    &&& days[i].is_sunday == (weekday_of(year as int, month as int, i + 1)
                        == Weekday::Sun)
                    &&& days[i].clock_in@.len() == 0
                    &&& days[i].clock_out@.len() == 0
                    &&& days[i].remarks@.len() == 0
                    &&& days[i].kosoku_minutes is None
                    &&& days[i].zangyo is None
                    &&& !days[i].is_kachiku
                    &&& !days[i].is_trailer
                    &&& !days[i].has_digitacho
                    &&& !days[i].has_daily_report
                    &&& days[i].tsuika_count == 0
                },
        decreases count + 1 - day,
    {
        let weekday: Weekday = weekday_of_date(year, month, day as u32);
        let name: String = weekday_to_japanese(weekday);
        proof {
            lemma_sunday_name(weekday);
        }
        let record: DayRecord = DayRecord::new(day, name.as_str());
        days.push(record);
        day = day + 1;
    }
    days
}

/// Only Sunday has Sunday's name.
pub proof fn lemma_sunday_name(weekday: Weekday)
    ensures
        (weekday_name(weekday) == "日"@) == (weekday == Weekday::Sun),
{
    reveal_strlit("月");
    reveal_strlit("火");
    reveal_strlit("水");
    reveal_strlit("木");
    reveal_strlit("金");
    reveal_strlit("土");
    reveal_strlit("日");
    assert("月"@[0] != "日"@[0]);
    assert("火"@[0] != "日"@[0]);
    assert("水"@[0] != "日"@[0]);
    assert("木"@[0] != "日"@[0]);
    assert("金"@[0] != "日"@[0]);
    assert("土"@[0] != "日"@[0]);
}

/// The day after a date falls on the next day of the week: seven days
/// later the day of the week is the same.
pub proof fn lemma_week_repeats(n: int)
    ensures
        weekday_of_number(n + 7) == weekday_of_number(n),
{
    lemma_fundamental_div_mod(n, 7);
    lemma_fundamental_div_mod_converse(n + 7, 7, n / 7 + 1, n % 7);
}

} // verus!
