use timecard_pdf::dates::{div_toward_zero, format_date, month_after, Date, DateTime};

fn date(year: i32, month: u32, day: u32) -> Date {
    Date { year, month, day }
}

fn at(year: i32, month: u32, day: u32, hour: u32, minute: u32, second: u32) -> DateTime {
    DateTime { date: date(year, month, day), hour, minute, second, nanosecond: 0 }
}

#[test]
fn dates_that_exist() {
    assert!(date(2024, 2, 29).is_valid());
    assert!(!date(2025, 2, 29).is_valid());
    assert!(!date(2025, 0, 1).is_valid());
    assert!(!date(2025, 13, 1).is_valid());
    assert!(!date(2025, 4, 31).is_valid());
    assert!(!date(2025, 4, 0).is_valid());
    assert!(date(-1, 12, 31).is_valid());
    assert!(at(2025, 1, 1, 23, 59, 59).is_valid());
    assert!(!at(2025, 1, 1, 24, 0, 0).is_valid());
    assert!(!at(2025, 1, 1, 0, 60, 0).is_valid());
    assert!(!at(2025, 1, 1, 0, 0, 60).is_valid());
    assert!(!at(2025, 2, 30, 0, 0, 0).is_valid());
}

#[test]
fn days_are_counted_from_year_one() {
    assert_eq!(date(1, 1, 1).number(), 1);
    assert_eq!(date(1, 12, 31).number(), 365);
    assert_eq!(date(2, 1, 1).number(), 366);
    assert_eq!(date(0, 12, 31).number(), 0);
    assert_eq!(date(2024, 1, 1).number(), 738_886);
    // 1970-01-01 is day 719163 of the count
    assert_eq!(date(1970, 1, 1).number(), 719_163);
    assert_eq!(date(2025, 12, 31).number() - date(1970, 1, 1).number(), 20_453);
}

#[test]
fn days_between_dates() {
    assert_eq!(date(2025, 12, 1).days_until(&date(2025, 12, 31)), 30);
    assert_eq!(date(2025, 12, 31).days_until(&date(2025, 12, 1)), -30);
    assert_eq!(date(2024, 2, 28).days_until(&date(2024, 3, 1)), 2);
    assert_eq!(date(2025, 2, 28).days_until(&date(2025, 3, 1)), 1);
    assert_eq!(date(2025, 12, 31).days_until(&date(2026, 1, 1)), 1);
    assert!(date(2025, 12, 31).is_before(&date(2026, 1, 1)));
    assert!(!date(2025, 12, 31).is_before(&date(2025, 12, 31)));
}

#[test]
fn minutes_and_hours_round_toward_zero() {
    let a = at(2025, 12, 5, 8, 0, 0);
    let b = at(2025, 12, 5, 17, 30, 59);
    assert_eq!(a.minutes_until(&b), 570);
    assert_eq!(b.minutes_until(&a), -570);
    assert_eq!(a.hours_until(&b), 9);
    assert_eq!(b.hours_until(&a), -9);
    assert_eq!(a.minutes_until(&a), 0);
    let next = at(2025, 12, 6, 7, 59, 59);
    assert_eq!(a.hours_until(&next), 23);
    assert_eq!(a.minutes_until(&next), 1_439);
    assert_eq!(div_toward_zero(-61, 60), -1);
    assert_eq!(div_toward_zero(-59, 60), 0);
    assert_eq!(div_toward_zero(119, 60), 1);
    assert_eq!(div_toward_zero(i64::MIN as i128, 60), (i64::MIN / 60) as i128);
    assert_eq!(div_toward_zero(-i128::MAX, 1), -i128::MAX);
}

#[test]
fn minutes_within_a_day() {
    assert_eq!(at(2025, 12, 5, 0, 0, 0).minute_of_day(), 0);
    assert_eq!(at(2025, 12, 5, 2, 30, 59).minute_of_day(), 150);
    assert_eq!(at(2025, 12, 5, 23, 59, 59).minute_of_day(), 1_439);
    assert_eq!(at(2025, 12, 5, 0, 0, 0).minutes_to_next_day(), 1_440);
    assert_eq!(at(2025, 12, 5, 22, 0, 0).minutes_to_next_day(), 120);
    assert_eq!(at(2025, 12, 5, 22, 0, 1).minutes_to_next_day(), 119);
    assert_eq!(at(2025, 12, 5, 23, 59, 59).minutes_to_next_day(), 0);
}

#[test]
fn times_are_in_order() {
    let a = at(2025, 12, 5, 23, 59, 59);
    let leap = DateTime { nanosecond: 1_000_000_000, ..a };
    let b = at(2025, 12, 6, 0, 0, 0);
    assert!(a.instant() < leap.instant());
    assert!(leap.instant() < b.instant());
    assert_eq!(a.instant(), at(2025, 12, 5, 23, 59, 59).instant());
    assert!(at(1, 1, 1, 0, 0, 0).instant() < at(1, 1, 1, 0, 0, 1).instant());
    assert!(at(-1, 12, 31, 23, 59, 59).instant() < at(0, 1, 1, 0, 0, 0).instant());
    // seconds since 1970-01-01 of 2025-12-31 00:00:00
    assert_eq!(at(1970, 1, 1, 0, 0, 0).seconds_until(&at(2025, 12, 31, 0, 0, 0)), 1_767_139_200);
}

#[test]
fn a_leap_second_is_a_second_of_its_own() {
    let leap = DateTime { nanosecond: 1_000_000_000, ..at(2025, 12, 1, 22, 0, 59) };
    assert!(leap.is_valid());
    assert!(!DateTime { nanosecond: 2_000_000_000, ..leap }.is_valid());
    let next = at(2025, 12, 2, 10, 0, 59);
    assert_eq!(leap.seconds_until(&next), 43_199);
    assert_eq!(leap.hours_until(&next), 11);
    assert_eq!(leap.minutes_until(&next), 719);
    assert_eq!(next.seconds_until(&leap), -43_199);
    assert_eq!(at(2025, 12, 1, 22, 0, 59).seconds_until(&leap), 1);
    assert_eq!(leap.seconds_until(&at(2025, 12, 1, 22, 1, 0)), 1);
    let last = DateTime { nanosecond: 1_000_000_000, ..at(2025, 12, 5, 23, 59, 59) };
    assert_eq!(last.minute_of_day(), 1_440);
    assert_eq!(last.minutes_to_next_day(), 0);
}

#[test]
fn month_after_a_month() {
    assert_eq!(month_after(2025, 11), (2025, 12));
    assert_eq!(month_after(2025, 12), (2026, 1));
    assert_eq!(month_after(2025, 1), (2025, 2));
}

#[test]
fn dates_as_text() {
    assert_eq!(format_date(2025, 12, 1), "2025-12-01");
    assert_eq!(format_date(2025, 3, 31), "2025-03-31");
    assert_eq!(format_date(987, 1, 5), "987-01-05");
}
