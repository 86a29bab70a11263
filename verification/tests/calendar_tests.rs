use timecard_pdf::calendar::{get_days_in_month, month_days, weekday_of_date, weekday_to_japanese, Weekday};

#[test]
fn test_days_in_month() {
    assert_eq!(get_days_in_month(2024, 1), 31);
    assert_eq!(get_days_in_month(2024, 2), 29);
    assert_eq!(get_days_in_month(2025, 2), 28);
    assert_eq!(get_days_in_month(2024, 4), 30);
    assert_eq!(get_days_in_month(2024, 12), 31);
}

#[test]
fn test_weekday_japanese() {
    assert_eq!(weekday_to_japanese(Weekday::Sun), "日");
    assert_eq!(weekday_to_japanese(Weekday::Mon), "月");
    assert_eq!(weekday_to_japanese(Weekday::Sat), "土");
}

#[test]
fn weekday_of_known_dates() {
    assert_eq!(weekday_of_date(2024, 1, 1), Weekday::Mon);
    assert_eq!(weekday_of_date(2025, 12, 31), Weekday::Wed);
    assert_eq!(weekday_of_date(2000, 2, 29), Weekday::Tue);
    assert_eq!(weekday_of_date(1970, 1, 1), Weekday::Thu);
    assert_eq!(weekday_of_date(1, 1, 1), Weekday::Mon);
    assert_eq!(weekday_of_date(0, 12, 31), Weekday::Sun);
    assert_eq!(weekday_of_date(-4, 3, 1), Weekday::Fri);
}

#[test]
fn century_years_are_leap_only_every_four_hundred() {
    assert_eq!(get_days_in_month(1900, 2), 28);
    assert_eq!(get_days_in_month(2000, 2), 29);
    assert_eq!(get_days_in_month(2100, 2), 28);
    assert_eq!(get_days_in_month(-400, 2), 29);
    assert_eq!(get_days_in_month(-100, 2), 28);
}

#[test]
fn month_days_of_december_2025() {
    let days = month_days(2025, 12);
    assert_eq!(days.len(), 31);
    assert_eq!(days[0].day, 1);
    assert_eq!(days[0].weekday, "月");
    assert!(!days[0].is_sunday);
    assert_eq!(days[6].day, 7);
    assert_eq!(days[6].weekday, "日");
    assert!(days[6].is_sunday);
    assert_eq!(days[30].day, 31);
    assert_eq!(days[30].weekday, "水");
    assert!(days[30].clock_in.is_empty());
    assert!(days[30].remarks.is_empty());
    assert_eq!(days[30].kosoku_minutes, None);
}
