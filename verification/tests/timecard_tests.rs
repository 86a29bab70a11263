use timecard_pdf::timecard_data::{
    classify_remark, format_duration, format_tenths, DayRecord, Driver, MonthlyTimecard, Remark,
    TimecardSummary,
};

fn driver() -> Driver {
    Driver {
        id: 42,
        name: "山田太郎".to_string(),
        bumon: Some(1),
        category_c: Some(2),
        eigyosho_c: Some(1),
        kyuyo_shain_id: Some(7),
    }
}

fn day(n: u8, remarks: &str) -> DayRecord {
    let mut d = DayRecord::new(n, "月");
    d.remarks = remarks.to_string();
    d
}

fn card(days: Vec<DayRecord>) -> MonthlyTimecard {
    MonthlyTimecard { driver: driver(), year: 2025, month: 12, days, summary: TimecardSummary::empty() }
}

#[test]
fn new_day_is_empty() {
    let d = DayRecord::new(7, "日");
    assert_eq!(d.day, 7);
    assert_eq!(d.weekday, "日");
    assert!(d.is_sunday);
    assert!(d.clock_in.is_empty());
    assert!(d.clock_out.is_empty());
    assert_eq!(d.remarks, "");
    assert_eq!(d.kosoku_minutes, None);
    assert_eq!(d.kosoku_tcdc, None);
    assert_eq!(d.kosoku_digitacho, None);
    assert_eq!(d.zangyo, None);
    assert!(!d.is_kachiku && !d.is_trailer && !d.has_digitacho && !d.has_daily_report);
    assert_eq!(d.tsuika_count, 0);
    assert!(!DayRecord::new(8, "月").is_sunday);
}

#[test]
fn constraint_time_as_hours_and_minutes() {
    let mut d = DayRecord::new(1, "月");
    assert_eq!(d.kosoku_str(), "");
    d.kosoku_minutes = Some(0);
    assert_eq!(d.kosoku_str(), "");
    d.kosoku_minutes = Some(-30);
    assert_eq!(d.kosoku_str(), "");
    d.kosoku_minutes = Some(5);
    assert_eq!(d.kosoku_str(), "00:05");
    d.kosoku_minutes = Some(65);
    assert_eq!(d.kosoku_str(), "01:05");
    d.kosoku_minutes = Some(840);
    assert_eq!(d.kosoku_str(), "14:00");
    d.kosoku_minutes = Some(6_000);
    assert_eq!(d.kosoku_str(), "100:00");
    assert_eq!(format_duration(i64::MAX), format!("{}:{:02}", i64::MAX / 60, i64::MAX % 60));
}

#[test]
fn overtime_in_hours() {
    let mut d = DayRecord::new(1, "月");
    assert_eq!(d.zangyo_str(), "");
    d.zangyo = Some(0);
    assert_eq!(d.zangyo_str(), "");
    d.zangyo = Some(20);
    assert_eq!(d.zangyo_str(), "2");
    d.zangyo = Some(15);
    assert_eq!(d.zangyo_str(), "1.5");
    d.zangyo = Some(5);
    assert_eq!(d.zangyo_str(), "0.5");
    d.zangyo = Some(-5);
    assert_eq!(d.zangyo_str(), "-0.5");
    d.zangyo = Some(-20);
    assert_eq!(d.zangyo_str(), "-2");
    d.zangyo = Some(-125);
    assert_eq!(d.zangyo_str(), "-12.5");
    d.zangyo = Some(1_230);
    assert_eq!(d.zangyo_str(), "123");
}

#[test]
fn tenths_agree_with_float_formatting() {
    for tenths in [-1_005i64, -100, -37, -10, -1, 1, 9, 10, 11, 99, 100, 105, 2_147_483_647] {
        let z = tenths as f64 / 10.0;
        let expected = if z.fract() == 0.0 { format!("{}", z as i64) } else { format!("{:.1}", z) };
        assert_eq!(format_tenths(tenths), expected);
    }
    assert_eq!(format_tenths(i64::MIN), "-922337203685477580.8");
}

#[test]
fn additional_jobs() {
    let mut d = DayRecord::new(1, "月");
    assert_eq!(d.tsuika_str(), "");
    d.tsuika_count = 1;
    assert_eq!(d.tsuika_str(), "〇");
    d.tsuika_count = 2;
    assert_eq!(d.tsuika_str(), "〇〇");
    d.tsuika_count = 3;
    assert_eq!(d.tsuika_str(), "〇3");
    d.tsuika_count = 12;
    assert_eq!(d.tsuika_str(), "〇12");
    d.tsuika_count = -1;
    assert_eq!(d.tsuika_str(), "〇-1");
}

#[test]
fn overtime_with_additional_jobs() {
    let mut d = DayRecord::new(1, "月");
    assert_eq!(d.zangyo_with_tsuika_str(), "");
    d.tsuika_count = 2;
    assert_eq!(d.zangyo_with_tsuika_str(), "〇〇");
    d.zangyo = Some(15);
    assert_eq!(d.zangyo_with_tsuika_str(), "1.5〇〇");
    d.tsuika_count = 0;
    assert_eq!(d.zangyo_with_tsuika_str(), "1.5");
}

#[test]
fn total_constraint_time() {
    let mut s = TimecardSummary::empty();
    assert_eq!(s.total_kosoku_str(), "");
    s.total_kosoku = 12_345;
    assert_eq!(s.total_kosoku_str(), "205:45");
    s.total_kosoku = 59;
    assert_eq!(s.total_kosoku_str(), "00:59");
    s.total_kosoku = -1;
    assert_eq!(s.total_kosoku_str(), "");
}

#[test]
fn month_label() {
    let mut c = card(Vec::new());
    assert_eq!(c.year_month_str(), "2025年12月");
    c.month = 3;
    assert_eq!(c.year_month_str(), "2025年03月");
    c.year = -5;
    c.month = 0;
    assert_eq!(c.year_month_str(), "-5年00月");
}

#[test]
fn remarks_are_classified() {
    for r in ["公休", "泊休", "積置泊休", "指休"] {
        assert_eq!(classify_remark(r), Remark::DayOff);
    }
    assert_eq!(classify_remark("有休"), Remark::PaidLeave);
    assert_eq!(classify_remark("欠勤"), Remark::Absence);
    assert_eq!(classify_remark("遅刻"), Remark::Late);
    assert_eq!(classify_remark("早退"), Remark::EarlyLeave);
    assert_eq!(classify_remark("特休"), Remark::SpecialLeave);
    for r in ["前休", "後休", "前休作", "後休作"] {
        assert_eq!(classify_remark(r), Remark::HalfPaidLeave);
    }
    for r in ["", "出", "公休 ", "休"] {
        assert_eq!(classify_remark(r), Remark::Other);
    }
}

#[test]
fn summary_counts_remarks_and_sums() {
    let mut days = vec![
        day(1, "公休"),
        day(2, "有休"),
        day(3, "前休"),
        day(4, "欠勤"),
        day(5, "遅刻"),
        day(6, "早退"),
        day(7, "特休"),
        day(8, "泊休"),
        day(9, ""),
        day(10, "出"),
    ];
    days[8].kosoku_minutes = Some(600);
    days[9].kosoku_minutes = Some(900);
    days[8].zangyo = Some(15);
    days[9].zangyo = Some(20);
    days[8].is_kachiku = true;
    days[9].is_kachiku = true;
    days[9].is_trailer = true;
    let mut c = card(days);
    c.summary.tsuika = 4;
    c.calculate_summary();
    let s = c.summary;
    assert_eq!(s.kyuka, 2);
    assert_eq!(s.yukyu, 15);
    assert_eq!(s.kekkin, 1);
    assert_eq!(s.chikoku, 1);
    assert_eq!(s.soutai, 1);
    assert_eq!(s.tokukyu, 1);
    assert_eq!(s.total_kosoku, 1_500);
    assert_eq!(s.total_zangyo, 35);
    assert_eq!(s.kachiku, 2);
    assert_eq!(s.trailer, 1);
    assert_eq!(s.tsuika, 4);
    // 10 days, 2 off, no base days, 1 absent: 7 days worked on days off
    assert_eq!(s.kyushutsu, 70);
    // 100 - 20 - 15 - 70 - 10 - 10 < 0
    assert_eq!(s.shukkin, 0);
}

#[test]
fn summary_with_base_days() {
    let mut days: Vec<DayRecord> = Vec::new();
    for n in 1..=31u8 {
        days.push(day(n, if n % 7 == 0 { "公休" } else { "" }));
    }
    days[0].remarks = "有休".to_string();
    days[1].remarks = "後休作".to_string();
    let mut c = card(days);
    c.calculate_summary_with_kiso(22, 1, 2);
    let s = c.summary;
    assert_eq!(s.kyuka, 4);
    assert_eq!(s.yukyu, 15);
    // 31 - 4 - 22 - 0 - 1 - 2 = 2
    assert_eq!(s.kyushutsu, 20);
    // 310 - 40 - 15 - 20 - 0 - 0 - 10 - 20 = 205
    assert_eq!(s.shukkin, 205);
    assert_eq!(c.days.len(), 31);
    assert_eq!(c.year, 2025);
}

#[test]
fn summary_falls_back_on_earlier_allowances() {
    let mut c = card(vec![day(1, ""), day(2, "")]);
    c.summary.kachiku = 3;
    c.summary.trailer = 5;
    c.summary.tsuika = 9;
    c.summary.kyuka = 17;
    c.calculate_summary_with_kiso(0, 0, 0);
    assert_eq!(c.summary.kachiku, 3);
    assert_eq!(c.summary.trailer, 5);
    assert_eq!(c.summary.tsuika, 9);
    assert_eq!(c.summary.kyuka, 0);
    c.days[0].is_kachiku = true;
    c.summary.trailer = -1;
    c.calculate_summary();
    assert_eq!(c.summary.kachiku, 1);
    assert_eq!(c.summary.trailer, 0);
}

#[test]
fn summary_of_no_days() {
    let mut c = card(Vec::new());
    c.calculate_summary_with_kiso(-3, 0, 0);
    assert_eq!(c.summary.kyushutsu, 30);
    assert_eq!(c.summary.shukkin, 0);
    c.calculate_summary_with_kiso(0, -2, 0);
    assert_eq!(c.summary.kyushutsu, 20);
    assert_eq!(c.summary.shukkin, 0);
    c.calculate_summary();
    assert_eq!(c.summary, TimecardSummary::empty());
}
