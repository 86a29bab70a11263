use timecard_pdf::symbols::{
    allowance_symbol, attendance_symbol, count_categories, day_category, remark_is_leave,
    CategoryCounts, DayCategory,
};
use timecard_pdf::timecard_data::DayRecord;

fn day(clock_in: &[&str], clock_out: &[&str], digital: bool, remarks: &str) -> DayRecord {
    let mut d = DayRecord::new(1, "月");
    d.clock_in = clock_in.iter().map(|s| s.to_string()).collect();
    d.clock_out = clock_out.iter().map(|s| s.to_string()).collect();
    d.has_digitacho = digital;
    d.remarks = remarks.to_string();
    d
}

#[test]
fn clock_in_without_clock_out() {
    assert_eq!(attendance_symbol(&day(&["08:00"], &[], false, "")), "<");
}

#[test]
fn clock_in_and_out_with_tachograph_data() {
    assert_eq!(attendance_symbol(&day(&["08:00"], &["17:00"], true, "")), "[]");
}

#[test]
fn leave_without_punches() {
    assert_eq!(attendance_symbol(&day(&[], &[], false, "公休")), "X");
    assert_eq!(attendance_symbol(&day(&[], &[], false, "有休")), "X");
    assert_eq!(attendance_symbol(&day(&[], &[], false, "特休")), "X");
}

#[test]
fn two_pairs_of_punches() {
    assert_eq!(
        attendance_symbol(&day(&["08:00", "13:00"], &["12:00", "17:00"], false, "")),
        "<><>"
    );
    assert_eq!(attendance_symbol(&day(&["08:00", "13:00"], &["12:00"], true, "")), "[][");
    assert_eq!(attendance_symbol(&day(&[], &["12:00"], false, "")), ">");
    assert_eq!(attendance_symbol(&day(&["08:00"], &["12:00", "17:00"], false, "")), "<>>");
}

#[test]
fn leave_mark_follows_the_punches() {
    assert_eq!(attendance_symbol(&day(&["08:00"], &["12:00"], false, "有休")), "<>X");
    assert_eq!(attendance_symbol(&day(&["08:00"], &["12:00"], false, "前休")), "<>");
    assert_eq!(attendance_symbol(&day(&[], &[], false, "欠勤")), "");
}

#[test]
fn fallback_marks() {
    assert_eq!(attendance_symbol(&day(&[], &[], false, "")), "");
    assert_eq!(attendance_symbol(&day(&[], &[], true, "")), "*");
    let mut raw = day(&[], &[], false, "");
    raw.kosoku_minutes = Some(480);
    assert_eq!(attendance_symbol(&raw), "+");
    raw.has_digitacho = true;
    assert_eq!(attendance_symbol(&raw), "*");
    raw.remarks = "公休".to_string();
    assert_eq!(attendance_symbol(&raw), "X*");
    raw.clock_in = vec!["08:00".to_string()];
    assert_eq!(attendance_symbol(&raw), "[X");
}

#[test]
fn allowance_marks() {
    let mut d = day(&[], &[], false, "");
    assert_eq!(allowance_symbol(&d), "");
    d.is_kachiku = true;
    assert_eq!(allowance_symbol(&d), "畜");
    d.is_trailer = true;
    assert_eq!(allowance_symbol(&d), "畜引");
    d.has_daily_report = true;
    assert_eq!(allowance_symbol(&d), "畜引作");
    d.is_kachiku = false;
    assert_eq!(allowance_symbol(&d), "引作");
}

#[test]
fn kinds_of_leave() {
    for r in ["公休", "泊休", "積置泊休", "指休", "有休", "特休"] {
        assert!(remark_is_leave(r));
    }
    for r in ["", "欠勤", "遅刻", "早退", "前休", "後休", "出"] {
        assert!(!remark_is_leave(r));
    }
}

#[test]
fn categories_of_days() {
    assert_eq!(day_category(&day(&["08:00"], &[], false, "公休")), DayCategory::Worked);
    assert_eq!(day_category(&day(&[], &["17:00"], false, "")), DayCategory::Worked);
    let mut report = day(&[], &[], false, "公休");
    report.has_daily_report = true;
    assert_eq!(day_category(&report), DayCategory::Administrative);
    assert_eq!(day_category(&day(&[], &[], false, "有休")), DayCategory::Leave);
    assert_eq!(day_category(&day(&[], &[], true, "")), DayCategory::Unclassified);
    assert_eq!(day_category(&day(&[], &[], false, "欠勤")), DayCategory::Unclassified);
}

#[test]
fn unclassified_days_are_what_is_left() {
    let mut report = day(&[], &[], false, "");
    report.has_daily_report = true;
    let days = vec![
        day(&["08:00"], &["17:00"], false, ""),
        day(&["08:00"], &[], true, ""),
        report,
        day(&[], &[], false, "公休"),
        day(&[], &[], false, "有休"),
        day(&[], &[], false, "特休"),
        day(&[], &[], false, ""),
        day(&[], &[], false, "欠勤"),
    ];
    assert_eq!(
        count_categories(&days),
        CategoryCounts { worked: 2, administrative: 1, leave: 3, unclassified: 2 }
    );
    assert_eq!(
        count_categories(&Vec::new()),
        CategoryCounts { worked: 0, administrative: 0, leave: 0, unclassified: 0 }
    );
}
