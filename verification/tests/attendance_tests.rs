use timecard_pdf::allowance::{
    count_actions, find_latest, find_stored, plan_sync, AllowanceData, SyncAction, SyncCounts,
};
use timecard_pdf::attendance::{
    allowance_of_category, merge_constraint_times, add_overtime, counts_as_trip, flag_allowance, format_time, hire_retire_counts, listed,
    mark_allowance_days, mark_digitacho, mark_trip_days, record_inject, record_punch,
    set_constraint_time, set_constraint_times, set_remark, Allowance,
};
use timecard_pdf::calendar::month_days;
use timecard_pdf::dates::{Date, DateTime};
use timecard_pdf::requests::{ErrorResponse, PdfRequest};
use timecard_pdf::timecard_data::{DayRecord, Driver, MonthlyTimecard, TimecardSummary};

fn at(day: u32, hour: u32, minute: u32) -> DateTime {
    DateTime { date: Date { year: 2025, month: 12, day }, hour, minute, second: 30, nanosecond: 0 }
}

fn date(month: u32, day: u32) -> Date {
    Date { year: 2025, month, day }
}

fn december() -> Vec<DayRecord> {
    month_days(2025, 12)
}

#[test]
fn times_of_day() {
    assert_eq!(format_time(8, 5), "08:05");
    assert_eq!(format_time(0, 0), "00:00");
    assert_eq!(format_time(23, 59), "23:59");
}

#[test]
fn punches_fill_two_pairs() {
    let mut days = december();
    record_punch(&mut days, &at(5, 8, 0), 30);
    record_punch(&mut days, &at(5, 12, 0), 31);
    record_punch(&mut days, &at(5, 13, 0), 30);
    record_punch(&mut days, &at(5, 17, 0), 31);
    record_punch(&mut days, &at(5, 18, 0), 30);
    record_punch(&mut days, &at(5, 19, 0), 31);
    record_punch(&mut days, &at(5, 20, 0), 10);
    assert_eq!(days[4].clock_in, vec!["08:00", "13:00"]);
    assert_eq!(days[4].clock_out, vec!["12:00", "17:00"]);
    assert!(days[3].clock_in.is_empty() && days[5].clock_in.is_empty());
}

#[test]
fn punches_on_days_the_month_does_not_have() {
    let mut days: Vec<DayRecord> = december().into_iter().take(28).collect();
    record_punch(&mut days, &at(29, 8, 0), 30);
    record_inject(&mut days, &at(31, 8, 0));
    set_remark(&mut days, 0, "公休".to_string());
    set_remark(&mut days, 29, "公休".to_string());
    set_constraint_time(&mut days, 40, 5);
    mark_digitacho(&mut days, 29);
    add_overtime(&mut days, 0, 5);
    flag_allowance(&mut days, 29, Allowance::Trailer);
    for d in &days {
        assert!(d.clock_in.is_empty() && d.clock_out.is_empty());
        assert_eq!(d.remarks, "");
        assert_eq!(d.kosoku_minutes, None);
        assert_eq!(d.zangyo, None);
        assert!(!d.has_digitacho && !d.is_trailer);
    }
}

#[test]
fn times_entered_by_hand_alternate() {
    let mut days = december();
    record_inject(&mut days, &at(5, 8, 0));
    assert_eq!(days[4].clock_in, vec!["08:00"]);
    record_inject(&mut days, &at(5, 12, 0));
    assert_eq!(days[4].clock_out, vec!["12:00"]);
    record_inject(&mut days, &at(5, 13, 0));
    record_inject(&mut days, &at(5, 17, 0));
    record_inject(&mut days, &at(5, 18, 0));
    assert_eq!(days[4].clock_in, vec!["08:00", "13:00"]);
    assert_eq!(days[4].clock_out, vec!["12:00", "17:00"]);
    let mut after_punches = december();
    record_punch(&mut after_punches, &at(6, 8, 0), 30);
    record_punch(&mut after_punches, &at(6, 9, 0), 30);
    record_inject(&mut after_punches, &at(6, 10, 0));
    record_inject(&mut after_punches, &at(6, 11, 0));
    record_inject(&mut after_punches, &at(6, 12, 0));
    assert_eq!(after_punches[5].clock_in, vec!["08:00", "09:00"]);
    assert_eq!(after_punches[5].clock_out, vec!["10:00", "11:00"]);
}

#[test]
fn remarks_and_flags_are_set() {
    let mut days = december();
    set_remark(&mut days, 1, "公休".to_string());
    set_remark(&mut days, 31, "有休".to_string());
    set_remark(&mut days, 1, "特休".to_string());
    mark_digitacho(&mut days, 2);
    flag_allowance(&mut days, 3, Allowance::Kachiku);
    flag_allowance(&mut days, 3, Allowance::Trailer);
    flag_allowance(&mut days, 4, Allowance::Trailer);
    assert_eq!(days[0].remarks, "特休");
    assert_eq!(days[30].remarks, "有休");
    assert!(days[1].has_digitacho && !days[0].has_digitacho);
    assert!(days[2].is_kachiku && days[2].is_trailer);
    assert!(!days[3].is_kachiku && days[3].is_trailer);
    assert_eq!(days[2].day, 3);
    assert_eq!(days[2].weekday, "水");
}

#[test]
fn later_constraint_times_replace_earlier_ones() {
    let mut days = december();
    set_constraint_times(&mut days, &vec![(1, 600), (2, 610), (40, 1)]);
    set_constraint_times(&mut days, &vec![(2, 700), (3, 710), (2, 720)]);
    assert_eq!(days[0].kosoku_minutes, Some(600));
    assert_eq!(days[1].kosoku_minutes, Some(720));
    assert_eq!(days[2].kosoku_minutes, Some(710));
    assert_eq!(days[3].kosoku_minutes, None);
}

#[test]
fn overtime_adds_up() {
    let mut days = december();
    add_overtime(&mut days, 5, 15);
    add_overtime(&mut days, 5, 10);
    add_overtime(&mut days, 6, -5);
    assert_eq!(days[4].zangyo, Some(25));
    assert_eq!(days[5].zangyo, Some(-5));
    add_overtime(&mut days, 7, i32::MAX);
    add_overtime(&mut days, 7, 1);
    assert_eq!(days[6].zangyo, Some(i32::MAX));
    add_overtime(&mut days, 8, i32::MIN);
    add_overtime(&mut days, 8, -1);
    assert_eq!(days[7].zangyo, Some(i32::MIN));
}

#[test]
fn trips_of_several_days_are_marked() {
    let mut days = december();
    set_remark(&mut days, 11, "公休".to_string());
    mark_trip_days(&mut days, 2025, 12, &date(12, 10), &date(12, 12));
    mark_trip_days(&mut days, 2025, 12, &date(12, 20), &date(12, 20));
    mark_trip_days(&mut days, 2025, 12, &date(12, 25), &date(12, 24));
    mark_trip_days(&mut days, 2025, 12, &date(11, 29), &date(12, 1));
    mark_trip_days(&mut days, 2025, 12, &date(12, 31), &Date { year: 2026, month: 1, day: 2 });
    let away: Vec<u8> = days.iter().filter(|d| d.remarks == "出").map(|d| d.day).collect();
    assert_eq!(away, vec![1, 10, 12, 31]);
    assert_eq!(days[10].remarks, "公休");
}

#[test]
fn trips_that_do_not_count() {
    assert!(counts_as_trip(false, None, 1));
    assert!(counts_as_trip(false, Some("出張"), 1));
    assert!(!counts_as_trip(true, None, 1));
    assert!(!counts_as_trip(false, Some("北海道残業"), 1));
    assert!(!counts_as_trip(false, None, 0));
    assert!(counts_as_trip(false, Some(""), -1));
}

#[test]
fn allowance_days_skip_days_off() {
    let mut days = december();
    mark_allowance_days(&mut days, 2025, 12, &date(12, 3), &date(12, 6), &vec![4, 9], Allowance::Kachiku);
    mark_allowance_days(&mut days, 2025, 12, &date(12, 8), &date(12, 8), &vec![], Allowance::Trailer);
    mark_allowance_days(&mut days, 2025, 12, &date(12, 9), &date(12, 8), &vec![], Allowance::Trailer);
    mark_allowance_days(&mut days, 2025, 12, &date(11, 1), &date(12, 1), &vec![], Allowance::Trailer);
    let kachiku: Vec<u8> = days.iter().filter(|d| d.is_kachiku).map(|d| d.day).collect();
    let trailer: Vec<u8> = days.iter().filter(|d| d.is_trailer).map(|d| d.day).collect();
    assert_eq!(kachiku, vec![3, 5, 6]);
    assert_eq!(trailer, vec![1, 8]);
    assert!(listed(&vec![4, 9], 9));
    assert!(!listed(&vec![4, 9], 5));
}

#[test]
fn marks_stay_within_the_calendar() {
    let mut days = december();
    days.push(DayRecord::new(32, "月"));
    mark_trip_days(&mut days, 2025, 12, &date(12, 30), &Date { year: 2026, month: 1, day: 5 });
    mark_allowance_days(
        &mut days,
        2025,
        12,
        &date(12, 30),
        &Date { year: 2026, month: 1, day: 5 },
        &vec![],
        Allowance::Trailer,
    );
    assert_eq!(days[30].remarks, "出");
    assert_eq!(days[31].remarks, "");
    assert!(days[30].is_trailer && !days[31].is_trailer);
}

#[test]
fn days_before_hiring_and_after_retirement() {
    assert_eq!(hire_retire_counts(2025, 12, None, None), (0, 0));
    assert_eq!(hire_retire_counts(2025, 12, Some(date(12, 1)), None), (0, 0));
    assert_eq!(hire_retire_counts(2025, 12, Some(date(12, 11)), None), (10, 0));
    assert_eq!(hire_retire_counts(2025, 12, Some(date(11, 11)), None), (0, 0));
    assert_eq!(
        hire_retire_counts(2025, 12, Some(Date { year: 2026, month: 3, day: 1 }), None),
        (31, 0)
    );
    assert_eq!(hire_retire_counts(2025, 12, None, Some(date(12, 31))), (0, 0));
    assert_eq!(hire_retire_counts(2025, 12, None, Some(date(12, 20))), (0, 11));
    assert_eq!(hire_retire_counts(2025, 12, None, Some(date(10, 20))), (0, 31));
    assert_eq!(
        hire_retire_counts(2025, 12, None, Some(Date { year: 2026, month: 1, day: 1 })),
        (0, 0)
    );
    assert_eq!(hire_retire_counts(2025, 2, Some(date(2, 15)), Some(date(2, 20))), (14, 8));
}

fn card(id: i32, kyuka: i32) -> MonthlyTimecard {
    let mut summary = TimecardSummary::empty();
    summary.kyuka = kyuka;
    summary.shukkin = 205;
    summary.yukyu = 15;
    summary.kekkin = 1;
    summary.total_zangyo = 125;
    summary.kyushutsu = 20;
    summary.tsuika = 3;
    summary.kachiku = 4;
    summary.trailer = 5;
    summary.chikoku = 6;
    summary.soutai = 7;
    summary.tokukyu = 8;
    MonthlyTimecard {
        driver: Driver {
            id,
            name: format!("D{id}"),
            bumon: None,
            category_c: None,
            eigyosho_c: None,
            kyuyo_shain_id: None,
        },
        year: 2025,
        month: 12,
        days: Vec::new(),
        summary,
    }
}

#[test]
fn allowance_record_of_a_timecard() {
    assert_eq!(
        AllowanceData::from_timecard(&card(7, 9)),
        AllowanceData {
            driver_id: 7,
            shukkin_count: 205,
            dayoff_count: 90,
            paidoff_count: 15,
            absence_count: 10,
            overtime_count: 125,
            holidaywork_count: 20,
            additionalwork_payment: 3,
            kachiku_payment: 4,
            trail_payment: 5,
            chikoku_count: 6,
            soutai_count: 7,
            tokukyu_count: 8,
        }
    );
}

#[test]
fn stored_records_are_brought_up_to_date() {
    let existing = vec![
        AllowanceData::from_timecard(&card(1, 9)),
        AllowanceData::from_timecard(&card(2, 9)),
        AllowanceData::from_timecard(&card(9, 9)),
    ];
    let cards = vec![card(1, 9), card(2, 8), card(3, 9)];
    let plan = plan_sync(&existing, &cards);
    assert_eq!(plan, vec![SyncAction::Unchanged, SyncAction::Update, SyncAction::Insert]);
    assert_eq!(count_actions(&plan), SyncCounts { inserted: 1, updated: 1, unchanged: 1 });
    assert_eq!(plan_sync(&existing, &Vec::new()), Vec::new());
    assert_eq!(
        count_actions(&Vec::new()),
        SyncCounts { inserted: 0, updated: 0, unchanged: 0 }
    );
    assert_eq!(plan_sync(&Vec::new(), &cards), vec![SyncAction::Insert; 3]);
}

#[test]
fn a_subject_is_handled_once() {
    let existing = vec![
        AllowanceData::from_timecard(&card(1, 1)),
        AllowanceData::from_timecard(&card(1, 2)),
    ];
    assert_eq!(find_stored(&existing, 1), Some(AllowanceData::from_timecard(&card(1, 2))));
    assert_eq!(find_stored(&existing, 2), None);
    let cards = vec![card(1, 3), card(1, 2), card(2, 5), card(1, 1)];
    assert_eq!(find_latest(&cards, 1), Some(AllowanceData::from_timecard(&card(1, 1))));
    assert_eq!(
        plan_sync(&existing, &cards),
        vec![SyncAction::Update, SyncAction::Skip, SyncAction::Insert, SyncAction::Skip]
    );
    let same_last = vec![card(1, 3), card(1, 2)];
    assert_eq!(plan_sync(&existing, &same_last), vec![SyncAction::Unchanged, SyncAction::Skip]);
}

#[test]
fn requests_select_timecards() {
    let all = PdfRequest { year: 2025, month: 12, driver_id: None };
    let one = PdfRequest { year: 2025, month: 12, driver_id: Some(2) };
    let none = PdfRequest { year: 2025, month: 12, driver_id: Some(99) };
    let ids = |cards: &Vec<MonthlyTimecard>| cards.iter().map(|c| (c.driver.id, c.summary.kyuka)).collect::<Vec<_>>();
    let cards = || vec![card(1, 0), card(2, 1), card(3, 2), card(2, 3)];
    let mut kept = cards();
    all.select(&mut kept);
    assert_eq!(ids(&kept), vec![(1, 0), (2, 1), (3, 2), (2, 3)]);
    let mut kept = cards();
    one.select(&mut kept);
    assert_eq!(ids(&kept), vec![(2, 1), (2, 3)]);
    let mut kept = cards();
    none.select(&mut kept);
    assert!(kept.is_empty());
    let mut empty: Vec<MonthlyTimecard> = Vec::new();
    one.select(&mut empty);
    assert!(empty.is_empty());
}

#[test]
fn names_of_report_files() {
    let all = PdfRequest { year: 2025, month: 3, driver_id: None };
    let one = PdfRequest { year: 2025, month: 12, driver_id: Some(42) };
    assert_eq!(all.grid_file_name(), "timecard_2025_03.pdf");
    assert_eq!(one.grid_file_name(), "timecard_2025_12_42.pdf");
    assert_eq!(all.calendar_file_name(), "timecard_shukei_2025_03.pdf");
    assert_eq!(one.calendar_file_name(), "timecard_shukei_2025_12.pdf");
}

#[test]
fn answers_to_failed_requests() {
    assert_eq!(ErrorResponse::no_timecards().error, "No timecards found");
    assert_eq!(
        ErrorResponse::failed("DB connection failed", "timeout").error,
        "DB connection failed: timeout"
    );
}

#[test]
fn tachograph_times_replace_punch_times() {
    let mut days = december();
    merge_constraint_times(
        &mut days,
        &vec![(1, 600), (2, 610), (3, 620), (2, 611)],
        &vec![(2, 700), (4, 710), (40, 1)],
    );
    assert_eq!(days[0].kosoku_minutes, Some(600));
    assert_eq!(days[1].kosoku_minutes, Some(700));
    assert_eq!(days[2].kosoku_minutes, Some(620));
    assert_eq!(days[3].kosoku_minutes, Some(710));
    assert_eq!(days[4].kosoku_minutes, None);
    let mut only_punches = december();
    merge_constraint_times(&mut only_punches, &vec![(2, 610), (2, 611)], &Vec::new());
    assert_eq!(only_punches[1].kosoku_minutes, Some(611));
}

#[test]
fn categories_with_an_allowance() {
    assert_eq!(allowance_of_category(Some("家畜車")), Some(Allowance::Kachiku));
    assert_eq!(allowance_of_category(Some("トレーラー")), Some(Allowance::Trailer));
    assert_eq!(allowance_of_category(Some("家畜")), None);
    assert_eq!(allowance_of_category(Some("")), None);
    assert_eq!(allowance_of_category(None), None);
}
