use timecard_pdf::attendance::Allowance;
use timecard_pdf::calendar::month_days;
use timecard_pdf::dates::{parse_date, parse_date_time, Date, DateTime};
use timecard_pdf::digitacho::{Ferry, Mark, MarkKind, Span};
use timecard_pdf::kosoku::{EventKind, TimeEvent};
use timecard_pdf::rows::{
    add_overtime_rows, contains_id, days_of_rows, events_from_rows, ferries_from_rows,
    flag_allowance_rows, hire_retire_from_rows, mark_direct_trip_rows, mark_period_rows,
    mark_trip_rows, marks_from_rows, record_inject_rows, record_punch_rows, set_remark_rows,
    spans_from_rows, TripRow,
};
use timecard_pdf::timecard_data::DayRecord;

fn s(text: &str) -> String {
    text.to_string()
}

fn at(day: u32, hour: u32, minute: u32, second: u32) -> DateTime {
    DateTime { date: Date { year: 2025, month: 12, day }, hour, minute, second, nanosecond: 0 }
}

fn december() -> Vec<DayRecord> {
    month_days(2025, 12)
}

#[test]
fn dates_are_read() {
    assert_eq!(parse_date("2025-12-05"), Some(Date { year: 2025, month: 12, day: 5 }));
    assert_eq!(parse_date("2024-02-29"), Some(Date { year: 2024, month: 2, day: 29 }));
    assert_eq!(parse_date("2025-02-29"), None);
    assert_eq!(parse_date("2025-13-01"), None);
    assert_eq!(parse_date("2025/12/05"), None);
    assert_eq!(parse_date(""), None);
    assert_eq!(parse_date("2025-12-05 08:00:00"), None);
}

#[test]
fn times_are_read() {
    assert_eq!(parse_date_time("2025-12-05 08:30:59"), Some(at(5, 8, 30, 59)));
    assert_eq!(parse_date_time("2025-12-05 00:00:00"), Some(at(5, 0, 0, 0)));
    assert_eq!(parse_date_time("2025-12-05 24:00:00"), None);
    assert_eq!(parse_date_time("2025-12-05 08:60:00"), None);
    assert_eq!(parse_date_time("2025-12-32 08:00:00"), None);
    assert_eq!(parse_date_time("2025-12-05"), None);
    assert_eq!(parse_date_time("yesterday"), None);
    let leap = parse_date_time("2025-12-05 23:59:60").unwrap();
    assert!(leap.is_valid());
    assert_eq!(leap, DateTime { nanosecond: 1_000_000_000, ..at(5, 23, 59, 59) });
}

#[test]
fn punch_rows_are_entered() {
    let mut days = december();
    record_punch_rows(
        &mut days,
        &vec![
            (s("2025-12-05 08:01:30"), 30),
            (s("not a time"), 30),
            (s("2025-12-05 17:45:00"), 31),
            (s("2025-12-06 09:00:00"), 30),
            (s("2025-12-06 09:30:00"), 99),
        ],
    );
    assert_eq!(days[4].clock_in, vec!["08:01"]);
    assert_eq!(days[4].clock_out, vec!["17:45"]);
    assert_eq!(days[5].clock_in, vec!["09:00"]);
    assert!(days[5].clock_out.is_empty());
    record_inject_rows(&mut days, &vec![s("2025-12-06 18:00:00"), s("?"), s("2025-12-07 07:00:00")]);
    assert_eq!(days[5].clock_out, vec!["18:00"]);
    assert_eq!(days[6].clock_in, vec!["07:00"]);
}

#[test]
fn remark_and_overtime_rows_are_entered() {
    let mut days = december();
    set_remark_rows(
        &mut days,
        &vec![(s("2025-12-01"), s("公休")), (s("12/02"), s("有休")), (s("2025-12-03"), s("特休"))],
    );
    assert_eq!(days[0].remarks, "公休");
    assert_eq!(days[1].remarks, "");
    assert_eq!(days[2].remarks, "特休");
    add_overtime_rows(
        &mut days,
        &vec![(s("2025-12-01"), 15), (s("2025-12-01"), 10), (s("x"), 99), (s("2025-12-31"), 5)],
    );
    assert_eq!(days[0].zangyo, Some(25));
    assert_eq!(days[30].zangyo, Some(5));
    assert_eq!(days[1].zangyo, None);
}

#[test]
fn trip_rows_are_marked() {
    let mut days = december();
    mark_trip_rows(
        &mut days,
        2025,
        12,
        &vec![
            (s("2025-12-02"), s("2025-12-03")),
            (s("2025-12-05"), s("never")),
            (s("2025-12-07"), s("2025-12-07")),
        ],
    );
    let rows = vec![
        TripRow { id: s("A"), start: s("2025-12-10"), end: s("2025-12-11"), purpose: None, shown: 1 },
        TripRow { id: s("B"), start: s("2025-12-12"), end: s("2025-12-13"), purpose: None, shown: 1 },
        TripRow {
            id: s("C"),
            start: s("2025-12-14"),
            end: s("2025-12-15"),
            purpose: Some(s("北海道残業")),
            shown: 1,
        },
        TripRow { id: s("D"), start: s("2025-12-16"), end: s("2025-12-17"), purpose: None, shown: 0 },
        TripRow {
            id: s("E"),
            start: s("2025-12-18"),
            end: s("2025-12-19"),
            purpose: Some(s("出張")),
            shown: 2,
        },
    ];
    mark_direct_trip_rows(&mut days, 2025, 12, &rows, &vec![s("B"), s("Z")]);
    let away: Vec<u8> = days.iter().filter(|d| d.remarks == "出").map(|d| d.day).collect();
    assert_eq!(away, vec![2, 3, 10, 11, 18, 19]);
    assert!(contains_id(&vec![s("B"), s("Z")], "Z"));
    assert!(!contains_id(&vec![s("B"), s("Z")], "b"));
    assert!(!contains_id(&Vec::new(), ""));
}

#[test]
fn allowance_rows_are_marked() {
    let mut days = december();
    let off = days_of_rows(&vec![s("2025-12-04"), s("bad"), s("2025-12-09")]);
    assert_eq!(off, vec![4, 9]);
    mark_period_rows(
        &mut days,
        2025,
        12,
        &vec![(s("2025-12-03"), s("2025-12-05")), (s("2025-12-08"), s("?")), (s("2025-11-28"), s("2025-12-01"))],
        &off,
        Allowance::Trailer,
    );
    flag_allowance_rows(&mut days, &vec![s("2025-12-04"), s(""), s("2025-12-20")], Allowance::Kachiku);
    let trailer: Vec<u8> = days.iter().filter(|d| d.is_trailer).map(|d| d.day).collect();
    let kachiku: Vec<u8> = days.iter().filter(|d| d.is_kachiku).map(|d| d.day).collect();
    assert_eq!(trailer, vec![1, 3, 5]);
    assert_eq!(kachiku, vec![4, 20]);
}

#[test]
fn punches_are_read_from_rows() {
    assert_eq!(
        events_from_rows(&vec![
            (s("2025-12-05 08:00:00"), s("始業")),
            (s("2025-12-05 08:00"), s("終業")),
            (s("2025-12-05 17:00:30"), s("終業")),
            (s("2025-12-05 18:00:00"), s("?")),
        ]),
        vec![
            TimeEvent { at: at(5, 8, 0, 0), kind: EventKind::Start },
            TimeEvent { at: at(5, 17, 0, 30), kind: EventKind::End },
            TimeEvent { at: at(5, 18, 0, 0), kind: EventKind::Other },
        ]
    );
}

#[test]
fn tachograph_rows_must_all_be_readable() {
    assert_eq!(
        spans_from_rows(&vec![(s("2025-12-05 08:00:00"), s("2025-12-05 09:00:00"), 60)]),
        Some(vec![Span { start: at(5, 8, 0, 0), end: at(5, 9, 0, 0), minutes: 60 }])
    );
    assert_eq!(
        spans_from_rows(&vec![
            (s("2025-12-05 08:00:00"), s("2025-12-05 09:00:00"), 60),
            (s("2025-12-05 08:00:00"), s("later"), 60),
        ]),
        None
    );
    assert_eq!(spans_from_rows(&Vec::new()), Some(Vec::new()));
    assert_eq!(
        marks_from_rows(&vec![
            (s("2025-12-05 08:00:00"), s("運行開始"), None),
            (s("2025-12-05 09:00:00"), s("休息"), Some(20)),
        ]),
        Some(vec![
            Mark { at: at(5, 8, 0, 0), kind: MarkKind::Opens },
            Mark { at: at(5, 9, 0, 0), kind: MarkKind::Closes },
        ])
    );
    assert_eq!(marks_from_rows(&vec![(s(""), s("運行開始"), None)]), None);
    assert_eq!(
        ferries_from_rows(&vec![(s("2025-12-05 08:00:00"), s("2025-12-05 10:00:00"))]),
        Some(vec![Ferry { start: at(5, 8, 0, 0), end: at(5, 10, 0, 0) }])
    );
    assert_eq!(ferries_from_rows(&vec![(s("2025-12-05 08:00:00"), s("2025-12-05"))]), None);
}

#[test]
fn hiring_and_retirement_are_read_from_rows() {
    assert_eq!(hire_retire_from_rows(2025, 12, None, None), (0, 0));
    assert_eq!(hire_retire_from_rows(2025, 12, Some("2025-12-11"), Some("2025-12-20")), (10, 11));
    assert_eq!(hire_retire_from_rows(2025, 12, Some("soon"), Some("2025-12-20")), (0, 11));
    assert_eq!(hire_retire_from_rows(2025, 12, Some("2025-12-11"), Some("")), (10, 0));
}
