use timecard_pdf::layouts::{calendar_entry, calendar_row, category_row, check_cards};
use timecard_pdf::links::LinkError;
use timecard_pdf::tables::{day_list_heading_row, day_row, format_count, shown_text, TableCell};
use timecard_pdf::tcpdf_compat::{Color, DrawOp, LinkInfo, PlacedOp, TcpdfCompat};
use timecard_pdf::timecard_data::{DayRecord, Driver, MonthlyTimecard, TimecardSummary};

fn driver(id: i32, name: &str) -> Driver {
    Driver {
        id,
        name: name.to_string(),
        bumon: None,
        category_c: None,
        eigyosho_c: None,
        kyuyo_shain_id: None,
    }
}

fn card(id: i32, name: &str, days: Vec<DayRecord>) -> MonthlyTimecard {
    let mut c = MonthlyTimecard {
        driver: driver(id, name),
        year: 2025,
        month: 12,
        days,
        summary: TimecardSummary::empty(),
    };
    c.calculate_summary();
    c
}

fn monday() -> DayRecord {
    DayRecord::new(1, "月")
}

fn a4() -> TcpdfCompat {
    TcpdfCompat::new(297_000, 210_000, "L")
}

const GRAY: Color = Color { r: 220, g: 220, b: 220 };
const BLACK: Color = Color { r: 0, g: 0, b: 0 };

fn texts(pdf: &TcpdfCompat) -> Vec<String> {
    pdf.ops
        .iter()
        .filter_map(|o| match &o.op {
            DrawOp::Text { text, .. } => Some(text.clone()),
            _ => None,
        })
        .collect()
}

#[test]
fn grid_of_nothing_draws_nothing() {
    let mut pdf = a4();
    pdf.render_timecards(&Vec::new());
    assert_eq!(pdf.page_count, 0);
    assert!(pdf.ops.is_empty());
    assert!(pdf.links.is_empty());
}

#[test]
fn grid_starts_a_page_with_two_dividers() {
    let mut pdf = a4();
    pdf.render_timecards(&vec![card(42, "山田", vec![monday()])]);
    assert_eq!(pdf.page_count, 1);
    assert_eq!(
        pdf.ops[0],
        PlacedOp { page: 1, op: DrawOp::Line { x1: 99_000, y1: 210_000, x2: 99_000, y2: 0 } }
    );
    assert_eq!(
        pdf.ops[1],
        PlacedOp { page: 1, op: DrawOp::Line { x1: 198_000, y1: 210_000, x2: 198_000, y2: 0 } }
    );
}

#[test]
fn grid_heading_names_the_subject_and_the_month() {
    let mut pdf = a4();
    pdf.render_timecards(&vec![card(42, "山田", vec![monday()])]);
    assert_eq!(
        pdf.ops[2].op,
        DrawOp::Text { x: 2_500, y: 201_442, size: 10_000, text: "山田".to_string(), color: BLACK }
    );
    assert_eq!(
        pdf.ops[3].op,
        DrawOp::Text { x: 78_861, y: 201_442, size: 10_000, text: "2025年12月".to_string(), color: BLACK }
    );
    assert_eq!(
        pdf.links,
        vec![LinkInfo {
            page: 1,
            x: 2_000,
            y: 5_000,
            w: 60_000,
            h: 5_000,
            url: "/timecard/detail?driver_id=42&year=2025&month=12".to_string(),
        }]
    );
}

#[test]
fn grid_day_list_has_nine_columns() {
    let mut pdf = a4();
    pdf.render_timecards(&vec![card(42, "山田", vec![monday()])]);
    assert_eq!(
        pdf.ops[4].op,
        DrawOp::Text { x: 3_736, y: 196_442, size: 10_000, text: "日".to_string(), color: BLACK }
    );
    assert_eq!(
        pdf.ops[5].op,
        DrawOp::StrokeRect { left: 2_000, top: 200_000, right: 9_000, bottom: 195_000, thickness: 200 }
    );
    assert_eq!(
        pdf.ops[21].op,
        DrawOp::StrokeRect { left: 85_000, top: 200_000, right: 97_000, bottom: 195_000, thickness: 200 }
    );
    // two dividers, two heading texts, 18 for the list heading, 11 for the day, 40 for the summary
    assert_eq!(pdf.ops.len(), 73);
    let labels: Vec<String> = texts(&pdf).into_iter().skip(2).take(9).collect();
    assert_eq!(labels, vec!["日", "曜", "出勤", "退社", "出勤", "退社", "残業", "備考", "拘束"]);
}

#[test]
fn grid_day_row_shows_the_day() {
    let mut d = DayRecord::new(3, "水");
    d.clock_in = vec!["08:00".to_string(), "13:00".to_string()];
    d.clock_out = vec!["12:00".to_string()];
    d.remarks = "出".to_string();
    d.zangyo = Some(15);
    d.tsuika_count = 1;
    d.kosoku_minutes = Some(600);
    let row = day_row(&d);
    let shown: Vec<(i64, &str, bool)> =
        row.iter().map(|c| (c.width, c.text.as_str(), c.shaded)).collect();
    assert_eq!(
        shown,
        vec![
            (7_000, "3", false),
            (7_000, "水", false),
            (11_000, "08:00", false),
            (11_000, "12:00", false),
            (11_000, "13:00", false),
            (11_000, "", false),
            (10_000, "1.5〇", false),
            (15_000, "出", false),
            (12_000, "10:00", false),
        ]
    );
    assert_eq!(row.iter().map(|c| c.width).sum::<i64>(), 95_000);
    assert_eq!(day_list_heading_row().iter().map(|c| c.width).sum::<i64>(), 95_000);
}

#[test]
fn sundays_and_long_days_are_shaded() {
    let sunday = DayRecord::new(7, "日");
    assert!(day_row(&sunday).iter().all(|c| c.shaded));
    let mut long = DayRecord::new(8, "月");
    long.kosoku_minutes = Some(841);
    let row = day_row(&long);
    assert!(row[..8].iter().all(|c| !c.shaded));
    assert!(row[8].shaded);
    long.kosoku_minutes = Some(840);
    assert!(day_row(&long).iter().all(|c| !c.shaded));
}

#[test]
fn shaded_cell_is_filled_before_its_text_and_outline() {
    let mut pdf = a4();
    pdf.handle_add_page();
    pdf.table_cell(10_000, 16_000, 8_000, 5_000, "日", true);
    assert_eq!(
        pdf.ops,
        vec![
            PlacedOp {
                page: 1,
                op: DrawOp::FillRect {
                    left: 10_000,
                    top: 195_000,
                    right: 18_000,
                    bottom: 190_000,
                    color: GRAY,
                },
            },
            PlacedOp {
                page: 1,
                op: DrawOp::Text { x: 12_236, y: 191_442, size: 10_000, text: "日".to_string(), color: BLACK },
            },
            PlacedOp {
                page: 1,
                op: DrawOp::StrokeRect { left: 10_000, top: 195_000, right: 18_000, bottom: 190_000, thickness: 200 },
            },
        ]
    );
    assert_eq!(pdf.fill_color, Color { r: 0, g: 0, b: 0 });
}

#[test]
fn row_places_cells_side_by_side() {
    let mut pdf = a4();
    pdf.handle_add_page();
    let cells = vec![
        TableCell { width: 7_000, text: "a".to_string(), shaded: false },
        TableCell { width: 11_000, text: "".to_string(), shaded: false },
        TableCell { width: 5_000, text: "b".to_string(), shaded: true },
    ];
    pdf.draw_row(2_000, 10_000, 5_000, &cells);
    let rects: Vec<(i64, i64)> = pdf
        .ops
        .iter()
        .filter_map(|o| match o.op {
            DrawOp::StrokeRect { left, right, .. } => Some((left, right)),
            _ => None,
        })
        .collect();
    assert_eq!(rects, vec![(2_000, 9_000), (9_000, 20_000), (20_000, 25_000)]);
    assert_eq!(pdf.ops.len(), 2 + 1 + 3);
    assert_eq!(format_count(0), "");
    assert_eq!(format_count(-3), "-3");
    assert_eq!(shown_text(" "), None);
    assert_eq!(shown_text("x"), Some("x".to_string()));
}

#[test]
fn grid_puts_three_subjects_on_a_page() {
    let cards: Vec<MonthlyTimecard> =
        (1..=7).map(|i| card(i, &format!("S{i}"), vec![monday()])).collect();
    let mut pdf = a4();
    pdf.render_timecards(&cards);
    assert_eq!(pdf.page_count, 3);
    let pages: Vec<u32> = pdf.links.iter().map(|l| l.page).collect();
    assert_eq!(pages, vec![1, 1, 1, 2, 2, 2, 3]);
    let xs: Vec<i32> = pdf.links.iter().map(|l| l.x).collect();
    assert_eq!(xs, vec![2_000, 101_000, 200_000, 2_000, 101_000, 200_000, 2_000]);
    let dividers = pdf.ops.iter().filter(|o| matches!(o.op, DrawOp::Line { .. })).count();
    assert_eq!(dividers, 6);
    assert_eq!(pdf.ops.len(), 7 * 71 + 6);
    assert!(pdf.ops.windows(2).all(|w| w[0].page <= w[1].page));
    assert!(pdf.ops.iter().all(|o| 1 <= o.page && o.page <= 3));
    assert_eq!(pdf.link_annotations().unwrap().len(), 7);
}

#[test]
fn grid_summary_shows_the_counters() {
    let mut days: Vec<DayRecord> = (1..=30u8).map(|n| DayRecord::new(n, "月")).collect();
    days[0].remarks = "公休".to_string();
    days[1].remarks = "有休".to_string();
    days[2].remarks = "前休".to_string();
    days[3].zangyo = Some(25);
    days[3].kosoku_minutes = Some(725);
    days[4].is_trailer = true;
    let mut c = card(1, "A", days);
    c.calculate_summary_with_kiso(22, 0, 0);
    let mut pdf = a4();
    pdf.render_timecards(&vec![c]);
    let all = texts(&pdf);
    let tail: Vec<&str> = all[all.len() - 20..].iter().map(|s| s.as_str()).collect();
    assert_eq!(
        tail,
        vec![
            "出勤", "公休", "有休", "欠勤", "遅刻", "早退", "特休", "休出", "20.5", "1", "1.5", "7",
            "残業", "拘束", "牽引", "家畜", "追加", "2.5", "12:05", "1",
        ]
    );
}

#[test]
fn grid_twice_gives_the_same_instructions() {
    let mut d = DayRecord::new(7, "日");
    d.clock_in = vec!["08:00".to_string()];
    let cards = vec![card(1, "A", vec![monday(), d.clone()]), card(2, "B", vec![d])];
    let copies: Vec<MonthlyTimecard> = cards.iter().map(|c| c.clone()).collect();
    let mut first = a4();
    first.render_timecards(&cards);
    let mut second = a4();
    second.render_timecards(&copies);
    assert_eq!(first.ops, second.ops);
    assert_eq!(first.links, second.links);
    assert_eq!(first.link_annotations(), second.link_annotations());
}

#[test]
fn calendar_puts_one_subject_on_a_page() {
    let cards: Vec<MonthlyTimecard> =
        (1..=3).map(|i| card(i, &format!("S{i}"), vec![monday()])).collect();
    let mut pdf = a4();
    pdf.render_timecards_shukei(&cards);
    assert_eq!(pdf.page_count, 3);
    let pages: Vec<u32> = pdf.links.iter().map(|l| l.page).collect();
    assert_eq!(pages, vec![1, 2, 3]);
    assert_eq!(pdf.ops.len(), 3 * 92);
    assert!(pdf.ops.iter().all(|o| !matches!(o.op, DrawOp::Line { .. })));
    assert_eq!(pdf.links[0].x, 10_000);
    assert_eq!(pdf.links[2].url, "/timecard/detail?driver_id=3&year=2025&month=12");
}

#[test]
fn calendar_rows_show_the_days_from_left_to_right() {
    let mut days: Vec<DayRecord> = vec![DayRecord::new(6, "土"), DayRecord::new(7, "日")];
    days[0].clock_in = vec!["08:00".to_string()];
    days[0].clock_out = vec!["17:00".to_string()];
    days[0].has_digitacho = true;
    days[0].is_kachiku = true;
    days[0].zangyo = Some(10);
    days[1].remarks = "公休".to_string();
    for (row, expected) in
        [["土", "日"], ["6", "7"], ["[]", "X"], ["畜", ""], ["1", ""]].iter().enumerate()
    {
        let cells = calendar_row(&days, row as u8);
        let shown: Vec<&str> = cells.iter().map(|c| c.text.as_str()).collect();
        assert_eq!(shown, expected.to_vec());
        assert!(cells.iter().all(|c| c.width == 8_000));
        assert_eq!(cells.iter().map(|c| c.shaded).collect::<Vec<bool>>(), vec![false, true]);
    }
    assert_eq!(calendar_entry(&days[0], 200), "1");
    let mut pdf = a4();
    pdf.handle_add_page();
    pdf.draw_calendar(&days);
    assert_eq!(
        pdf.ops[1].op,
        DrawOp::StrokeRect { left: 10_000, top: 195_000, right: 18_000, bottom: 190_000, thickness: 200 }
    );
    assert_eq!(
        pdf.ops.last().unwrap().op,
        DrawOp::StrokeRect { left: 18_000, top: 175_000, right: 26_000, bottom: 170_000, thickness: 200 }
    );
}

#[test]
fn unclassified_days_are_highlighted() {
    let mut worked = monday();
    worked.clock_in = vec!["08:00".to_string()];
    let mut leave = monday();
    leave.remarks = "公休".to_string();
    let clean = category_row(&vec![worked.clone(), leave.clone()]);
    let shown: Vec<(&str, bool)> = clean.iter().map(|c| (c.text.as_str(), c.shaded)).collect();
    assert_eq!(shown, vec![("1", false), ("", false), ("1", false), ("", false)]);
    let odd = category_row(&vec![worked, leave, monday(), monday()]);
    let shown: Vec<(&str, bool)> = odd.iter().map(|c| (c.text.as_str(), c.shaded)).collect();
    assert_eq!(shown, vec![("1", false), ("", false), ("1", false), ("2", true)]);
}

#[test]
fn calendar_twice_gives_the_same_instructions() {
    let cards = vec![card(1, "A", vec![monday(), DayRecord::new(7, "日")])];
    let mut first = a4();
    first.render_timecards_shukei(&cards);
    let mut second = a4();
    second.render_timecards_shukei(&cards);
    assert_eq!(first.ops, second.ops);
    assert_eq!(first.links, second.links);
}

#[test]
fn months_have_at_most_thirty_one_days() {
    let full: Vec<DayRecord> = (1..=31u8).map(|n| DayRecord::new(n, "月")).collect();
    let mut over = full.clone();
    over.push(DayRecord::new(32, "月"));
    assert!(check_cards(&Vec::new()));
    assert!(check_cards(&vec![card(1, "A", full.clone())]));
    let mut bad = card(2, "B", Vec::new());
    bad.days = over;
    assert!(!check_cards(&vec![card(1, "A", full), bad]));
}

#[test]
fn full_month_fits_on_the_page() {
    let full: Vec<DayRecord> = (1..=31u8).map(|n| DayRecord::new(n, "月")).collect();
    let mut pdf = a4();
    pdf.render_timecards(&vec![card(1, "A", full.clone())]);
    let lowest = pdf
        .ops
        .iter()
        .filter_map(|o| match o.op {
            DrawOp::StrokeRect { bottom, .. } => Some(bottom),
            _ => None,
        })
        .min()
        .unwrap();
    assert_eq!(lowest, 210_000 - 195_000);
    let mut calendar = a4();
    calendar.render_timecards_shukei(&vec![card(1, "A", full)]);
    let (lowest, rightmost) = calendar.ops.iter().fold((i64::MAX, i64::MIN), |acc, o| match o.op {
        DrawOp::StrokeRect { bottom, right, .. } => (acc.0.min(bottom), acc.1.max(right)),
        _ => acc,
    });
    assert_eq!(lowest, 210_000 - 205_000);
    assert_eq!(rightmost, 10_000 + 31 * 8_000);
}

#[test]
fn links_of_a_report_can_always_be_attached() {
    let cards: Vec<MonthlyTimecard> = (1..=4).map(|i| card(i, "A", vec![monday()])).collect();
    let mut pdf = a4();
    pdf.render_timecards(&cards);
    pdf.render_timecards_shukei(&cards);
    assert_eq!(pdf.page_count, 6);
    let plan = pdf.link_annotations().unwrap();
    assert_eq!(plan.iter().map(|a| a.page).collect::<Vec<u32>>(), vec![1, 1, 1, 2, 3, 4, 5, 6]);
    pdf.links[0].page = 7;
    assert_eq!(
        pdf.link_annotations(),
        Err(LinkError::PageOutOfRange { index: 0, page: 7, page_count: 6 })
    );
}
