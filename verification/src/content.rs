//! What a layout depends on, and what it keeps true.
//!
//! A layout reads a report by content only: two reports that say the same
//! give the same drawing instructions and the same hyperlinks, wherever
//! their strings are stored. And whatever a layout draws lies on a page
//! that exists.

use vstd::prelude::*;
use crate::coords::{snap_down, Align};
use crate::layouts::{
    band_width,
    category_heading,
    detail_url_text,
    with_dividers,
    BAND_INSET,
    CALENDAR_LIST_Y,
    CALENDAR_ROWS,
    CALENDAR_SIDE_X,
    CALENDAR_X,
    CALENDAR_Y,
    CATEGORY_Y,
    GRID_LIST_Y,
    GRID_SUMMARY_Y,
    HEADING_Y,
    NAME_WIDTH,
    PERIOD_WIDTH,
    calendar_cells,
    calendar_text,
    category_cells,
    lemma_calendar_subject_frame,
    lemma_grid_subject_frame,
    with_calendar_rows,
    with_calendar_subject,
    with_grid_subject,
    with_heading,
    with_timecards,
    with_timecards_shukei,
};
use crate::symbols::{category_count, category_of, DayCategory};
use crate::tables::{
    allowance_cells,
    allowance_heading,
    attendance_cells,
    attendance_heading,
    day_cells,
    day_list_heading,
    gray,
    total_width,
    with_day_list,
    with_day_rows,
    with_row,
    with_summary,
    CellView,
    ROW_HEIGHT,
};
use crate::tcpdf_compat::{
    consistent,
    emit,
    lemma_cell_consistent,
    lemma_cell_frame,
    lemma_emit_consistent,
    line_path,
    with_cell,
    with_fill_color,
    with_link,
    with_page,
    DocView,
};
use crate::text::shown;
use crate::timecard_data::{year_month_text, DayRecord, MonthlyTimecard, TimecardSummary};
use crate::units::{clamp, TABLE_GRID};

verus! {

/// Whether two lists of strings say the same.
pub open spec fn same_strings(a: Seq<String>, b: Seq<String>) -> bool {
    &&& a.len() == b.len()
    &&& forall|i: int| 0 <= i < a.len() ==> (#[trigger] a[i])@ == b[i]@
}

/// Whether two records say the same of a day.
pub open spec fn same_day(a: DayRecord, b: DayRecord) -> bool {
    &&& a.day == b.day
    &&& a.weekday@ == b.weekday@
    &&& same_strings(a.clock_in@, b.clock_in@)
    &&& same_strings(a.clock_out@, b.clock_out@)
    &&& a.remarks@ == b.remarks@
    &&& a.is_sunday == b.is_sunday
    &&& a.kosoku_minutes == b.kosoku_minutes
    &&& a.zangyo == b.zangyo
    &&& a.is_kachiku == b.is_kachiku
    &&& a.is_trailer == b.is_trailer
    &&& a.has_digitacho == b.has_digitacho
    &&& a.has_daily_report == b.has_daily_report
    &&& a.tsuika_count == b.tsuika_count
}

/// Whether two lists of records say the same of the days of a month.
pub open spec fn same_days(a: Seq<DayRecord>, b: Seq<DayRecord>) -> bool {
    &&& a.len() == b.len()
    &&& forall|i: int| 0 <= i < a.len() ==> same_day(#[trigger] a[i], b[i])
}

/// Whether two timecards say the same of a subject's month.
pub open spec fn same_card(a: MonthlyTimecard, b: MonthlyTimecard) -> bool {
    &&& a.driver.id == b.driver.id
    &&& a.driver.name@ == b.driver.name@
    &&& a.year == b.year
    &&& a.month == b.month
    &&& same_days(a.days@, b.days@)
    &&& a.summary == b.summary
}

/// Whether two reports say the same.
pub open spec fn same_cards(a: Seq<MonthlyTimecard>, b: Seq<MonthlyTimecard>) -> bool {
    &&& a.len() == b.len()
    &&& forall|i: int| 0 <= i < a.len() ==> same_card(#[trigger] a[i], b[i])
}

/// Whether every hyperlink of a state names a page that exists.
pub open spec fn links_placed(s: DocView) -> bool {
    forall|i: int| 0 <= i < s.links.len() ==> 1 <= (#[trigger] s.links[i]).page <= s.page_count
}

/// Records that say the same of a day give the same row of the day list,
/// the same calendar entries and the same category.
pub proof fn lemma_same_day(a: DayRecord, b: DayRecord)
    requires
        same_day(a, b),
    ensures
        day_cells(a) == day_cells(b),
        forall|row: int| calendar_text(a, row) == calendar_text(b, row),
        category_of(a) == category_of(b),
{
    assert(day_cells(a) =~= day_cells(b));
}

/// Lists that say the same of the days of a month give the same rows of
/// the day list.
pub proof fn lemma_same_day_rows(s: DocView, x: int, y: int, a: Seq<DayRecord>, b: Seq<DayRecord>)
    requires
        same_days(a, b),
    ensures
        with_day_rows(s, x, y, a) == with_day_rows(s, x, y, b),
    decreases a.len(),
{
    if a.len() > 0 {
        assert(same_days(a.drop_last(), b.drop_last())) by {
            assert forall|i: int| 0 <= i < a.drop_last().len() implies same_day(
                #[trigger] a.drop_last()[i],
                b.drop_last()[i],
            ) by {
                assert(same_day(a[i], b[i]));
            }
        }
        lemma_same_day_rows(s, x, y, a.drop_last(), b.drop_last());
        assert(same_day(a[a.len() - 1], b[b.len() - 1]));
        lemma_same_day(a.last(), b.last());
    }
}

/// Lists that say the same of the days of a month count the same number
/// of days in every category.
pub proof fn lemma_same_category_count(a: Seq<DayRecord>, b: Seq<DayRecord>, c: DayCategory)
    requires
        same_days(a, b),
    ensures
        category_count(a, c) == category_count(b, c),
    decreases a.len(),
{
    if a.len() > 0 {
        assert(same_days(a.drop_last(), b.drop_last())) by {
            assert forall|i: int| 0 <= i < a.drop_last().len() implies same_day(
                #[trigger] a.drop_last()[i],
                b.drop_last()[i],
            ) by {
                assert(same_day(a[i], b[i]));
            }
        }
        lemma_same_category_count(a.drop_last(), b.drop_last(), c);
        assert(same_day(a[a.len() - 1], b[b.len() - 1]));
        lemma_same_day(a.last(), b.last());
    }
}

/// Lists that say the same of the days of a month give the same calendar.
pub proof fn lemma_same_calendar(s: DocView, a: Seq<DayRecord>, b: Seq<DayRecord>, rows: int)
    requires
        same_days(a, b),
    ensures
        with_calendar_rows(s, a, rows) == with_calendar_rows(s, b, rows),
    decreases rows,
{
    if rows > 0 {
        lemma_same_calendar(s, a, b, rows - 1);
        assert(calendar_cells(a, rows - 1) =~= calendar_cells(b, rows - 1)) by {
            assert forall|i: int| 0 <= i < a.len() implies (#[trigger] calendar_cells(
                a,
                rows - 1,
            )[i]) == calendar_cells(b, rows - 1)[i] by {
                assert(same_day(a[i], b[i]));
                lemma_same_day(a[i], b[i]);
            }
        }
    }
}

/// Timecards that say the same are drawn alike in the grid.
pub proof fn lemma_same_grid_subject(s: DocView, index: int, a: MonthlyTimecard, b: MonthlyTimecard)
    requires
        same_card(a, b),
    ensures
        with_grid_subject(s, index, a) == with_grid_subject(s, index, b),
{
    reveal(with_grid_subject);
    let paged = if index % 3 == 0 {
        with_dividers(with_page(s))
    } else {
        s
    };
    let x = (index % 3) * band_width(s.page_width) + BAND_INSET;
    assert(with_heading(paged, x, a) == with_heading(paged, x, b));
    let headed = with_heading(paged, x, a);
    let y = GRID_LIST_Y as int;
    let h = ROW_HEIGHT as int;
    lemma_same_day_rows(
        with_row(headed, x, y, h, day_list_heading()),
        x,
        y + h,
        a.days@,
        b.days@,
    );
}

/// Timecards that say the same are drawn alike as calendars.
pub proof fn lemma_same_calendar_subject(s: DocView, a: MonthlyTimecard, b: MonthlyTimecard)
    requires
        same_card(a, b),
    ensures
        with_calendar_subject(s, a) == with_calendar_subject(s, b),
{
    reveal(with_calendar_subject);
    let x = CALENDAR_X as int;
    let paged = with_page(s);
    assert(with_heading(paged, x, a) == with_heading(paged, x, b));
    let headed = with_heading(paged, x, a);
    let rows = CALENDAR_ROWS as int;
    lemma_same_calendar(headed, a.days@, b.days@, rows);
    let stripped = with_calendar_rows(headed, a.days@, rows);
    let y = CALENDAR_LIST_Y as int;
    let h = ROW_HEIGHT as int;
    lemma_same_day_rows(
        with_row(stripped, x, y, h, day_list_heading()),
        x,
        y + h,
        a.days@,
        b.days@,
    );
    lemma_same_category_count(a.days@, b.days@, DayCategory::Worked);
    lemma_same_category_count(a.days@, b.days@, DayCategory::Administrative);
    lemma_same_category_count(a.days@, b.days@, DayCategory::Leave);
    assert(category_cells(a.days@) =~= category_cells(b.days@));
}

/// Rendering is a function of what the report says: from the same state,
/// reports that say the same give the same drawing instructions and the
/// same hyperlinks in the grid.
pub proof fn lemma_grid_reads_content(
    s: DocView,
    a: Seq<MonthlyTimecard>,
    b: Seq<MonthlyTimecard>,
)
    requires
        same_cards(a, b),
    ensures
        with_timecards(s, a) == with_timecards(s, b),
    decreases a.len(),
{
    if a.len() > 0 {
        assert(same_cards(a.drop_last(), b.drop_last())) by {
            assert forall|i: int| 0 <= i < a.drop_last().len() implies same_card(
                #[trigger] a.drop_last()[i],
                b.drop_last()[i],
            ) by {
                assert(same_card(a[i], b[i]));
            }
        }
        lemma_grid_reads_content(s, a.drop_last(), b.drop_last());
        assert(same_card(a[a.len() - 1], b[b.len() - 1]));
        lemma_same_grid_subject(with_timecards(s, a.drop_last()), a.len() - 1, a.last(), b.last());
    }
}

/// Rendering is a function of what the report says: from the same state,
/// reports that say the same give the same drawing instructions and the
/// same hyperlinks as calendars.
pub proof fn lemma_calendar_reads_content(
    s: DocView,
    a: Seq<MonthlyTimecard>,
    b: Seq<MonthlyTimecard>,
)
    requires
        same_cards(a, b),
    ensures
        with_timecards_shukei(s, a) == with_timecards_shukei(s, b),
    decreases a.len(),
{
    if a.len() > 0 {
        assert(same_cards(a.drop_last(), b.drop_last())) by {
            assert forall|i: int| 0 <= i < a.drop_last().len() implies same_card(
                #[trigger] a.drop_last()[i],
                b.drop_last()[i],
            ) by {
                assert(same_card(a[i], b[i]));
            }
        }
        lemma_calendar_reads_content(s, a.drop_last(), b.drop_last());
        assert(same_card(a[a.len() - 1], b[b.len() - 1]));
        lemma_same_calendar_subject(with_timecards_shukei(s, a.drop_last()), a.last(), b.last());
    }
}

/// Every hyperlink that the grid records names a page that exists: the
/// page its subject is drawn on.
pub proof fn lemma_grid_links_placed(s: DocView, cards: Seq<MonthlyTimecard>)
    requires
        links_placed(s),
        s.page_count >= 0,
    ensures
        links_placed(with_timecards(s, cards)),
        with_timecards(s, cards).page_count >= s.page_count,
        with_timecards(s, cards).links.len() == s.links.len() + cards.len(),
    decreases cards.len(),
{
    if cards.len() > 0 {
        let before = with_timecards(s, cards.drop_last());
        lemma_grid_links_placed(s, cards.drop_last());
        lemma_grid_subject_frame(before, cards.len() - 1, cards.last());
        let after = with_timecards(s, cards);
        assert forall|i: int| 0 <= i < after.links.len() implies 1 <= (#[trigger] after.links[i]).page
            <= after.page_count by {
            if i < before.links.len() {
                assert(after.links.drop_last()[i] == after.links[i]);
                assert(1 <= before.links[i].page <= before.page_count);
            } else {
                assert(after.links[i] == after.links.last());
                if cards.len() - 1 == 0 {
                } else {
                    lemma_grid_has_page(s, cards.drop_last());
                }
            }
        }
    }
}

/// Once the grid has drawn a subject there is a page.
pub proof fn lemma_grid_has_page(s: DocView, cards: Seq<MonthlyTimecard>)
    requires
        s.page_count >= 0,
        cards.len() > 0,
    ensures
        with_timecards(s, cards).page_count >= 1,
    decreases cards.len(),
{
    let before = with_timecards(s, cards.drop_last());
    lemma_grid_subject_frame(before, cards.len() - 1, cards.last());
    if cards.len() > 1 {
        lemma_grid_has_page(s, cards.drop_last());
    }
}

/// Every hyperlink that the calendars record names a page that exists:
/// the page of its subject.
pub proof fn lemma_calendar_links_placed(s: DocView, cards: Seq<MonthlyTimecard>)
    requires
        links_placed(s),
        s.page_count >= 0,
    ensures
        links_placed(with_timecards_shukei(s, cards)),
        with_timecards_shukei(s, cards).page_count == s.page_count + cards.len(),
        with_timecards_shukei(s, cards).links.len() == s.links.len() + cards.len(),
    decreases cards.len(),
{
    if cards.len() > 0 {
        let before = with_timecards_shukei(s, cards.drop_last());
        lemma_calendar_links_placed(s, cards.drop_last());
        lemma_calendar_subject_frame(before, cards.last());
        let after = with_timecards_shukei(s, cards);
        assert forall|i: int| 0 <= i < after.links.len() implies 1 <= (#[trigger] after.links[i]).page
            <= after.page_count by {
            if i < before.links.len() {
                assert(after.links.drop_last()[i] == after.links[i]);
                assert(1 <= before.links[i].page <= before.page_count);
            } else {
                assert(after.links[i] == after.links.last());
            }
        }
    }
}

/// Drawing a row keeps a state consistent.
pub proof fn lemma_row_consistent(s: DocView, x: int, y: int, h: int, cells: Seq<CellView>)
    requires
        consistent(s),
    ensures
        consistent(with_row(s, x, y, h, cells)),
    decreases cells.len(),
{
    if cells.len() > 0 {
        let before = with_row(s, x, y, h, cells.drop_last());
        lemma_row_consistent(s, x, y, h, cells.drop_last());
        let left = x + total_width(cells.drop_last());
        let top = snap_down(y, TABLE_GRID as int);
        let cell = cells.last();
        lemma_cell_consistent(
            before,
            left,
            top,
            cell.width,
            h,
            shown(cell.text),
            Align::Center,
            true,
            false,
        );
        lemma_cell_consistent(
            with_fill_color(before, gray()),
            left,
            top,
            cell.width,
            h,
            shown(cell.text),
            Align::Center,
            true,
            true,
        );
    }
}

/// Drawing the rows of days keeps a state consistent.
pub proof fn lemma_day_rows_consistent(s: DocView, x: int, y: int, days: Seq<DayRecord>)
    requires
        consistent(s),
    ensures
        consistent(with_day_rows(s, x, y, days)),
    decreases days.len(),
{
    if days.len() > 0 {
        lemma_day_rows_consistent(s, x, y, days.drop_last());
        lemma_row_consistent(
            with_day_rows(s, x, y, days.drop_last()),
            x,
            y + ROW_HEIGHT * (days.len() - 1),
            ROW_HEIGHT as int,
            day_cells(days.last()),
        );
    }
}

/// Drawing the day list keeps a state consistent.
pub proof fn lemma_day_list_consistent(s: DocView, x: int, y: int, days: Seq<DayRecord>)
    requires
        consistent(s),
    ensures
        consistent(with_day_list(s, x, y, days)),
{
    lemma_row_consistent(s, x, y, ROW_HEIGHT as int, day_list_heading());
    lemma_day_rows_consistent(
        with_row(s, x, y, ROW_HEIGHT as int, day_list_heading()),
        x,
        y + ROW_HEIGHT,
        days,
    );
}

/// Drawing the summary keeps a state consistent.
pub proof fn lemma_summary_consistent(s: DocView, x: int, y: int, summary: TimecardSummary)
    requires
        consistent(s),
    ensures
        consistent(with_summary(s, x, y, summary)),
{
    let h = ROW_HEIGHT as int;
    let first = with_row(s, x, y, h, attendance_heading());
    let second = with_row(first, x, y + h, h, attendance_cells(summary));
    let third = with_row(second, x, y + 2 * h, h, allowance_heading());
    lemma_row_consistent(s, x, y, h, attendance_heading());
    lemma_row_consistent(first, x, y + h, h, attendance_cells(summary));
    lemma_row_consistent(second, x, y + 2 * h, h, allowance_heading());
    lemma_row_consistent(third, x, y + 3 * h, h, allowance_cells(summary));
}

/// Drawing a heading keeps a state consistent.
pub proof fn lemma_heading_consistent(s: DocView, x: int, card: MonthlyTimecard)
    requires
        consistent(s),
    ensures
        consistent(with_heading(s, x, card)),
{
    let top = snap_down(HEADING_Y as int, TABLE_GRID as int);
    let named = with_cell(
        s,
        x,
        top,
        NAME_WIDTH as int,
        ROW_HEIGHT as int,
        shown(card.driver.name@),
        Align::Left,
        false,
        false,
    );
    lemma_cell_consistent(
        s,
        x,
        top,
        NAME_WIDTH as int,
        ROW_HEIGHT as int,
        shown(card.driver.name@),
        Align::Left,
        false,
        false,
    );
    lemma_cell_frame(
        s,
        x,
        top,
        NAME_WIDTH as int,
        ROW_HEIGHT as int,
        shown(card.driver.name@),
        Align::Left,
        false,
        false,
    );
    let linked = with_link(
        named,
        clamp(x, i32::MIN as int, i32::MAX as int),
        HEADING_Y as int,
        NAME_WIDTH as int,
        ROW_HEIGHT as int,
        detail_url_text(card.driver.id as int, card.year as int, card.month as int),
    );
    assert(consistent(linked));
    lemma_cell_consistent(
        linked,
        x + NAME_WIDTH,
        top,
        PERIOD_WIDTH as int,
        ROW_HEIGHT as int,
        shown(year_month_text(card.year as int, card.month as nat)),
        Align::Right,
        false,
        false,
    );
}

/// Drawing the calendar keeps a state consistent.
pub proof fn lemma_calendar_consistent(s: DocView, days: Seq<DayRecord>, rows: int)
    requires
        consistent(s),
    ensures
        consistent(with_calendar_rows(s, days, rows)),
    decreases rows,
{
    if rows > 0 {
        lemma_calendar_consistent(s, days, rows - 1);
        lemma_row_consistent(
            with_calendar_rows(s, days, rows - 1),
            CALENDAR_X as int,
            CALENDAR_Y + ROW_HEIGHT * (rows - 1),
            ROW_HEIGHT as int,
            calendar_cells(days, rows - 1),
        );
    }
}

/// Drawing a subject in the grid keeps a state consistent.
pub proof fn lemma_grid_subject_consistent(s: DocView, index: int, card: MonthlyTimecard)
    requires
        consistent(s),
    ensures
        consistent(with_grid_subject(s, index, card)),
{
    reveal(with_grid_subject);
    let paged = if index % 3 == 0 {
        with_dividers(with_page(s))
    } else {
        s
    };
    assert(consistent(paged)) by {
        if index % 3 == 0 {
            let added = with_page(s);
            assert(consistent(added));
            let w = band_width(added.page_width);
            lemma_emit_consistent(added, line_path(added, w, 0, w, added.page_height));
            lemma_emit_consistent(
                emit(added, line_path(added, w, 0, w, added.page_height)),
                line_path(added, 2 * w, 0, 2 * w, added.page_height),
            );
        }
    }
    let x = (index % 3) * band_width(s.page_width) + BAND_INSET;
    let headed = with_heading(paged, x, card);
    let listed = with_day_list(headed, x, GRID_LIST_Y as int, card.days@);
    lemma_heading_consistent(paged, x, card);
    lemma_day_list_consistent(headed, x, GRID_LIST_Y as int, card.days@);
    lemma_summary_consistent(listed, x, GRID_SUMMARY_Y as int, card.summary);
}

/// Drawing a subject as a calendar keeps a state consistent.
pub proof fn lemma_calendar_subject_consistent(s: DocView, card: MonthlyTimecard)
    requires
        consistent(s),
    ensures
        consistent(with_calendar_subject(s, card)),
{
    reveal(with_calendar_subject);
    let paged = with_page(s);
    assert(consistent(paged));
    let headed = with_heading(paged, CALENDAR_X as int, card);
    let stripped = with_calendar_rows(headed, card.days@, CALENDAR_ROWS as int);
    let listed = with_day_list(stripped, CALENDAR_X as int, CALENDAR_LIST_Y as int, card.days@);
    let summed = with_summary(
        listed,
        CALENDAR_SIDE_X as int,
        CALENDAR_LIST_Y as int,
        card.summary,
    );
    lemma_heading_consistent(paged, CALENDAR_X as int, card);
    lemma_calendar_consistent(headed, card.days@, CALENDAR_ROWS as int);
    lemma_day_list_consistent(stripped, CALENDAR_X as int, CALENDAR_LIST_Y as int, card.days@);
    lemma_summary_consistent(listed, CALENDAR_SIDE_X as int, CALENDAR_LIST_Y as int, card.summary);
    let headed_categories = with_row(
        summed,
        CALENDAR_SIDE_X as int,
        CATEGORY_Y as int,
        ROW_HEIGHT as int,
        category_heading(),
    );
    lemma_row_consistent(
        summed,
        CALENDAR_SIDE_X as int,
        CATEGORY_Y as int,
        ROW_HEIGHT as int,
        category_heading(),
    );
    lemma_row_consistent(
        headed_categories,
        CALENDAR_SIDE_X as int,
        CATEGORY_Y + ROW_HEIGHT,
        ROW_HEIGHT as int,
        category_cells(card.days@),
    );
}

/// A report drawn in the grid keeps a state consistent: every drawing
/// instruction lies on a page that exists, in page order.
pub proof fn lemma_grid_consistent(s: DocView, cards: Seq<MonthlyTimecard>)
    requires
        consistent(s),
    ensures
        consistent(with_timecards(s, cards)),
    decreases cards.len(),
{
    if cards.len() > 0 {
        lemma_grid_consistent(s, cards.drop_last());
        lemma_grid_subject_consistent(
            with_timecards(s, cards.drop_last()),
            cards.len() - 1,
            cards.last(),
        );
    }
}

/// A report drawn as calendars keeps a state consistent: every drawing
/// instruction lies on a page that exists, in page order.
pub proof fn lemma_calendars_consistent(s: DocView, cards: Seq<MonthlyTimecard>)
    requires
        consistent(s),
    ensures
        consistent(with_timecards_shukei(s, cards)),
    decreases cards.len(),
{
    if cards.len() > 0 {
        lemma_calendars_consistent(s, cards.drop_last());
        lemma_calendar_subject_consistent(with_timecards_shukei(s, cards.drop_last()), cards.last());
    }
}

} // verus!
