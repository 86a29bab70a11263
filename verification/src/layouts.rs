//! The two layouts of the attendance report: the grid with three subjects
//! side by side on a page, and the calendar with one subject on a page and
//! the days of the month from left to right.

use vstd::prelude::*;
use crate::coords::{snap_down, snap_to_grid, Align};
use crate::symbols::{
    allowance_marks,
    allowance_symbol,
    attendance_marks,
    attendance_symbol,
    category_count,
    count_categories,
    unclassified_days,
    CategoryCounts,
    DayCategory,
};
use crate::tables::{
    lemma_day_list_frame,
    lemma_row_frame,
    lemma_summary_frame,
    cells_view,
    count_text,
    format_count,
    plain,
    push_cell,
    shown_text,
    with_day_list,
    with_row,
    with_summary,
    CellView,
    TableCell,
    ROW_HEIGHT,
};
use crate::tcpdf_compat::{
    emit,
    lemma_cell_frame,
    line_path,
    same_frame,
    with_cell,
    with_link,
    with_page,
    DocView,
    TcpdfCompat,
};
use crate::text::{format_int, int_text, push_int, shown};
use crate::timecard_data::{
    additional_text,
    overtime_text,
    year_month_text,
    DayRecord,
    MonthlyTimecard,
};
use crate::units::{clamp, div_floor, TABLE_GRID};

verus! {

/// Distance of a subject's tables from the left edge of its band (2 mm).
pub const BAND_INSET: i64 = 2_000;

/// Top edge of the heading of a subject (5 mm).
pub const HEADING_Y: i32 = 5_000;

/// Width of the name in the heading of a subject (60 mm).
pub const NAME_WIDTH: i32 = 60_000;

/// Width of the month in the heading of a subject (35 mm).
pub const PERIOD_WIDTH: i32 = 35_000;

/// Top edge of the day list in the grid (10 mm).
pub const GRID_LIST_Y: i32 = 10_000;

/// Top edge of the summary in the grid (175 mm).
pub const GRID_SUMMARY_Y: i32 = 175_000;

/// Left edge of the calendar and of the day list below it (10 mm).
pub const CALENDAR_X: i64 = 10_000;

/// Top edge of the calendar (15 mm).
pub const CALENDAR_Y: i32 = 15_000;

/// Width of one day of the calendar (8 mm).
pub const DAY_WIDTH: i64 = 8_000;

/// Number of rows of the calendar.
pub const CALENDAR_ROWS: u8 = 5;

/// Top edge of the day list and of the summary below the calendar (45 mm).
pub const CALENDAR_LIST_Y: i32 = 45_000;

/// Left edge of the summary and of the categories beside the day list
/// (115 mm).
pub const CALENDAR_SIDE_X: i64 = 115_000;

/// Top edge of the categories (70 mm).
pub const CATEGORY_Y: i32 = 70_000;

/// Width of one category (20 mm).
pub const CATEGORY_WIDTH: i64 = 20_000;

/// Whether every timecard has at most the 31 daily records of a month.
pub open spec fn cards_ok(cards: Seq<MonthlyTimecard>) -> bool {
    forall|i: int| 0 <= i < cards.len() ==> (#[trigger] cards[i]).days.len() <= 31
}

/// Width of each of the three bands of a page.
pub open spec fn band_width(page_width: int) -> int {
    page_width / 3
}

/// Number of pages that the grid needs for `count` subjects.
pub open spec fn grid_pages(count: int) -> int {
    (count + 2) / 3
}

/// The address of the detail view of a subject's month.
pub open spec fn detail_url_text(id: int, year: int, month: int) -> Seq<char> {
    "/timecard/detail?driver_id="@ + int_text(id) + "&year="@ + int_text(year) + "&month="@
        + int_text(month)
}

/// The state after the two lines that divide a page into three bands were
/// drawn from its top to its bottom.
pub open spec fn with_dividers(s: DocView) -> DocView {
    let w = band_width(s.page_width);
    emit(
        emit(s, line_path(s, w, 0, w, s.page_height)),
        line_path(s, 2 * w, 0, 2 * w, s.page_height),
    )
}

/// The state after the heading of a subject was drawn at `x`: the name at
/// the left, linked to the detail view of the month, and the month at the
/// right.
pub open spec fn with_heading(s: DocView, x: int, card: MonthlyTimecard) -> DocView {
    let top = snap_down(HEADING_Y as int, TABLE_GRID as int);
    let named = with_cell(
        s,
        x,
        top,
        NAME_WIDTH as int,
        ROW_HEIGHT as int,
        shown(card.driver.name@),
        Align::Left,
        false,
        false,
    );
    let linked = with_link(
        named,
        clamp(x, i32::MIN as int, i32::MAX as int),
        HEADING_Y as int,
        NAME_WIDTH as int,
        ROW_HEIGHT as int,
        detail_url_text(card.driver.id as int, card.year as int, card.month as int),
    );
    with_cell(
        linked,
        x + NAME_WIDTH,
        top,
        PERIOD_WIDTH as int,
        ROW_HEIGHT as int,
        shown(year_month_text(card.year as int, card.month as nat)),
        Align::Right,
        false,
        false,
    )
}

/// The state after the subject at position `index` of a report was drawn
/// in the grid. Every third subject starts a new page with its dividers;
/// each subject fills the band of its position with heading, day list and
/// summary.
#[verifier::opaque]
pub open spec fn with_grid_subject(s: DocView, index: int, card: MonthlyTimecard) -> DocView {
    let paged = if index % 3 == 0 {
        with_dividers(with_page(s))
    } else {
        s
    };
    let x = (index % 3) * band_width(s.page_width) + BAND_INSET;
    let headed = with_heading(paged, x, card);
    let listed = with_day_list(headed, x, GRID_LIST_Y as int, card.days@);
    with_summary(listed, x, GRID_SUMMARY_Y as int, card.summary)
}

/// The state after a report was drawn in the grid.
pub open spec fn with_timecards(s: DocView, cards: Seq<MonthlyTimecard>) -> DocView
    decreases cards.len(),
{
    if cards.len() == 0 {
        s
    } else {
        with_grid_subject(with_timecards(s, cards.drop_last()), cards.len() - 1, cards.last())
    }
}

/// What the calendar shows for a day in its row `row`: the day of the
/// week, the day, the attendance symbol, the allowance marks, the
/// overtime.
pub open spec fn calendar_text(day: DayRecord, row: int) -> Seq<char> {
    if row == 0 {
        day.weekday@
    } else if row == 1 {
        int_text(day.day as int)
    } else if row == 2 {
        attendance_marks(day)
    } else if row == 3 {
        allowance_marks(day)
    } else {
        overtime_text(day) + additional_text(day.tsuika_count as int)
    }
}

/// The row `row` of the calendar: one cell for each day, Sundays shaded.
pub open spec fn calendar_cells(days: Seq<DayRecord>, row: int) -> Seq<CellView> {
    Seq::new(
        days.len(),
        |i: int|
            CellView {
                width: DAY_WIDTH as int,
                text: calendar_text(days[i], row),
                shaded: days[i].is_sunday,
            },
    )
}

/// The state after the first `rows` rows of the calendar were drawn.
pub open spec fn with_calendar_rows(s: DocView, days: Seq<DayRecord>, rows: int) -> DocView
    decreases rows,
{
    if rows <= 0 {
        s
    } else {
        with_row(
            with_calendar_rows(s, days, rows - 1),
            CALENDAR_X as int,
            CALENDAR_Y + ROW_HEIGHT * (rows - 1),
            ROW_HEIGHT as int,
            calendar_cells(days, rows - 1),
        )
    }
}

/// The heading of the categories.
pub open spec fn category_heading() -> Seq<CellView> {
    seq![
        plain(CATEGORY_WIDTH as int, "出勤"@),
        plain(CATEGORY_WIDTH as int, "作業"@),
        plain(CATEGORY_WIDTH as int, "休暇"@),
        plain(CATEGORY_WIDTH as int, "不明"@),
    ]
}

/// The number of days of each category. The number of unclassified days
/// is shaded unless it is zero.
pub open spec fn category_cells(days: Seq<DayRecord>) -> Seq<CellView> {
    seq![
        plain(CATEGORY_WIDTH as int, count_text(category_count(days, DayCategory::Worked) as int)),
        plain(
            CATEGORY_WIDTH as int,
            count_text(category_count(days, DayCategory::Administrative) as int),
        ),
        plain(CATEGORY_WIDTH as int, count_text(category_count(days, DayCategory::Leave) as int)),
        CellView {
            width: CATEGORY_WIDTH as int,
            text: count_text(unclassified_days(days)),
            shaded: unclassified_days(days) != 0,
        },
    ]
}

/// The state after the categories were drawn under their heading.
pub open spec fn with_categories(s: DocView, days: Seq<DayRecord>) -> DocView {
    with_row(
        with_row(
            s,
            CALENDAR_SIDE_X as int,
            CATEGORY_Y as int,
            ROW_HEIGHT as int,
            category_heading(),
        ),
        CALENDAR_SIDE_X as int,
        CATEGORY_Y + ROW_HEIGHT,
        ROW_HEIGHT as int,
        category_cells(days),
    )
}

/// The state after a subject was drawn on a page of its own: heading,
/// calendar, the day list below it, and beside that the summary and the
/// categories.
#[verifier::opaque]
pub open spec fn with_calendar_subject(s: DocView, card: MonthlyTimecard) -> DocView {
    let headed = with_heading(with_page(s), CALENDAR_X as int, card);
    let stripped = with_calendar_rows(headed, card.days@, CALENDAR_ROWS as int);
    let listed = with_day_list(stripped, CALENDAR_X as int, CALENDAR_LIST_Y as int, card.days@);
    let summed = with_summary(
        listed,
        CALENDAR_SIDE_X as int,
        CALENDAR_LIST_Y as int,
        card.summary,
    );
    with_categories(summed, card.days@)
}

/// The state after a report was drawn as calendars.
pub open spec fn with_timecards_shukei(s: DocView, cards: Seq<MonthlyTimecard>) -> DocView
    decreases cards.len(),
{
    if cards.len() == 0 {
        s
    } else {
        with_calendar_subject(with_timecards_shukei(s, cards.drop_last()), cards.last())
    }
}

/// Drawing a heading changes neither the page size, the number of pages
/// nor the font size, and records exactly one hyperlink, for the active
/// page, that leads to the detail view of the month.
pub proof fn lemma_heading_frame(s: DocView, x: int, card: MonthlyTimecard)
    ensures
        same_frame(s, with_heading(s, x, card)),
        with_heading(s, x, card).links.len() == s.links.len() + 1,
        with_heading(s, x, card).links.last().page == s.page_count,
        with_heading(s, x, card).links.last().url == detail_url_text(
            card.driver.id as int,
            card.year as int,
            card.month as int,
        ),
        with_heading(s, x, card).links.drop_last() == s.links,
{
    let top = snap_down(HEADING_Y as int, TABLE_GRID as int);
    let named = with_cell(
        s,
        x,
        top,
        NAME_WIDTH as int,
        ROW_HEIGHT as int,
        shown(card.driver.name@),
        Align::Left,
        false,
        false,
    );
    lemma_cell_frame(
        s,
        x,
        top,
        NAME_WIDTH as int,
        ROW_HEIGHT as int,
        shown(card.driver.name@),
        Align::Left,
        false,
        false,
    );
    let linked = with_link(
        named,
        clamp(x, i32::MIN as int, i32::MAX as int),
        HEADING_Y as int,
        NAME_WIDTH as int,
        ROW_HEIGHT as int,
        detail_url_text(card.driver.id as int, card.year as int, card.month as int),
    );
    lemma_cell_frame(
        linked,
        x + NAME_WIDTH,
        top,
        PERIOD_WIDTH as int,
        ROW_HEIGHT as int,
        shown(year_month_text(card.year as int, card.month as nat)),
        Align::Right,
        false,
        false,
    );
    assert(with_heading(s, x, card).links.drop_last() =~= s.links);
}

/// Drawing the calendar changes neither the page size, the number of
/// pages, the font size nor the hyperlinks.
pub proof fn lemma_calendar_frame(s: DocView, days: Seq<DayRecord>, rows: int)
    ensures
        same_frame(s, with_calendar_rows(s, days, rows)),
        with_calendar_rows(s, days, rows).links == s.links,
    decreases rows,
{
    if rows > 0 {
        lemma_calendar_frame(s, days, rows - 1);
        lemma_row_frame(
            with_calendar_rows(s, days, rows - 1),
            CALENDAR_X as int,
            CALENDAR_Y + ROW_HEIGHT * (rows - 1),
            ROW_HEIGHT as int,
            calendar_cells(days, rows - 1),
        );
    }
}

/// Drawing the categories changes neither the page size, the number of
/// pages, the font size nor the hyperlinks.
pub proof fn lemma_categories_frame(s: DocView, days: Seq<DayRecord>)
    ensures
        same_frame(s, with_categories(s, days)),
        with_categories(s, days).links == s.links,
{
    let headed = with_row(
        s,
        CALENDAR_SIDE_X as int,
        CATEGORY_Y as int,
        ROW_HEIGHT as int,
        category_heading(),
    );
    lemma_row_frame(
        s,
        CALENDAR_SIDE_X as int,
        CATEGORY_Y as int,
        ROW_HEIGHT as int,
        category_heading(),
    );
    lemma_row_frame(
        headed,
        CALENDAR_SIDE_X as int,
        CATEGORY_Y + ROW_HEIGHT,
        ROW_HEIGHT as int,
        category_cells(days),
    );
}

/// A subject drawn in the grid adds a page exactly if its position is a
/// multiple of three, keeps the page size and the font size, and records
/// one hyperlink, for the page it is drawn on.
pub proof fn lemma_grid_subject_frame(s: DocView, index: int, card: MonthlyTimecard)
    requires
        index >= 0,
    ensures
        ({
            let t = with_grid_subject(s, index, card);
            &&& t.page_width == s.page_width
            &&& t.page_height == s.page_height
            &&& t.font_size == s.font_size
            &&& t.page_count == s.page_count + if index % 3 == 0 {
                1int
            } else {
                0int
            }
            &&& t.links.len() == s.links.len() + 1
            &&& t.links.drop_last() == s.links
            &&& t.links.last().page == t.page_count
            &&& t.links.last().url == detail_url_text(
                card.driver.id as int,
                card.year as int,
                card.month as int,
            )
        }),
{
    reveal(with_grid_subject);
    let paged = if index % 3 == 0 {
        with_dividers(with_page(s))
    } else {
        s
    };
    let x = (index % 3) * band_width(s.page_width) + BAND_INSET;
    let headed = with_heading(paged, x, card);
    let listed = with_day_list(headed, x, GRID_LIST_Y as int, card.days@);
    lemma_heading_frame(paged, x, card);
    lemma_day_list_frame(headed, x, GRID_LIST_Y as int, card.days@);
    lemma_summary_frame(listed, x, GRID_SUMMARY_Y as int, card.summary);
}

/// A subject drawn as a calendar adds one page, keeps the page size and
/// the font size, and records one hyperlink, for that page.
pub proof fn lemma_calendar_subject_frame(s: DocView, card: MonthlyTimecard)
    ensures
        ({
            let t = with_calendar_subject(s, card);
            &&& t.page_width == s.page_width
            &&& t.page_height == s.page_height
            &&& t.font_size == s.font_size
            &&& t.page_count == s.page_count + 1
            &&& t.links.len() == s.links.len() + 1
            &&& t.links.drop_last() == s.links
            &&& t.links.last().page == t.page_count
            &&& t.links.last().url == detail_url_text(
                card.driver.id as int,
                card.year as int,
                card.month as int,
            )
        }),
{
    reveal(with_calendar_subject);
    let headed = with_heading(with_page(s), CALENDAR_X as int, card);
    let stripped = with_calendar_rows(headed, card.days@, CALENDAR_ROWS as int);
    let listed = with_day_list(stripped, CALENDAR_X as int, CALENDAR_LIST_Y as int, card.days@);
    let summed = with_summary(
        listed,
        CALENDAR_SIDE_X as int,
        CALENDAR_LIST_Y as int,
        card.summary,
    );
    lemma_heading_frame(with_page(s), CALENDAR_X as int, card);
    lemma_calendar_frame(headed, card.days@, CALENDAR_ROWS as int);
    lemma_day_list_frame(stripped, CALENDAR_X as int, CALENDAR_LIST_Y as int, card.days@);
    lemma_summary_frame(listed, CALENDAR_SIDE_X as int, CALENDAR_LIST_Y as int, card.summary);
    lemma_categories_frame(summed, card.days@);
}

/// Tests `cards_ok`.
pub fn check_cards(cards: &Vec<MonthlyTimecard>) -> (r: bool)
    ensures
        r == cards_ok(cards@),
{
    let mut i: usize = 0;
    while i < cards.len()
        invariant
            i <= cards.len(),
            forall|j: int| 0 <= j < i ==> (#[trigger] cards[j]).days.len() <= 31,
        decreases cards.len() - i,
    {
        if cards[i].days.len() > 31 {
            return false;
        }
        i = i + 1;
    }
    true
}

/// What the calendar shows for a day in one of its rows.
pub fn calendar_entry(day: &DayRecord, row: u8) -> (r: String)
    ensures
        r@ == calendar_text(*day, row as int),
{
    if row == 0 {
        day.weekday.clone()
    } else if row == 1 {
        format_int(day.day as i64)
    } else if row == 2 {
        attendance_symbol(day)
    } else if row == 3 {
        allowance_symbol(day)
    } else {
        day.zangyo_with_tsuika_str()
    }
}

/// One row of the calendar.
pub fn calendar_row(days: &Vec<DayRecord>, row: u8) -> (r: Vec<TableCell>)
    ensures
        cells_view(r@) == calendar_cells(days@, row as int),
{
    let mut cells: Vec<TableCell> = Vec::new();
    assert(cells_view(cells@) =~= Seq::empty());
    let mut i: usize = 0;
    while i < days.len()
        invariant
            i <= days.len(),
            cells_view(cells@).len() == i,
            forall|j: int|
                0 <= j < i ==> (#[trigger] cells_view(cells@)[j]) == calendar_cells(
                    days@,
                    row as int,
                )[j],
        decreases days.len() - i,
    {
        let day: &DayRecord = &days[i];
        push_cell(&mut cells, DAY_WIDTH, calendar_entry(day, row), day.is_sunday);
        i = i + 1;
    }
    assert(cells_view(cells@) =~= calendar_cells(days@, row as int));
    cells
}

/// The heading of the categories.
pub fn category_heading_row() -> (r: Vec<TableCell>)
    ensures
        cells_view(r@) == category_heading(),
{
    let mut cells: Vec<TableCell> = Vec::new();
    assert(cells_view(cells@) =~= Seq::empty());
    push_cell(&mut cells, CATEGORY_WIDTH, String::from_str("出勤"), false);
    push_cell(&mut cells, CATEGORY_WIDTH, String::from_str("作業"), false);
    push_cell(&mut cells, CATEGORY_WIDTH, String::from_str("休暇"), false);
    push_cell(&mut cells, CATEGORY_WIDTH, String::from_str("不明"), false);
    assert(cells_view(cells@) =~= category_heading());
    cells
}

/// The number of days of each category.
pub fn category_row(days: &Vec<DayRecord>) -> (r: Vec<TableCell>)
    requires
        days.len() <= 31,
    ensures
        cells_view(r@) == category_cells(days@),
{
    let counts: CategoryCounts = count_categories(days);
    proof {
        crate::symbols::lemma_categories_partition(days@);
    }
    let mut cells: Vec<TableCell> = Vec::new();
    assert(cells_view(cells@) =~= Seq::empty());
    push_cell(&mut cells, CATEGORY_WIDTH, format_count(counts.worked as i64), false);
    push_cell(&mut cells, CATEGORY_WIDTH, format_count(counts.administrative as i64), false);
    push_cell(&mut cells, CATEGORY_WIDTH, format_count(counts.leave as i64), false);
    push_cell(
        &mut cells,
        CATEGORY_WIDTH,
        format_count(counts.unclassified as i64),
        counts.unclassified != 0,
    );
    assert(cells_view(cells@) =~= category_cells(days@));
    cells
}

impl MonthlyTimecard {
    /// The address of the detail view of the month.
    pub fn detail_url(&self) -> (r: String)
        ensures
            r@ == detail_url_text(self.driver.id as int, self.year as int, self.month as int),
    {
        let mut out: String = String::from_str("/timecard/detail?driver_id=");
        push_int(&mut out, self.driver.id as i64);
        out.append("&year=");
        push_int(&mut out, self.year as i64);
        out.append("&month=");
        push_int(&mut out, self.month as i64);
        assert(out@ =~= detail_url_text(
            self.driver.id as int,
            self.year as int,
            self.month as int,
        ));
        out
    }
}

impl TcpdfCompat {
    /// Draws the two lines that divide the page into three bands.
    pub fn draw_dividers(&mut self)
        ensures
            final(self)@ == with_dividers(old(self)@),
    {
        let w: i64 = div_floor(self.page_width as i128, 3) as i64;
        let bottom: i64 = self.page_height as i64;
        self.line(w, 0, w, bottom);
        self.line(2 * w, 0, 2 * w, bottom);
    }

    /// Draws the heading of a subject at `x`.
    pub fn draw_heading(&mut self, x: i64, card: &MonthlyTimecard)
        requires
            -0x1_0000_0000 <= x <= 0x1_0000_0000,
        ensures
            final(self)@ == with_heading(old(self)@, x as int, *card),
    {
        let top: i64 = snap_to_grid(HEADING_Y, TABLE_GRID);
        let h: i64 = ROW_HEIGHT as i64;
        self.draw_cell(
            x,
            top,
            NAME_WIDTH as i64,
            h,
            shown_text(card.driver.name.as_str()),
            Align::Left,
            false,
            false,
        );
        let link_x: i32 = if x < i32::MIN as i64 {
            i32::MIN
        } else if x > i32::MAX as i64 {
            i32::MAX
        } else {
            x as i32
        };
        self.add_link(link_x, HEADING_Y, NAME_WIDTH, ROW_HEIGHT, card.detail_url());
        let period: String = card.year_month_str();
        self.draw_cell(
            x + NAME_WIDTH as i64,
            top,
            PERIOD_WIDTH as i64,
            h,
            shown_text(period.as_str()),
            Align::Right,
            false,
            false,
        );
    }

    /// Draws the subject at position `index` of a report in the grid.
    pub fn draw_grid_subject(&mut self, index: usize, card: &MonthlyTimecard)
        requires
            card.days.len() <= 31,
            index % 3 == 0 ==> old(self).page_count < u32::MAX,
        ensures
            final(self)@ == with_grid_subject(old(self)@, index as int, *card),
            final(self).page_count == old(self).page_count + if index % 3 == 0 {
                1int
            } else {
                0int
            },
    {
        proof {
            reveal(with_grid_subject);
            lemma_grid_subject_frame(old(self)@, index as int, *card);
        }
        let slot: usize = index % 3;
        if slot == 0 {
            self.handle_add_page();
            self.draw_dividers();
        }
        let band: i64 = div_floor(self.page_width as i128, 3) as i64;
        let offset: i64 = if slot == 0 {
            0
        } else if slot == 1 {
            band
        } else {
            2 * band
        };
        proof {
            let width = band_width(old(self)@.page_width);
            assert(self@.page_width == old(self)@.page_width);
            assert(band == width);
            assert(0 * width == 0 && 1 * width == width && 2 * width == width + width)
                by (nonlinear_arith);
            assert(offset == (index as int % 3) * width);
        }
        let x: i64 = offset + BAND_INSET;
        self.draw_heading(x, card);
        self.draw_day_list(x, GRID_LIST_Y, &card.days);
        self.draw_summary(x, GRID_SUMMARY_Y, &card.summary);
    }

    /// Draws a report in the grid: three subjects side by side on each
    /// page, in the order of the report.
    pub fn render_timecards(&mut self, timecards: &Vec<MonthlyTimecard>)
        requires
            cards_ok(timecards@),
            old(self).page_count + grid_pages(timecards.len() as int) <= u32::MAX,
        ensures
            final(self)@ == with_timecards(old(self)@, timecards@),
            final(self).page_count == old(self).page_count + grid_pages(timecards.len() as int),
    {
        let mut i: usize = 0;
        while i < timecards.len()
            invariant
                i <= timecards.len(),
                cards_ok(timecards@),
                old(self).page_count + grid_pages(timecards.len() as int) <= u32::MAX,
                self@ == with_timecards(old(self)@, timecards@.take(i as int)),
                self.page_count == old(self).page_count + grid_pages(i as int),
            decreases timecards.len() - i,
        {
            proof {
                assert(timecards@.take(i + 1).drop_last() =~= timecards@.take(i as int));
            }
            self.draw_grid_subject(i, &timecards[i]);
            i = i + 1;
        }
        proof {
            assert(timecards@.take(timecards@.len() as int) =~= timecards@);
        }
    }

    /// Draws the calendar of a month: five rows with one cell for each
    /// day.
    pub fn draw_calendar(&mut self, days: &Vec<DayRecord>)
        requires
            days.len() <= 31,
        ensures
            final(self)@ == with_calendar_rows(old(self)@, days@, CALENDAR_ROWS as int),
    {
        let mut row: u8 = 0;
        while row < CALENDAR_ROWS
            invariant
                row <= CALENDAR_ROWS,
                days.len() <= 31,
                self@ == with_calendar_rows(old(self)@, days@, row as int),
            decreases CALENDAR_ROWS - row,
        {
            let cells: Vec<TableCell> = calendar_row(days, row);
            let top: i32 = CALENDAR_Y + ROW_HEIGHT * (row as i32);
            self.draw_row(CALENDAR_X, top, ROW_HEIGHT as i64, &cells);
            row = row + 1;
        }
    }

    /// Draws the number of days of each category under a heading.
    pub fn draw_categories(&mut self, days: &Vec<DayRecord>)
        requires
            days.len() <= 31,
        ensures
            final(self)@ == with_categories(old(self)@, days@),
    {
        let heading: Vec<TableCell> = category_heading_row();
        self.draw_row(CALENDAR_SIDE_X, CATEGORY_Y, ROW_HEIGHT as i64, &heading);
        let counts: Vec<TableCell> = category_row(days);
        self.draw_row(CALENDAR_SIDE_X, CATEGORY_Y + ROW_HEIGHT, ROW_HEIGHT as i64, &counts);
    }

    /// Draws a subject on a page of its own.
    pub fn draw_calendar_subject(&mut self, card: &MonthlyTimecard)
        requires
            card.days.len() <= 31,
            old(self).page_count < u32::MAX,
        ensures
            final(self)@ == with_calendar_subject(old(self)@, *card),
            final(self).page_count == old(self).page_count + 1,
    {
        proof {
            reveal(with_calendar_subject);
            lemma_calendar_subject_frame(old(self)@, *card);
        }
        self.handle_add_page();
        self.draw_heading(CALENDAR_X, card);
        self.draw_calendar(&card.days);
        self.draw_day_list(CALENDAR_X, CALENDAR_LIST_Y, &card.days);
        self.draw_summary(CALENDAR_SIDE_X, CALENDAR_LIST_Y, &card.summary);
        self.draw_categories(&card.days);
    }

    /// Draws a report as calendars: one subject on each page, in the
    /// order of the report.
    pub fn render_timecards_shukei(&mut self, timecards: &Vec<MonthlyTimecard>)
        requires
            cards_ok(timecards@),
            old(self).page_count + timecards.len() <= u32::MAX,
        ensures
            final(self)@ == with_timecards_shukei(old(self)@, timecards@),
            final(self).page_count == old(self).page_count + timecards.len(),
    {
        let mut i: usize = 0;
        while i < timecards.len()
            invariant
                i <= timecards.len(),
                cards_ok(timecards@),
                old(self).page_count + timecards.len() <= u32::MAX,
                self@ == with_timecards_shukei(old(self)@, timecards@.take(i as int)),
                self.page_count == old(self).page_count + i,
            decreases timecards.len() - i,
        {
            proof {
                assert(timecards@.take(i + 1).drop_last() =~= timecards@.take(i as int));
            }
            self.draw_calendar_subject(&timecards[i]);
            i = i + 1;
        }
        proof {
            assert(timecards@.take(timecards@.len() as int) =~= timecards@);
        }
    }
}

} // verus!
