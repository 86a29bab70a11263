//! Table rows built from cells, and the two tables that both layouts
//! share: the list of the days of a month and the summary of a month.

use vstd::prelude::*;
use crate::coords::{snap_down, snap_to_grid, Align};
use crate::tcpdf_compat::{
    black,
    lemma_cell_frame,
    same_frame,
    with_cell,
    with_fill_color,
    Color,
    DocView,
    TcpdfCompat,
};
use crate::text::{format_int, int_text, shown, str_is_blank};
use crate::timecard_data::{
    additional_text,
    constraint_text,
    duration_text,
    format_duration,
    format_tenths,
    overtime_text,
    tenths_text,
    DayRecord,
    TimecardSummary,
};
use crate::units::{is_coord, TABLE_GRID};

verus! {

/// Height of every table row (5 mm).
pub const ROW_HEIGHT: i32 = 5_000;

/// Largest width of a table cell (one kilometre).
pub const MAX_CELL_WIDTH: i64 = 1_000_000_000;

/// Largest number of cells in a table row.
pub const MAX_ROW_CELLS: usize = 100;

/// Largest distance of the left edge of a row from the left page edge.
pub const MAX_ROW_START: i64 = 549_755_813_888;

/// Constraint time, in minutes, beyond which a day is shaded (14 hours).
pub const CONSTRAINT_LIMIT: i32 = 840;

/// Width of the day list and of the summary (95 mm).
pub const TABLE_WIDTH: i64 = 95_000;

/// One cell of a table row.
#[derive(Clone, Debug)]
pub struct TableCell {
    pub width: i64,
    pub text: String,
    /// Whether the cell is filled with gray.
    pub shaded: bool,
}

/// What a table cell says.
pub struct CellView {
    pub width: int,
    pub text: Seq<char>,
    pub shaded: bool,
}

impl View for TableCell {
    type V = CellView;

    open spec fn view(&self) -> CellView {
        CellView { width: self.width as int, text: self.text@, shaded: self.shaded }
    }
}

/// What the cells of a row say.
pub open spec fn cells_view(cells: Seq<TableCell>) -> Seq<CellView> {
    cells.map_values(|c: TableCell| c@)
}

/// The gray that shades a cell.
pub open spec fn gray() -> Color {
    Color { r: 220, g: 220, b: 220 }
}

/// Whether a row can be drawn: it has at most `MAX_ROW_CELLS` cells, none
/// of them narrower than nothing or wider than `MAX_CELL_WIDTH`.
pub open spec fn row_ok(cells: Seq<CellView>) -> bool {
    &&& cells.len() <= MAX_ROW_CELLS
    &&& forall|k: int| 0 <= k < cells.len() ==> 0 <= (#[trigger] cells[k]).width <= MAX_CELL_WIDTH
}

/// Width of all cells of a row together.
pub open spec fn total_width(cells: Seq<CellView>) -> int
    decreases cells.len(),
{
    if cells.len() == 0 {
        0
    } else {
        total_width(cells.drop_last()) + cells.last().width
    }
}

/// The state after a table cell was drawn on the table grid: outlined,
/// with its text centred, and filled with gray if shaded. The fill colour
/// is black again afterwards.
pub open spec fn with_table_cell(
    s: DocView,
    x: int,
    y: int,
    w: int,
    h: int,
    text: Seq<char>,
    shaded: bool,
) -> DocView {
    let top = snap_down(y, TABLE_GRID as int);
    if shaded {
        with_fill_color(
            with_cell(
                with_fill_color(s, gray()),
                x,
                top,
                w,
                h,
                shown(text),
                Align::Center,
                true,
                true,
            ),
            black(),
        )
    } else {
        with_cell(s, x, top, w, h, shown(text), Align::Center, true, false)
    }
}

/// The state after a row of cells was drawn from left to right, the first
/// cell starting at `x`.
pub open spec fn with_row(s: DocView, x: int, y: int, h: int, cells: Seq<CellView>) -> DocView
    decreases cells.len(),
{
    if cells.len() == 0 {
        s
    } else {
        with_table_cell(
            with_row(s, x, y, h, cells.drop_last()),
            x + total_width(cells.drop_last()),
            y,
            cells.last().width,
            h,
            cells.last().text,
            cells.last().shaded,
        )
    }
}

/// An unshaded cell.
pub open spec fn plain(width: int, text: Seq<char>) -> CellView {
    CellView { width, text, shaded: false }
}

/// The heading of the day list.
pub open spec fn day_list_heading() -> Seq<CellView> {
    seq![
        plain(7_000, "日"@),
        plain(7_000, "曜"@),
        plain(11_000, "出勤"@),
        plain(11_000, "退社"@),
        plain(11_000, "出勤"@),
        plain(11_000, "退社"@),
        plain(10_000, "残業"@),
        plain(15_000, "備考"@),
        plain(12_000, "拘束"@),
    ]
}

/// The `k`th of a list of times, or nothing.
pub open spec fn nth_time(times: Seq<String>, k: int) -> Seq<char> {
    if 0 <= k < times.len() {
        times[k]@
    } else {
        Seq::empty()
    }
}

/// Whether the constraint time of a day is beyond the limit.
pub open spec fn over_limit(day: DayRecord) -> bool {
    day.kosoku_minutes matches Some(minutes) && minutes > CONSTRAINT_LIMIT
}

/// The row of a day in the day list: day, day of the week, two pairs of
/// clock-in and clock-out, overtime, remark and constraint time. A Sunday
/// is shaded throughout, a constraint time beyond the limit in its cell.
pub open spec fn day_cells(day: DayRecord) -> Seq<CellView> {
    seq![
        CellView { width: 7_000, text: int_text(day.day as int), shaded: day.is_sunday },
        CellView { width: 7_000, text: day.weekday@, shaded: day.is_sunday },
        CellView { width: 11_000, text: nth_time(day.clock_in@, 0), shaded: day.is_sunday },
        CellView { width: 11_000, text: nth_time(day.clock_out@, 0), shaded: day.is_sunday },
        CellView { width: 11_000, text: nth_time(day.clock_in@, 1), shaded: day.is_sunday },
        CellView { width: 11_000, text: nth_time(day.clock_out@, 1), shaded: day.is_sunday },
        CellView {
            width: 10_000,
            text: overtime_text(day) + additional_text(day.tsuika_count as int),
            shaded: day.is_sunday,
        },
        CellView { width: 15_000, text: day.remarks@, shaded: day.is_sunday },
        CellView {
            width: 12_000,
            text: constraint_text(day),
            shaded: day.is_sunday || over_limit(day),
        },
    ]
}

/// The state after the rows of `days` were drawn one below the other, the
/// first with its top edge at `y`.
pub open spec fn with_day_rows(s: DocView, x: int, y: int, days: Seq<DayRecord>) -> DocView
    decreases days.len(),
{
    if days.len() == 0 {
        s
    } else {
        with_row(
            with_day_rows(s, x, y, days.drop_last()),
            x,
            y + ROW_HEIGHT * (days.len() - 1),
            ROW_HEIGHT as int,
            day_cells(days.last()),
        )
    }
}

/// The state after the day list was drawn: its heading with the top edge
/// at `y`, and below it one row for each day.
pub open spec fn with_day_list(s: DocView, x: int, y: int, days: Seq<DayRecord>) -> DocView {
    with_day_rows(
        with_row(s, x, y, ROW_HEIGHT as int, day_list_heading()),
        x,
        y + ROW_HEIGHT,
        days,
    )
}

/// A count as text; empty when zero.
pub open spec fn count_text(count: int) -> Seq<char> {
    if count == 0 {
        Seq::empty()
    } else {
        int_text(count)
    }
}

/// The heading of the attendance counters.
pub open spec fn attendance_heading() -> Seq<CellView> {
    seq![
        plain(12_000, "出勤"@),
        plain(12_000, "公休"@),
        plain(12_000, "有休"@),
        plain(12_000, "欠勤"@),
        plain(12_000, "遅刻"@),
        plain(12_000, "早退"@),
        plain(12_000, "特休"@),
        plain(11_000, "休出"@),
    ]
}

/// The attendance counters of a summary.
pub open spec fn attendance_cells(summary: TimecardSummary) -> Seq<CellView> {
    seq![
        plain(12_000, tenths_text(summary.shukkin as int)),
        plain(12_000, count_text(summary.kyuka as int)),
        plain(12_000, tenths_text(summary.yukyu as int)),
        plain(12_000, count_text(summary.kekkin as int)),
        plain(12_000, count_text(summary.chikoku as int)),
        plain(12_000, count_text(summary.soutai as int)),
        plain(12_000, count_text(summary.tokukyu as int)),
        plain(11_000, tenths_text(summary.kyushutsu as int)),
    ]
}

/// The heading of the overtime and allowance counters.
pub open spec fn allowance_heading() -> Seq<CellView> {
    seq![
        plain(19_000, "残業"@),
        plain(19_000, "拘束"@),
        plain(19_000, "牽引"@),
        plain(19_000, "家畜"@),
        plain(19_000, "追加"@),
    ]
}

/// The overtime and allowance counters of a summary.
pub open spec fn allowance_cells(summary: TimecardSummary) -> Seq<CellView> {
    seq![
        plain(19_000, tenths_text(summary.total_zangyo as int)),
        plain(19_000, duration_text(summary.total_kosoku as int)),
        plain(19_000, count_text(summary.trailer as int)),
        plain(19_000, count_text(summary.kachiku as int)),
        plain(19_000, count_text(summary.tsuika as int)),
    ]
}

/// The state after the summary was drawn in four rows from `y` down: the
/// attendance counters under their heading, then the overtime and
/// allowance counters under theirs.
pub open spec fn with_summary(s: DocView, x: int, y: int, summary: TimecardSummary) -> DocView {
    let h = ROW_HEIGHT as int;
    let first = with_row(s, x, y, h, attendance_heading());
    let second = with_row(first, x, y + h, h, attendance_cells(summary));
    let third = with_row(second, x, y + 2 * h, h, allowance_heading());
    with_row(third, x, y + 3 * h, h, allowance_cells(summary))
}

/// The text that a string puts on the page.
pub fn shown_text(text: &str) -> (r: Option<String>)
    ensures
        match r {
            Some(t) => shown(text@) == Some(t@),
            None => shown(text@) is None,
        },
{
    if str_is_blank(text) {
        None
    } else {
        Some(String::from_str(text))
    }
}

/// A count as text; empty when zero.
pub fn format_count(count: i64) -> (r: String)
    ensures
        r@ == count_text(count as int),
{
    if count == 0 {
        String::new()
    } else {
        format_int(count)
    }
}

/// Adds a cell at the right end of a row.
pub fn push_cell(cells: &mut Vec<TableCell>, width: i64, text: String, shaded: bool)
    ensures
        cells_view(final(cells)@) == cells_view(old(cells)@).push(
            CellView { width: width as int, text: text@, shaded },
        ),
{
    let cell = TableCell { width, text, shaded };
    cells.push(cell);
    assert(cells_view(old(cells)@.push(cell)) =~= cells_view(old(cells)@).push(cell@));
}

/// The `k`th of a list of times, or an empty string.
pub fn time_at(times: &Vec<String>, k: usize) -> (r: String)
    ensures
        r@ == nth_time(times@, k as int),
{
    if k < times.len() {
        times[k].clone()
    } else {
        String::new()
    }
}

/// The heading of the day list.
pub fn day_list_heading_row() -> (r: Vec<TableCell>)
    ensures
        cells_view(r@) == day_list_heading(),
{
    let mut cells: Vec<TableCell> = Vec::new();
    assert(cells_view(cells@) =~= Seq::empty());
    push_cell(&mut cells, 7_000, String::from_str("日"), false);
    push_cell(&mut cells, 7_000, String::from_str("曜"), false);
    push_cell(&mut cells, 11_000, String::from_str("出勤"), false);
    push_cell(&mut cells, 11_000, String::from_str("退社"), false);
    push_cell(&mut cells, 11_000, String::from_str("出勤"), false);
    push_cell(&mut cells, 11_000, String::from_str("退社"), false);
    push_cell(&mut cells, 10_000, String::from_str("残業"), false);
    push_cell(&mut cells, 15_000, String::from_str("備考"), false);
    push_cell(&mut cells, 12_000, String::from_str("拘束"), false);
    assert(cells_view(cells@) =~= day_list_heading());
    cells
}

/// The row of a day in the day list.
pub fn day_row(day: &DayRecord) -> (r: Vec<TableCell>)
    ensures
        cells_view(r@) == day_cells(*day),
{
    let shaded: bool = day.is_sunday;
    let over: bool = match day.kosoku_minutes {
        Some(minutes) => minutes > CONSTRAINT_LIMIT,
        None => false,
    };
    let mut cells: Vec<TableCell> = Vec::new();
    assert(cells_view(cells@) =~= Seq::empty());
    push_cell(&mut cells, 7_000, format_int(day.day as i64), shaded);
    push_cell(&mut cells, 7_000, day.weekday.clone(), shaded);
    push_cell(&mut cells, 11_000, time_at(&day.clock_in, 0), shaded);
    push_cell(&mut cells, 11_000, time_at(&day.clock_out, 0), shaded);
    push_cell(&mut cells, 11_000, time_at(&day.clock_in, 1), shaded);
    push_cell(&mut cells, 11_000, time_at(&day.clock_out, 1), shaded);
    push_cell(&mut cells, 10_000, day.zangyo_with_tsuika_str(), shaded);
    push_cell(&mut cells, 15_000, day.remarks.clone(), shaded);
    push_cell(&mut cells, 12_000, day.kosoku_str(), shaded || over);
    assert(cells_view(cells@) =~= day_cells(*day));
    cells
}

/// The heading of the attendance counters.
pub fn attendance_heading_row() -> (r: Vec<TableCell>)
    ensures
        cells_view(r@) == attendance_heading(),
{
    let mut cells: Vec<TableCell> = Vec::new();
    assert(cells_view(cells@) =~= Seq::empty());
    push_cell(&mut cells, 12_000, String::from_str("出勤"), false);
    push_cell(&mut cells, 12_000, String::from_str("公休"), false);
    push_cell(&mut cells, 12_000, String::from_str("有休"), false);
    push_cell(&mut cells, 12_000, String::from_str("欠勤"), false);
    push_cell(&mut cells, 12_000, String::from_str("遅刻"), false);
    push_cell(&mut cells, 12_000, String::from_str("早退"), false);
    push_cell(&mut cells, 12_000, String::from_str("特休"), false);
    push_cell(&mut cells, 11_000, String::from_str("休出"), false);
    assert(cells_view(cells@) =~= attendance_heading());
    cells
}

/// The attendance counters of a summary.
pub fn attendance_row(summary: &TimecardSummary) -> (r: Vec<TableCell>)
    ensures
        cells_view(r@) == attendance_cells(*summary),
{
    let mut cells: Vec<TableCell> = Vec::new();
    assert(cells_view(cells@) =~= Seq::empty());
    push_cell(&mut cells, 12_000, format_tenths(summary.shukkin), false);
    push_cell(&mut cells, 12_000, format_count(summary.kyuka as i64), false);
    push_cell(&mut cells, 12_000, format_tenths(summary.yukyu), false);
    push_cell(&mut cells, 12_000, format_count(summary.kekkin as i64), false);
    push_cell(&mut cells, 12_000, format_count(summary.chikoku as i64), false);
    push_cell(&mut cells, 12_000, format_count(summary.soutai as i64), false);
    push_cell(&mut cells, 12_000, format_count(summary.tokukyu as i64), false);
    push_cell(&mut cells, 11_000, format_tenths(summary.kyushutsu), false);
    assert(cells_view(cells@) =~= attendance_cells(*summary));
    cells
}

/// The heading of the overtime and allowance counters.
pub fn allowance_heading_row() -> (r: Vec<TableCell>)
    ensures
        cells_view(r@) == allowance_heading(),
{
    let mut cells: Vec<TableCell> = Vec::new();
    assert(cells_view(cells@) =~= Seq::empty());
    push_cell(&mut cells, 19_000, String::from_str("残業"), false);
    push_cell(&mut cells, 19_000, String::from_str("拘束"), false);
    push_cell(&mut cells, 19_000, String::from_str("牽引"), false);
    push_cell(&mut cells, 19_000, String::from_str("家畜"), false);
    push_cell(&mut cells, 19_000, String::from_str("追加"), false);
    assert(cells_view(cells@) =~= allowance_heading());
    cells
}

/// The overtime and allowance counters of a summary.
pub fn allowance_row(summary: &TimecardSummary) -> (r: Vec<TableCell>)
    ensures
        cells_view(r@) == allowance_cells(*summary),
{
    let mut cells: Vec<TableCell> = Vec::new();
    assert(cells_view(cells@) =~= Seq::empty());
    push_cell(&mut cells, 19_000, format_tenths(summary.total_zangyo), false);
    push_cell(&mut cells, 19_000, format_duration(summary.total_kosoku), false);
    push_cell(&mut cells, 19_000, format_count(summary.trailer as i64), false);
    push_cell(&mut cells, 19_000, format_count(summary.kachiku as i64), false);
    push_cell(&mut cells, 19_000, format_count(summary.tsuika as i64), false);
    assert(cells_view(cells@) =~= allowance_cells(*summary));
    cells
}

/// The cells of a row lie side by side: together they are at most as wide
/// as their number times the largest cell width.
pub proof fn lemma_total_width_bounds(cells: Seq<CellView>)
    requires
        row_ok(cells),
    ensures
        0 <= total_width(cells) <= cells.len() * MAX_CELL_WIDTH,
    decreases cells.len(),
{
    if cells.len() > 0 {
        let rest = cells.drop_last();
        assert(row_ok(rest)) by {
            assert forall|k: int| 0 <= k < rest.len() implies 0 <= (#[trigger] rest[k]).width
                <= MAX_CELL_WIDTH by {
                assert(rest[k] == cells[k]);
            }
        }
        lemma_total_width_bounds(rest);
        assert((cells.len() - 1) * MAX_CELL_WIDTH + MAX_CELL_WIDTH == cells.len() * MAX_CELL_WIDTH)
            by (nonlinear_arith);
    }
}

/// Drawing a row changes neither the page size, the number of pages, the
/// font size nor the hyperlinks.
pub proof fn lemma_row_frame(s: DocView, x: int, y: int, h: int, cells: Seq<CellView>)
    ensures
        same_frame(s, with_row(s, x, y, h, cells)),
        with_row(s, x, y, h, cells).links == s.links,
    decreases cells.len(),
{
    if cells.len() > 0 {
        let before = with_row(s, x, y, h, cells.drop_last());
        lemma_row_frame(s, x, y, h, cells.drop_last());
        let left = x + total_width(cells.drop_last());
        let top = snap_down(y, TABLE_GRID as int);
        let cell = cells.last();
        lemma_cell_frame(
            before,
            left,
            top,
            cell.width,
            h,
            shown(cell.text),
            Align::Center,
            true,
            false,
        );
        lemma_cell_frame(
            with_fill_color(before, gray()),
            left,
            top,
            cell.width,
            h,
            shown(cell.text),
            Align::Center,
            true,
            true,
        );
    }
}

/// Drawing the rows of days changes neither the page size, the number of
/// pages, the font size nor the hyperlinks.
pub proof fn lemma_day_rows_frame(s: DocView, x: int, y: int, days: Seq<DayRecord>)
    ensures
        same_frame(s, with_day_rows(s, x, y, days)),
        with_day_rows(s, x, y, days).links == s.links,
    decreases days.len(),
{
    if days.len() > 0 {
        lemma_day_rows_frame(s, x, y, days.drop_last());
        lemma_row_frame(
            with_day_rows(s, x, y, days.drop_last()),
            x,
            y + ROW_HEIGHT * (days.len() - 1),
            ROW_HEIGHT as int,
            day_cells(days.last()),
        );
    }
}

/// Drawing the day list changes neither the page size, the number of
/// pages, the font size nor the hyperlinks.
pub proof fn lemma_day_list_frame(s: DocView, x: int, y: int, days: Seq<DayRecord>)
    ensures
        same_frame(s, with_day_list(s, x, y, days)),
        with_day_list(s, x, y, days).links == s.links,
{
    let headed = with_row(s, x, y, ROW_HEIGHT as int, day_list_heading());
    lemma_row_frame(s, x, y, ROW_HEIGHT as int, day_list_heading());
    lemma_day_rows_frame(headed, x, y + ROW_HEIGHT, days);
}

/// Drawing the summary changes neither the page size, the number of
/// pages, the font size nor the hyperlinks.
pub proof fn lemma_summary_frame(s: DocView, x: int, y: int, summary: TimecardSummary)
    ensures
        same_frame(s, with_summary(s, x, y, summary)),
        with_summary(s, x, y, summary).links == s.links,
{
    let h = ROW_HEIGHT as int;
    let first = with_row(s, x, y, h, attendance_heading());
    let second = with_row(first, x, y + h, h, attendance_cells(summary));
    let third = with_row(second, x, y + 2 * h, h, allowance_heading());
    lemma_row_frame(s, x, y, h, attendance_heading());
    lemma_row_frame(first, x, y + h, h, attendance_cells(summary));
    lemma_row_frame(second, x, y + 2 * h, h, allowance_heading());
    lemma_row_frame(third, x, y + 3 * h, h, allowance_cells(summary));
}

impl TcpdfCompat {
    /// Draws a table cell on the table grid.
    pub fn table_cell(&mut self, x: i64, y: i32, w: i64, h: i64, text: &str, shaded: bool)
        requires
            is_coord(x as int),
            is_coord(w as int),
            is_coord(h as int),
        ensures
            final(self)@ == with_table_cell(
                old(self)@,
                x as int,
                y as int,
                w as int,
                h as int,
                text@,
                shaded,
            ),
    {
        let top: i64 = snap_to_grid(y, TABLE_GRID);
        if shaded {
            self.fill_color = Color { r: 220, g: 220, b: 220 };
            self.draw_cell(x, top, w, h, shown_text(text), Align::Center, true, true);
            self.fill_color = Color { r: 0, g: 0, b: 0 };
        } else {
            self.draw_cell(x, top, w, h, shown_text(text), Align::Center, true, false);
        }
    }

    /// Draws a row of cells from left to right, the first starting at `x`.
    pub fn draw_row(&mut self, x: i64, y: i32, h: i64, cells: &Vec<TableCell>)
        requires
            -MAX_ROW_START <= x <= MAX_ROW_START,
            is_coord(h as int),
            row_ok(cells_view(cells@)),
        ensures
            final(self)@ == with_row(old(self)@, x as int, y as int, h as int, cells_view(cells@)),
    {
        let mut left: i64 = x;
        let mut k: usize = 0;
        while k < cells.len()
            invariant
                k <= cells.len(),
                -MAX_ROW_START <= x <= MAX_ROW_START,
                is_coord(h as int),
                row_ok(cells_view(cells@)),
                left == x + total_width(cells_view(cells@).take(k as int)),
                0 <= total_width(cells_view(cells@).take(k as int)) <= k * MAX_CELL_WIDTH,
                self@ == with_row(
                    old(self)@,
                    x as int,
                    y as int,
                    h as int,
                    cells_view(cells@).take(k as int),
                ),
            decreases cells.len() - k,
        {
            let cell: &TableCell = &cells[k];
            proof {
                let all = cells_view(cells@);
                assert(all.take(k + 1).drop_last() =~= all.take(k as int));
                assert(all.take(k + 1).last() == cell@);
                assert(0 <= all[k as int].width <= MAX_CELL_WIDTH);
                assert(k * MAX_CELL_WIDTH <= 99 * MAX_CELL_WIDTH) by (nonlinear_arith)
                    requires
                        k <= 99,
                ;
                assert((k + 1) * MAX_CELL_WIDTH == k * MAX_CELL_WIDTH + MAX_CELL_WIDTH)
                    by (nonlinear_arith);
            }
            self.table_cell(left, y, cell.width, h, cell.text.as_str(), cell.shaded);
            left = left + cell.width;
            k = k + 1;
        }
        proof {
            assert(cells_view(cells@).take(cells@.len() as int) =~= cells_view(cells@));
        }
    }

    /// Draws the day list: its heading with the top edge at `y`, and below
    /// it one row for each day.
    pub fn draw_day_list(&mut self, x: i64, y: i32, days: &Vec<DayRecord>)
        requires
            -MAX_ROW_START <= x <= MAX_ROW_START,
            -1_000_000_000 <= y <= 1_000_000_000,
            days.len() <= 31,
        ensures
            final(self)@ == with_day_list(old(self)@, x as int, y as int, days@),
    {
        let heading: Vec<TableCell> = day_list_heading_row();
        self.draw_row(x, y, ROW_HEIGHT as i64, &heading);
        let first: i32 = y + ROW_HEIGHT;
        let ghost start = self@;
        let mut i: usize = 0;
        while i < days.len()
            invariant
                i <= days.len() <= 31,
                -MAX_ROW_START <= x <= MAX_ROW_START,
                first == y + ROW_HEIGHT,
                -1_000_000_000 <= y <= 1_000_000_000,
                self@ == with_day_rows(start, x as int, first as int, days@.take(i as int)),
            decreases days.len() - i,
        {
            proof {
                assert(days@.take(i + 1).drop_last() =~= days@.take(i as int));
            }
            let row: Vec<TableCell> = day_row(&days[i]);
            let top: i32 = first + ROW_HEIGHT * (i as i32);
            self.draw_row(x, top, ROW_HEIGHT as i64, &row);
            i = i + 1;
        }
        proof {
            assert(days@.take(days@.len() as int) =~= days@);
        }
    }

    /// Draws the summary of a month in four rows from `y` down.
    pub fn draw_summary(&mut self, x: i64, y: i32, summary: &TimecardSummary)
        requires
            -MAX_ROW_START <= x <= MAX_ROW_START,
            -1_000_000_000 <= y <= 1_000_000_000,
        ensures
            final(self)@ == with_summary(old(self)@, x as int, y as int, *summary),
    {
        let h: i64 = ROW_HEIGHT as i64;
        let heading: Vec<TableCell> = attendance_heading_row();
        self.draw_row(x, y, h, &heading);
        let counters: Vec<TableCell> = attendance_row(summary);
        self.draw_row(x, y + ROW_HEIGHT, h, &counters);
        let heading: Vec<TableCell> = allowance_heading_row();
        self.draw_row(x, y + 2 * ROW_HEIGHT, h, &heading);
        let counters: Vec<TableCell> = allowance_row(summary);
        self.draw_row(x, y + 3 * ROW_HEIGHT, h, &counters);
    }
}

} // verus!
