//! Rows as a database returns them, with dates and times as text: where
//! the rows of a subject's month go in the records of its days, and what
//! they say of punches and trips.
//!
//! A row whose date or time cannot be read is passed over, but among the
//! tachograph records, where it spoils the whole.

use vstd::prelude::*;
use crate::attendance::{
    add_overtime,
    counts_as_trip,
    flag_allowance,
    hire_retire_counts,
    days_after_retire,
    days_before_hire,
    mark_allowance_days,
    mark_trip_days,
    record_inject,
    record_punch,
    set_remark,
    trip_counts,
    with_allowance,
    with_allowance_days,
    with_inject,
    with_overtime,
    with_punch,
    with_remark,
    with_trip,
    Allowance,
};
use crate::dates::{date_at, date_time_at, parse_date, parse_date_time, valid_datetime, Date};
use crate::digitacho::{mark_kind, mark_kind_of, Ferry, Mark, Span};
use crate::kosoku::{event_kind, event_kind_of, TimeEvent};
use crate::text::str_eq;
use crate::timecard_data::{days_view, DayRecord, DayView};

verus! {

/// A trip as it is entered without its parts: its number, the dates of
/// its start and end, its purpose and whether it is shown.
#[derive(Clone, Debug)]
pub struct TripRow {
    pub id: String,
    pub start: String,
    pub end: String,
    pub purpose: Option<String>,
    pub shown: i32,
}

/// The records after the first `count` punches, each a time and a state.
pub open spec fn with_punch_rows(days: Seq<DayView>, rows: Seq<(String, i32)>, count: int) -> Seq<
    DayView,
>
    decreases count,
{
    if count <= 0 {
        days
    } else {
        let before = with_punch_rows(days, rows, count - 1);
        match date_time_at(rows[count - 1].0@) {
            Some(at) => with_punch(before, at, rows[count - 1].1 as int),
            None => before,
        }
    }
}

/// The records after the first `count` times entered by hand.
pub open spec fn with_inject_rows(days: Seq<DayView>, rows: Seq<String>, count: int) -> Seq<
    DayView,
>
    decreases count,
{
    if count <= 0 {
        days
    } else {
        let before = with_inject_rows(days, rows, count - 1);
        match date_time_at(rows[count - 1]@) {
            Some(at) => with_inject(before, at),
            None => before,
        }
    }
}

/// The records after the first `count` remarks, each a date and a remark.
pub open spec fn with_remark_rows(days: Seq<DayView>, rows: Seq<(String, String)>, count: int)
    -> Seq<DayView>
    decreases count,
{
    if count <= 0 {
        days
    } else {
        let before = with_remark_rows(days, rows, count - 1);
        match date_at(rows[count - 1].0@) {
            Some(d) => with_remark(before, d.day as int, rows[count - 1].1@),
            None => before,
        }
    }
}

/// The records after the first `count` amounts of overtime, each a date
/// and tenths of an hour.
pub open spec fn with_overtime_rows(days: Seq<DayView>, rows: Seq<(String, i32)>, count: int)
    -> Seq<DayView>
    decreases count,
{
    if count <= 0 {
        days
    } else {
        let before = with_overtime_rows(days, rows, count - 1);
        match date_at(rows[count - 1].0@) {
            Some(d) => with_overtime(before, d.day as int, rows[count - 1].1 as int),
            None => before,
        }
    }
}

/// The records after the first `count` dates were given an allowance.
pub open spec fn with_allowance_rows(
    days: Seq<DayView>,
    rows: Seq<String>,
    allowance: Allowance,
    count: int,
) -> Seq<DayView>
    decreases count,
{
    if count <= 0 {
        days
    } else {
        let before = with_allowance_rows(days, rows, allowance, count - 1);
        match date_at(rows[count - 1]@) {
            Some(d) => with_allowance(before, d.day as int, allowance),
            None => before,
        }
    }
}

/// The records after the first `count` trips, each the dates of its start
/// and its end, were marked.
pub open spec fn with_trip_rows(
    days: Seq<DayView>,
    year: int,
    month: int,
    rows: Seq<(String, String)>,
    count: int,
) -> Seq<DayView>
    decreases count,
{
    if count <= 0 {
        days
    } else {
        let before = with_trip_rows(days, year, month, rows, count - 1);
        match (date_at(rows[count - 1].0@), date_at(rows[count - 1].1@)) {
            (Some(start), Some(end)) => with_trip(before, year, month, start, end),
            _ => before,
        }
    }
}

/// Whether one of the first `count` numbers is `id`.
pub open spec fn has_id(ids: Seq<String>, id: Seq<char>, count: int) -> bool {
    exists|k: int| 0 <= k < count && (#[trigger] ids[k])@ == id
}

/// What a purpose says.
pub open spec fn purpose_text(purpose: Option<String>) -> Option<Seq<char>> {
    match purpose {
        Some(p) => Some(p@),
        None => None,
    }
}

/// The records after the first `count` trips entered without their parts
/// were marked, those left out that do not count.
pub open spec fn with_direct_trip_rows(
    days: Seq<DayView>,
    year: int,
    month: int,
    rows: Seq<TripRow>,
    with_parts: Seq<String>,
    count: int,
) -> Seq<DayView>
    decreases count,
{
    if count <= 0 {
        days
    } else {
        let before = with_direct_trip_rows(days, year, month, rows, with_parts, count - 1);
        let row = rows[count - 1];
        if trip_counts(
            has_id(with_parts, row.id@, with_parts.len() as int),
            purpose_text(row.purpose),
            row.shown as int,
        ) {
            match (date_at(row.start@), date_at(row.end@)) {
                (Some(start), Some(end)) => with_trip(before, year, month, start, end),
                _ => before,
            }
        } else {
            before
        }
    }
}

/// The records after the days of the first `count` periods, each the
/// dates of its start and its end, were given an allowance, but for the
/// days listed in `off`.
pub open spec fn with_period_rows(
    days: Seq<DayView>,
    year: int,
    month: int,
    rows: Seq<(String, String)>,
    off: Seq<u32>,
    allowance: Allowance,
    count: int,
) -> Seq<DayView>
    decreases count,
{
    if count <= 0 {
        days
    } else {
        let before = with_period_rows(days, year, month, rows, off, allowance, count - 1);
        match (date_at(rows[count - 1].0@), date_at(rows[count - 1].1@)) {
            (Some(start), Some(end)) => with_allowance_days(
                before,
                year,
                month,
                start,
                end,
                off,
                allowance,
            ),
            _ => before,
        }
    }
}

/// The days of the month of the first `count` dates that can be read.
pub open spec fn days_read(rows: Seq<String>, count: int) -> Seq<u32>
    decreases count,
{
    if count <= 0 {
        Seq::empty()
    } else {
        match date_at(rows[count - 1]@) {
            Some(d) => days_read(rows, count - 1).push(d.day),
            None => days_read(rows, count - 1),
        }
    }
}

/// The punches of the first `count` rows, each a time and the name of
/// what happened, that can be read.
pub open spec fn events_read(rows: Seq<(String, String)>, count: int) -> Seq<TimeEvent>
    decreases count,
{
    if count <= 0 {
        Seq::empty()
    } else {
        match date_time_at(rows[count - 1].0@) {
            Some(at) => events_read(rows, count - 1).push(
                TimeEvent { at, kind: event_kind_of(rows[count - 1].1@) },
            ),
            None => events_read(rows, count - 1),
        }
    }
}

/// The activity of a row of start, end and minutes, if both times can be
/// read.
pub open spec fn span_read(row: (String, String, i32)) -> Option<Span> {
    match (date_time_at(row.0@), date_time_at(row.1@)) {
        (Some(start), Some(end)) => Some(Span { start, end, minutes: row.2 }),
        _ => None,
    }
}

/// The correction mark of a row of time, name and state, if the time can
/// be read.
pub open spec fn mark_read(row: (String, String, Option<i32>)) -> Option<Mark> {
    match date_time_at(row.0@) {
        Some(at) => Some(Mark { at, kind: mark_kind_of(row.1@, row.2) }),
        None => None,
    }
}

/// The ferry passage of a row of start and end, if both times can be
/// read.
pub open spec fn ferry_read(row: (String, String)) -> Option<Ferry> {
    match (date_time_at(row.0@), date_time_at(row.1@)) {
        (Some(start), Some(end)) => Some(Ferry { start, end }),
        _ => None,
    }
}

/// The date that an optional text stands for.
pub open spec fn optional_date(text: Option<&str>) -> Option<Date> {
    match text {
        Some(t) => date_at(t@),
        None => None,
    }
}

/// Enters the punches of a month.
pub fn record_punch_rows(days: &mut Vec<DayRecord>, rows: &Vec<(String, i32)>)
    ensures
        days_view(final(days)@) == with_punch_rows(
            days_view(old(days)@),
            rows@,
            rows.len() as int,
        ),
{
    let mut k: usize = 0;
    while k < rows.len()
        invariant
            k <= rows.len(),
            days_view(days@) == with_punch_rows(days_view(old(days)@), rows@, k as int),
        decreases rows.len() - k,
    {
        match parse_date_time(rows[k].0.as_str()) {
            Some(at) => record_punch(days, &at, rows[k].1),
            None => {},
        }
        k = k + 1;
    }
}

/// Enters the times of a month that were entered by hand.
pub fn record_inject_rows(days: &mut Vec<DayRecord>, rows: &Vec<String>)
    ensures
        days_view(final(days)@) == with_inject_rows(
            days_view(old(days)@),
            rows@,
            rows.len() as int,
        ),
{
    let mut k: usize = 0;
    while k < rows.len()
        invariant
            k <= rows.len(),
            days_view(days@) == with_inject_rows(days_view(old(days)@), rows@, k as int),
        decreases rows.len() - k,
    {
        match parse_date_time(rows[k].as_str()) {
            Some(at) => record_inject(days, &at),
            None => {},
        }
        k = k + 1;
    }
}

/// Sets the remarks of a month.
pub fn set_remark_rows(days: &mut Vec<DayRecord>, rows: &Vec<(String, String)>)
    ensures
        days_view(final(days)@) == with_remark_rows(
            days_view(old(days)@),
            rows@,
            rows.len() as int,
        ),
{
    let mut k: usize = 0;
    while k < rows.len()
        invariant
            k <= rows.len(),
            days_view(days@) == with_remark_rows(days_view(old(days)@), rows@, k as int),
        decreases rows.len() - k,
    {
        match parse_date(rows[k].0.as_str()) {
            Some(d) => set_remark(days, d.day, rows[k].1.clone()),
            None => {},
        }
        k = k + 1;
    }
}

/// Adds the overtime of a month.
pub fn add_overtime_rows(days: &mut Vec<DayRecord>, rows: &Vec<(String, i32)>)
    ensures
        days_view(final(days)@) == with_overtime_rows(
            days_view(old(days)@),
            rows@,
            rows.len() as int,
        ),
{
    let mut k: usize = 0;
    while k < rows.len()
        invariant
            k <= rows.len(),
            days_view(days@) == with_overtime_rows(days_view(old(days)@), rows@, k as int),
        decreases rows.len() - k,
    {
        match parse_date(rows[k].0.as_str()) {
            Some(d) => add_overtime(days, d.day, rows[k].1),
            None => {},
        }
        k = k + 1;
    }
}

/// Gives the days of a list of dates an allowance.
pub fn flag_allowance_rows(days: &mut Vec<DayRecord>, rows: &Vec<String>, allowance: Allowance)
    ensures
        days_view(final(days)@) == with_allowance_rows(
            days_view(old(days)@),
            rows@,
            allowance,
            rows.len() as int,
        ),
{
    let mut k: usize = 0;
    while k < rows.len()
        invariant
            k <= rows.len(),
            days_view(days@) == with_allowance_rows(
                days_view(old(days)@),
                rows@,
                allowance,
                k as int,
            ),
        decreases rows.len() - k,
    {
        match parse_date(rows[k].as_str()) {
            Some(d) => flag_allowance(days, d.day, allowance),
            None => {},
        }
        k = k + 1;
    }
}

/// Marks the days of the trips of a month as away.
pub fn mark_trip_rows(
    days: &mut Vec<DayRecord>,
    year: i32,
    month: u32,
    rows: &Vec<(String, String)>,
)
    requires
        1 <= month <= 12,
    ensures
        days_view(final(days)@) == with_trip_rows(
            days_view(old(days)@),
            year as int,
            month as int,
            rows@,
            rows.len() as int,
        ),
{
    let mut k: usize = 0;
    while k < rows.len()
        invariant
            k <= rows.len(),
            1 <= month <= 12,
            days_view(days@) == with_trip_rows(
                days_view(old(days)@),
                year as int,
                month as int,
                rows@,
                k as int,
            ),
        decreases rows.len() - k,
    {
        match (parse_date(rows[k].0.as_str()), parse_date(rows[k].1.as_str())) {
            (Some(start), Some(end)) => mark_trip_days(days, year, month, &start, &end),
            _ => {},
        }
        k = k + 1;
    }
}

/// Whether a number is among the numbers of a list.
pub fn contains_id(ids: &Vec<String>, id: &str) -> (r: bool)
    ensures
        r == has_id(ids@, id@, ids.len() as int),
{
    let mut k: usize = 0;
    while k < ids.len()
        invariant
            k <= ids.len(),
            !has_id(ids@, id@, k as int),
        decreases ids.len() - k,
    {
        if str_eq(ids[k].as_str(), id) {
            return true;
        }
        k = k + 1;
    }
    false
}

/// Marks the days of the trips of a month that are entered without their
/// parts as away, but for the trips that do not count.
pub fn mark_direct_trip_rows(
    days: &mut Vec<DayRecord>,
    year: i32,
    month: u32,
    rows: &Vec<TripRow>,
    with_parts: &Vec<String>,
)
    requires
        1 <= month <= 12,
    ensures
        days_view(final(days)@) == with_direct_trip_rows(
            days_view(old(days)@),
            year as int,
            month as int,
            rows@,
            with_parts@,
            rows.len() as int,
        ),
{
    let mut k: usize = 0;
    while k < rows.len()
        invariant
            k <= rows.len(),
            1 <= month <= 12,
            days_view(days@) == with_direct_trip_rows(
                days_view(old(days)@),
                year as int,
                month as int,
                rows@,
                with_parts@,
                k as int,
            ),
        decreases rows.len() - k,
    {
        let row: &TripRow = &rows[k];
        let purpose: Option<&str> = match &row.purpose {
            Some(p) => Some(p.as_str()),
            None => None,
        };
        if counts_as_trip(contains_id(with_parts, row.id.as_str()), purpose, row.shown) {
            match (parse_date(row.start.as_str()), parse_date(row.end.as_str())) {
                (Some(start), Some(end)) => mark_trip_days(days, year, month, &start, &end),
                _ => {},
            }
        }
        k = k + 1;
    }
}

/// Gives the days of the periods of a month an allowance, but for the
/// days listed in `off`.
pub fn mark_period_rows(
    days: &mut Vec<DayRecord>,
    year: i32,
    month: u32,
    rows: &Vec<(String, String)>,
    off: &Vec<u32>,
    allowance: Allowance,
)
    requires
        1 <= month <= 12,
    ensures
        days_view(final(days)@) == with_period_rows(
            days_view(old(days)@),
            year as int,
            month as int,
            rows@,
            off@,
            allowance,
            rows.len() as int,
        ),
{
    let mut k: usize = 0;
    while k < rows.len()
        invariant
            k <= rows.len(),
            1 <= month <= 12,
            days_view(days@) == with_period_rows(
                days_view(old(days)@),
                year as int,
                month as int,
                rows@,
                off@,
                allowance,
                k as int,
            ),
        decreases rows.len() - k,
    {
        match (parse_date(rows[k].0.as_str()), parse_date(rows[k].1.as_str())) {
            (Some(start), Some(end)) => mark_allowance_days(
                days,
                year,
                month,
                &start,
                &end,
                off,
                allowance,
            ),
            _ => {},
        }
        k = k + 1;
    }
}

/// The days of the month of the dates of a list that can be read.
pub fn days_of_rows(rows: &Vec<String>) -> (r: Vec<u32>)
    ensures
        r@ == days_read(rows@, rows.len() as int),
{
    let mut out: Vec<u32> = Vec::new();
    let mut k: usize = 0;
    while k < rows.len()
        invariant
            k <= rows.len(),
            out@ == days_read(rows@, k as int),
        decreases rows.len() - k,
    {
        match parse_date(rows[k].as_str()) {
            Some(d) => out.push(d.day),
            None => {},
        }
        k = k + 1;
    }
    out
}

/// The punches of a list of rows, each a time and the name of what
/// happened, that can be read.
pub fn events_from_rows(rows: &Vec<(String, String)>) -> (r: Vec<TimeEvent>)
    ensures
        r@ == events_read(rows@, rows.len() as int),
        forall|i: int| 0 <= i < r.len() ==> valid_datetime((#[trigger] r[i]).at),
{
    let mut out: Vec<TimeEvent> = Vec::new();
    let mut k: usize = 0;
    while k < rows.len()
        invariant
            k <= rows.len(),
            out@ == events_read(rows@, k as int),
            forall|i: int| 0 <= i < out.len() ==> valid_datetime((#[trigger] out[i]).at),
        decreases rows.len() - k,
    {
        match parse_date_time(rows[k].0.as_str()) {
            Some(at) => out.push(TimeEvent { at, kind: event_kind(rows[k].1.as_str()) }),
            None => {},
        }
        k = k + 1;
    }
    out
}

/// The activities of a list of rows of start, end and minutes; nothing if
/// a time of one of them cannot be read.
pub fn spans_from_rows(rows: &Vec<(String, String, i32)>) -> (r: Option<Vec<Span>>)
    ensures
        match r {
            Some(spans) => {
                &&& spans.len() == rows.len()
                &&& forall|i: int|
                    0 <= i < rows.len() ==> span_read(#[trigger] rows[i]) == Some(spans[i])
                &&& forall|i: int|
                    0 <= i < spans.len() ==> valid_datetime((#[trigger] spans[i]).start)
                        && valid_datetime(spans[i].end)
            },
            None => exists|i: int| 0 <= i < rows.len() && span_read(#[trigger] rows[i]) is None,
        },
{
    let mut out: Vec<Span> = Vec::new();
    let mut k: usize = 0;
    while k < rows.len()
        invariant
            k <= rows.len(),
            out.len() == k,
            forall|i: int| 0 <= i < k ==> span_read(#[trigger] rows[i]) == Some(out[i]),
            forall|i: int|
                0 <= i < out.len() ==> valid_datetime((#[trigger] out[i]).start) && valid_datetime(
                    out[i].end,
                ),
        decreases rows.len() - k,
    {
        match (parse_date_time(rows[k].0.as_str()), parse_date_time(rows[k].1.as_str())) {
            (Some(start), Some(end)) => out.push(Span { start, end, minutes: rows[k].2 }),
            _ => {
                assert(span_read(rows[k as int]) is None);
                return None;
            },
        }
        k = k + 1;
    }
    Some(out)
}

/// The correction marks of a list of rows of time, name and state;
/// nothing if the time of one of them cannot be read.
pub fn marks_from_rows(rows: &Vec<(String, String, Option<i32>)>) -> (r: Option<Vec<Mark>>)
    ensures
        match r {
            Some(marks) => {
                &&& marks.len() == rows.len()
                &&& forall|i: int|
                    0 <= i < rows.len() ==> mark_read(#[trigger] rows[i]) == Some(marks[i])
                &&& forall|i: int| 0 <= i < marks.len() ==> valid_datetime((#[trigger] marks[i]).at)
            },
            None => exists|i: int| 0 <= i < rows.len() && mark_read(#[trigger] rows[i]) is None,
        },
{
    let mut out: Vec<Mark> = Vec::new();
    let mut k: usize = 0;
    while k < rows.len()
        invariant
            k <= rows.len(),
            out.len() == k,
            forall|i: int| 0 <= i < k ==> mark_read(#[trigger] rows[i]) == Some(out[i]),
            forall|i: int| 0 <= i < out.len() ==> valid_datetime((#[trigger] out[i]).at),
        decreases rows.len() - k,
    {
        match parse_date_time(rows[k].0.as_str()) {
            Some(at) => out.push(Mark { at, kind: mark_kind(rows[k].1.as_str(), rows[k].2) }),
            None => {
                assert(mark_read(rows[k as int]) is None);
                return None;
            },
        }
        k = k + 1;
    }
    Some(out)
}

/// The ferry passages of a list of rows of start and end; nothing if a
/// time of one of them cannot be read.
pub fn ferries_from_rows(rows: &Vec<(String, String)>) -> (r: Option<Vec<Ferry>>)
    ensures
        match r {
            Some(ferries) => {
                &&& ferries.len() == rows.len()
                &&& forall|i: int|
                    0 <= i < rows.len() ==> ferry_read(#[trigger] rows[i]) == Some(ferries[i])
                &&& forall|i: int|
                    0 <= i < ferries.len() ==> valid_datetime((#[trigger] ferries[i]).start)
                        && valid_datetime(ferries[i].end)
            },
            None => exists|i: int| 0 <= i < rows.len() && ferry_read(#[trigger] rows[i]) is None,
        },
{
    let mut out: Vec<Ferry> = Vec::new();
    let mut k: usize = 0;
    while k < rows.len()
        invariant
            k <= rows.len(),
            out.len() == k,
            forall|i: int| 0 <= i < k ==> ferry_read(#[trigger] rows[i]) == Some(out[i]),
            forall|i: int|
                0 <= i < out.len() ==> valid_datetime((#[trigger] out[i]).start) && valid_datetime(
                    out[i].end,
                ),
        decreases rows.len() - k,
    {
        match (parse_date_time(rows[k].0.as_str()), parse_date_time(rows[k].1.as_str())) {
            (Some(start), Some(end)) => out.push(Ferry { start, end }),
            _ => {
                assert(ferry_read(rows[k as int]) is None);
                return None;
            },
        }
        k = k + 1;
    }
    Some(out)
}

/// Days of a month before a subject was hired and after the subject
/// retired, from the dates of hiring and retirement as text. A date that
/// is missing or cannot be read counts as none.
pub fn hire_retire_from_rows(year: i32, month: u32, hire: Option<&str>, retire: Option<&str>)
    -> (r: (i32, i32))
    requires
        1 <= month <= 12,
    ensures
        r.0 == days_before_hire(year as int, month as int, optional_date(hire)),
        r.1 == days_after_retire(year as int, month as int, optional_date(retire)),
{
    let hired: Option<Date> = match hire {
        Some(text) => parse_date(text),
        None => None,
    };
    let retired: Option<Date> = match retire {
        Some(text) => parse_date(text),
        None => None,
    };
    hire_retire_counts(year, month, hired, retired)
}

} // verus!
