//! Putting the records of a month together: where the punches, remarks,
//! constraint times, trips, overtime and allowances of a subject go in
//! the records of the days of the month.
//!
//! Every step takes the day of the month it is about. A day that the
//! month does not have changes nothing.

use vstd::prelude::*;
use crate::calendar::{day_number, days_in_month, get_days_in_month};
use crate::dates::{date_number, valid_date, Date, DateTime};
use crate::text::{push_two_digits, str_eq, two_digit_text};
use crate::timecard_data::{days_view, times_view, DayRecord, DayView};
use crate::units::clamp;

verus! {

/// State of a punch that starts work.
pub const PUNCH_IN: i32 = 30;

/// State of a punch that ends work.
pub const PUNCH_OUT: i32 = 31;

/// Largest number of clock-ins, and of clock-outs, of a day.
pub const MAX_PUNCHES: usize = 2;

/// An allowance that a day can carry.
#[derive(Clone, Copy, Debug, PartialEq, Eq, Structural)]
pub enum Allowance {
    /// Livestock transport.
    Kachiku,
    /// Trailer.
    Trailer,
}

/// A time of day as hours and minutes, each in two digits.
pub open spec fn time_text(hour: int, minute: int) -> Seq<char> {
    two_digit_text(hour as nat) + seq![':'] + two_digit_text(minute as nat)
}

/// The records after the record of `day` was replaced by `changed`.
pub open spec fn with_day(days: Seq<DayView>, day: int, changed: DayView) -> Seq<DayView> {
    if 1 <= day <= days.len() {
        days.update(day - 1, changed)
    } else {
        days
    }
}

/// The record of `day`, or of the first day if the month does not have
/// that day.
pub open spec fn day_of(days: Seq<DayView>, day: int) -> DayView {
    if 1 <= day <= days.len() {
        days[day - 1]
    } else {
        days[0]
    }
}

/// The record of a day after a punch: a punch that starts work is a
/// clock-in, one that ends work a clock-out, each only while the day has
/// fewer than two of its kind.
pub open spec fn punched(d: DayView, state: int, time: Seq<char>) -> DayView {
    if state == PUNCH_IN && d.clock_in.len() < MAX_PUNCHES {
        DayView { clock_in: d.clock_in.push(time), ..d }
    } else if state == PUNCH_OUT && d.clock_out.len() < MAX_PUNCHES {
        DayView { clock_out: d.clock_out.push(time), ..d }
    } else {
        d
    }
}

/// The record of a day after a time was entered by hand: a clock-in if
/// the day has no more clock-ins than clock-outs and fewer than two, else
/// a clock-out if it has fewer than two.
pub open spec fn injected(d: DayView, time: Seq<char>) -> DayView {
    if d.clock_in.len() <= d.clock_out.len() && d.clock_in.len() < MAX_PUNCHES {
        DayView { clock_in: d.clock_in.push(time), ..d }
    } else if d.clock_out.len() < MAX_PUNCHES {
        DayView { clock_out: d.clock_out.push(time), ..d }
    } else {
        d
    }
}

/// The records after a punch at `at`.
pub open spec fn with_punch(days: Seq<DayView>, at: DateTime, state: int) -> Seq<DayView> {
    let day = at.date.day as int;
    with_day(days, day, punched(day_of(days, day), state, time_text(at.hour as int, at.minute as int)))
}

/// The records after a time entered by hand.
pub open spec fn with_inject(days: Seq<DayView>, at: DateTime) -> Seq<DayView> {
    let day = at.date.day as int;
    with_day(days, day, injected(day_of(days, day), time_text(at.hour as int, at.minute as int)))
}

/// The records after the remark of `day` was set.
pub open spec fn with_remark(days: Seq<DayView>, day: int, remark: Seq<char>) -> Seq<DayView> {
    with_day(days, day, DayView { remarks: remark, ..day_of(days, day) })
}

/// The records after the constraint time of `day` was set.
pub open spec fn with_constraint_time(days: Seq<DayView>, day: int, minutes: i32) -> Seq<DayView> {
    with_day(days, day, DayView { kosoku_minutes: Some(minutes), ..day_of(days, day) })
}

/// The records after the first `count` of a list of constraint times by
/// day were set, in the order of the list.
pub open spec fn with_constraint_times(days: Seq<DayView>, times: Seq<(u32, i32)>, count: int)
    -> Seq<DayView>
    decreases count,
{
    if count <= 0 {
        days
    } else {
        with_constraint_time(
            with_constraint_times(days, times, count - 1),
            times[count - 1].0 as int,
            times[count - 1].1,
        )
    }
}

/// The records after the constraint times from punches and then those from
/// tachograph records were set: where both give a time for a day, the one
/// from tachograph records stays.
pub open spec fn with_merged_constraint_times(
    days: Seq<DayView>,
    punches: Seq<(u32, i32)>,
    tachograph: Seq<(u32, i32)>,
) -> Seq<DayView> {
    with_constraint_times(
        with_constraint_times(days, punches, punches.len() as int),
        tachograph,
        tachograph.len() as int,
    )
}

/// The allowance that the days on the road of a subject of the given
/// category carry: livestock transport or trailer for the category of that
/// name, none for any other category or none.
pub open spec fn category_allowance(name: Option<Seq<char>>) -> Option<Allowance> {
    match name {
        Some(n) => if n == "家畜車"@ {
            Some(Allowance::Kachiku)
        } else if n == "トレーラー"@ {
            Some(Allowance::Trailer)
        } else {
            None
        },
        None => None,
    }
}

/// The records after `day` was marked as having tachograph data.
pub open spec fn with_digitacho(days: Seq<DayView>, day: int) -> Seq<DayView> {
    with_day(days, day, DayView { has_digitacho: true, ..day_of(days, day) })
}

/// The records after `tenths` tenths of an hour were added to the
/// overtime of `day`, the sum limited to what a record holds.
pub open spec fn with_overtime(days: Seq<DayView>, day: int, tenths: int) -> Seq<DayView> {
    let d = day_of(days, day);
    let so_far: int = match d.zangyo {
        Some(z) => z as int,
        None => 0,
    };
    with_day(
        days,
        day,
        DayView {
            zangyo: Some(clamp(so_far + tenths, i32::MIN as int, i32::MAX as int) as i32),
            ..d
        },
    )
}

/// The record of a day after it was given an allowance.
pub open spec fn allowed(d: DayView, allowance: Allowance) -> DayView {
    match allowance {
        Allowance::Kachiku => DayView { is_kachiku: true, ..d },
        Allowance::Trailer => DayView { is_trailer: true, ..d },
    }
}

/// The records after `day` was given an allowance.
pub open spec fn with_allowance(days: Seq<DayView>, day: int, allowance: Allowance) -> Seq<
    DayView,
> {
    with_day(days, day, allowed(day_of(days, day), allowance))
}

/// Whether day `day` of a month exists and lies between two dates, both
/// included.
pub open spec fn covered(year: int, month: int, day: int, start: Date, end: Date) -> bool {
    &&& 1 <= day <= days_in_month(year, month)
    &&& date_number(start) <= day_number(year, month, day) <= date_number(end)
}

/// The records after a trip from `start` to `end` was marked: if the trip
/// ends on a later day than it starts, each of its days in the month that
/// has no remark yet is remarked as away.
pub open spec fn with_trip(days: Seq<DayView>, year: int, month: int, start: Date, end: Date)
    -> Seq<DayView> {
    Seq::new(
        days.len(),
        |i: int|
            if date_number(end) > date_number(start) && covered(year, month, i + 1, start, end)
                && days[i].remarks.len() == 0 {
                DayView { remarks: "出"@, ..days[i] }
            } else {
                days[i]
            },
    )
}

/// The records after the days of a month between two dates, both
/// included, were given an allowance, but for the days listed in `off`.
pub open spec fn with_allowance_days(
    days: Seq<DayView>,
    year: int,
    month: int,
    start: Date,
    end: Date,
    off: Seq<u32>,
    allowance: Allowance,
) -> Seq<DayView> {
    Seq::new(
        days.len(),
        |i: int|
            if covered(year, month, i + 1, start, end) && !off.contains((i + 1) as u32) {
                allowed(days[i], allowance)
            } else {
                days[i]
            },
    )
}

/// Whether a trip entered without its parts counts as time away: not if
/// its parts are entered as well, nor if it is overtime in Hokkaido, nor
/// if it is hidden.
pub open spec fn trip_counts(has_parts: bool, purpose: Option<Seq<char>>, shown: int) -> bool {
    !has_parts && purpose != Some("北海道残業"@) && shown != 0
}

/// Days of a month before a subject was hired: the days from the first of
/// the month to the day of hiring, at most the days of the month; none if
/// the subject was hired on or before the first.
pub open spec fn days_before_hire(year: int, month: int, hire: Option<Date>) -> int {
    match hire {
        Some(h) => {
            let first = day_number(year, month, 1);
            if date_number(h) > first {
                if date_number(h) - first < days_in_month(year, month) {
                    date_number(h) - first
                } else {
                    days_in_month(year, month)
                }
            } else {
                0
            }
        },
        None => 0,
    }
}

/// Days of a month after a subject retired: the days from the day of
/// retirement to the last of the month, at most the days of the month;
/// none if the subject retires after the month.
pub open spec fn days_after_retire(year: int, month: int, retire: Option<Date>) -> int {
    match retire {
        Some(r) => {
            let last = day_number(year, month, days_in_month(year, month));
            if date_number(r) <= last {
                if last - date_number(r) < days_in_month(year, month) {
                    last - date_number(r)
                } else {
                    days_in_month(year, month)
                }
            } else {
                0
            }
        },
        None => 0,
    }
}

/// A time of day as hours and minutes.
pub fn format_time(hour: u32, minute: u32) -> (r: String)
    ensures
        r@ == time_text(hour as int, minute as int),
{
    proof {
        reveal_strlit(":");
    }
    let mut out: String = String::new();
    push_two_digits(&mut out, hour as u64);
    out.append(":");
    push_two_digits(&mut out, minute as u64);
    assert(out@ =~= time_text(hour as int, minute as int));
    out
}

/// Enters a punch.
pub fn record_punch(days: &mut Vec<DayRecord>, at: &DateTime, state: i32)
    ensures
        days_view(final(days)@) == with_punch(days_view(old(days)@), *at, state as int),
{
    let day: u32 = at.date.day;
    if 1 <= day && day as usize <= days.len() {
        let i: usize = (day - 1) as usize;
        let time: String = format_time(at.hour, at.minute);
        if state == PUNCH_IN && days[i].clock_in.len() < MAX_PUNCHES {
            days[i].clock_in.push(time);
            assert(times_view(days[i as int].clock_in@) =~= times_view(
                old(days)[i as int].clock_in@,
            ).push(time@));
        } else if state == PUNCH_OUT && days[i].clock_out.len() < MAX_PUNCHES {
            days[i].clock_out.push(time);
            assert(times_view(days[i as int].clock_out@) =~= times_view(
                old(days)[i as int].clock_out@,
            ).push(time@));
        }
    }
    assert(days_view(days@) =~= with_punch(days_view(old(days)@), *at, state as int));
}

/// Enters a time that was entered by hand.
pub fn record_inject(days: &mut Vec<DayRecord>, at: &DateTime)
    ensures
        days_view(final(days)@) == with_inject(days_view(old(days)@), *at),
{
    let day: u32 = at.date.day;
    if 1 <= day && day as usize <= days.len() {
        let i: usize = (day - 1) as usize;
        let time: String = format_time(at.hour, at.minute);
        if days[i].clock_in.len() <= days[i].clock_out.len() && days[i].clock_in.len()
            < MAX_PUNCHES {
            days[i].clock_in.push(time);
            assert(times_view(days[i as int].clock_in@) =~= times_view(
                old(days)[i as int].clock_in@,
            ).push(time@));
        } else if days[i].clock_out.len() < MAX_PUNCHES {
            days[i].clock_out.push(time);
            assert(times_view(days[i as int].clock_out@) =~= times_view(
                old(days)[i as int].clock_out@,
            ).push(time@));
        }
    }
    assert(days_view(days@) =~= with_inject(days_view(old(days)@), *at));
}

/// Sets the remark of a day.
pub fn set_remark(days: &mut Vec<DayRecord>, day: u32, remark: String)
    ensures
        days_view(final(days)@) == with_remark(days_view(old(days)@), day as int, remark@),
{
    if 1 <= day && day as usize <= days.len() {
        days[(day - 1) as usize].remarks = remark;
    }
    assert(days_view(days@) =~= with_remark(days_view(old(days)@), day as int, remark@));
}

/// Sets the constraint time of a day.
pub fn set_constraint_time(days: &mut Vec<DayRecord>, day: u32, minutes: i32)
    ensures
        days_view(final(days)@) == with_constraint_time(
            days_view(old(days)@),
            day as int,
            minutes,
        ),
{
    if 1 <= day && day as usize <= days.len() {
        days[(day - 1) as usize].kosoku_minutes = Some(minutes);
    }
    assert(days_view(days@) =~= with_constraint_time(days_view(old(days)@), day as int, minutes));
}

/// Sets the constraint times of a list by day, in the order of the list:
/// of two times for one day the later one stays.
pub fn set_constraint_times(days: &mut Vec<DayRecord>, times: &Vec<(u32, i32)>)
    ensures
        days_view(final(days)@) == with_constraint_times(
            days_view(old(days)@),
            times@,
            times.len() as int,
        ),
{
    let mut k: usize = 0;
    while k < times.len()
        invariant
            k <= times.len(),
            days_view(days@) == with_constraint_times(days_view(old(days)@), times@, k as int),
        decreases times.len() - k,
    {
        set_constraint_time(days, times[k].0, times[k].1);
        k = k + 1;
    }
}

/// Sets the constraint times of a month from punches and from tachograph
/// records; a time from tachograph records replaces one from punches.
pub fn merge_constraint_times(
    days: &mut Vec<DayRecord>,
    punches: &Vec<(u32, i32)>,
    tachograph: &Vec<(u32, i32)>,
)
    ensures
        days_view(final(days)@) == with_constraint_times(
            with_constraint_times(days_view(old(days)@), punches@, punches.len() as int),
            tachograph@,
            tachograph.len() as int,
        ),
        days_view(final(days)@) == with_merged_constraint_times(
            days_view(old(days)@),
            punches@,
            tachograph@,
        ),
{
    set_constraint_times(days, punches);
    set_constraint_times(days, tachograph);
}

/// The allowance that the days on the road of a subject of the given
/// category carry.
pub fn allowance_of_category(name: Option<&str>) -> (r: Option<Allowance>)
    ensures
        r == category_allowance(
            match name {
                Some(n) => Some(n@),
                None => None,
            },
        ),
{
    match name {
        Some(n) => {
            if str_eq(n, "家畜車") {
                Some(Allowance::Kachiku)
            } else if str_eq(n, "トレーラー") {
                Some(Allowance::Trailer)
            } else {
                None
            }
        },
        None => None,
    }
}

/// Marks a day as having tachograph data.
pub fn mark_digitacho(days: &mut Vec<DayRecord>, day: u32)
    ensures
        days_view(final(days)@) == with_digitacho(days_view(old(days)@), day as int),
{
    if 1 <= day && day as usize <= days.len() {
        days[(day - 1) as usize].has_digitacho = true;
    }
    assert(days_view(days@) =~= with_digitacho(days_view(old(days)@), day as int));
}

/// Adds overtime, in tenths of an hour, to that of a day.
pub fn add_overtime(days: &mut Vec<DayRecord>, day: u32, tenths: i32)
    ensures
        days_view(final(days)@) == with_overtime(days_view(old(days)@), day as int, tenths as int),
{
    if 1 <= day && day as usize <= days.len() {
        let i: usize = (day - 1) as usize;
        let so_far: i64 = match days[i].zangyo {
            Some(z) => z as i64,
            None => 0,
        };
        let sum: i64 = so_far + tenths as i64;
        let limited: i32 = if sum < i32::MIN as i64 {
            i32::MIN
        } else if sum > i32::MAX as i64 {
            i32::MAX
        } else {
            sum as i32
        };
        days[i].zangyo = Some(limited);
    }
    assert(days_view(days@) =~= with_overtime(days_view(old(days)@), day as int, tenths as int));
}

/// Gives a day an allowance.
pub fn flag_allowance(days: &mut Vec<DayRecord>, day: u32, allowance: Allowance)
    ensures
        days_view(final(days)@) == with_allowance(days_view(old(days)@), day as int, allowance),
{
    if 1 <= day && day as usize <= days.len() {
        let i: usize = (day - 1) as usize;
        match allowance {
            Allowance::Kachiku => {
                days[i].is_kachiku = true;
            },
            Allowance::Trailer => {
                days[i].is_trailer = true;
            },
        }
    }
    assert(days_view(days@) =~= with_allowance(days_view(old(days)@), day as int, allowance));
}

/// Whether a day of the month is listed.
pub fn listed(off: &Vec<u32>, day: u32) -> (r: bool)
    ensures
        r == off@.contains(day),
{
    let mut k: usize = 0;
    while k < off.len()
        invariant
            k <= off.len(),
            forall|j: int| 0 <= j < k ==> off[j] != day,
        decreases off.len() - k,
    {
        if off[k] == day {
            return true;
        }
        k = k + 1;
    }
    false
}

/// Marks the days of a trip as away.
pub fn mark_trip_days(days: &mut Vec<DayRecord>, year: i32, month: u32, start: &Date, end: &Date)
    requires
        1 <= month <= 12,
        valid_date(*start),
        valid_date(*end),
    ensures
        days_view(final(days)@) == with_trip(
            days_view(old(days)@),
            year as int,
            month as int,
            *start,
            *end,
        ),
{
    let from: i64 = start.number();
    let to: i64 = end.number();
    let count: usize = get_days_in_month(year, month) as usize;
    let mut i: usize = 0;
    while i < days.len()
        invariant
            i <= days.len(),
            days.len() == old(days).len(),
            1 <= month <= 12,
            from == date_number(*start),
            to == date_number(*end),
            count == days_in_month(year as int, month as int),
            forall|j: int|
                0 <= j < i ==> (#[trigger] days_view(days@)[j]) == with_trip(
                    days_view(old(days)@),
                    year as int,
                    month as int,
                    *start,
                    *end,
                )[j],
            forall|j: int| i <= j < days.len() ==> (#[trigger] days[j]) == old(days)[j],
        decreases days.len() - i,
    {
        let ghost before = days@;
        if to > from && i < count {
            let date = Date { year, month, day: (i + 1) as u32 };
            let number: i64 = date.number();
            if from <= number && number <= to && days[i].remarks.unicode_len() == 0 {
                days[i].remarks = String::from_str("出");
            }
        }
        proof {
            let goal = with_trip(days_view(old(days)@), year as int, month as int, *start, *end);
            assert forall|j: int| 0 <= j < i + 1 implies (#[trigger] days_view(days@)[j])
                == goal[j] by {
                if j < i {
                    assert(days[j] == before[j]);
                    assert(days_view(before)[j] == goal[j]);
                } else {
                    assert(before[j] == old(days)[j]);
                    assert(days_view(old(days)@)[j] == old(days)[j]@);
                }
            }
        }
        i = i + 1;
    }
    assert(days_view(days@) =~= with_trip(
        days_view(old(days)@),
        year as int,
        month as int,
        *start,
        *end,
    ));
}

/// Gives the days of a month between two dates an allowance, but for the
/// days listed in `off`.
pub fn mark_allowance_days(
    days: &mut Vec<DayRecord>,
    year: i32,
    month: u32,
    start: &Date,
    end: &Date,
    off: &Vec<u32>,
    allowance: Allowance,
)
    requires
        1 <= month <= 12,
        valid_date(*start),
        valid_date(*end),
    ensures
        days_view(final(days)@) == with_allowance_days(
            days_view(old(days)@),
            year as int,
            month as int,
            *start,
            *end,
            off@,
            allowance,
        ),
{
    let from: i64 = start.number();
    let to: i64 = end.number();
    let count: usize = get_days_in_month(year, month) as usize;
    let mut i: usize = 0;
    while i < days.len()
        invariant
            i <= days.len(),
            days.len() == old(days).len(),
            1 <= month <= 12,
            from == date_number(*start),
            to == date_number(*end),
            count == days_in_month(year as int, month as int),
            forall|j: int|
                0 <= j < i ==> (#[trigger] days_view(days@)[j]) == with_allowance_days(
                    days_view(old(days)@),
                    year as int,
                    month as int,
                    *start,
                    *end,
                    off@,
                    allowance,
                )[j],
            forall|j: int| i <= j < days.len() ==> (#[trigger] days[j]) == old(days)[j],
        decreases days.len() - i,
    {
        let ghost before = days@;
        if i < count {
            let date = Date { year, month, day: (i + 1) as u32 };
            let number: i64 = date.number();
            if from <= number && number <= to && !listed(off, (i + 1) as u32) {
                match allowance {
                    Allowance::Kachiku => {
                        days[i].is_kachiku = true;
                    },
                    Allowance::Trailer => {
                        days[i].is_trailer = true;
                    },
                }
            }
        }
        proof {
            let goal = with_allowance_days(
                days_view(old(days)@),
                year as int,
                month as int,
                *start,
                *end,
                off@,
                allowance,
            );
            assert forall|j: int| 0 <= j < i + 1 implies (#[trigger] days_view(days@)[j])
                == goal[j] by {
                if j < i {
                    assert(days[j] == before[j]);
                    assert(days_view(before)[j] == goal[j]);
                } else {
                    assert(before[j] == old(days)[j]);
                    assert(days_view(old(days)@)[j] == old(days)[j]@);
                }
            }
        }
        i = i + 1;
    }
    assert(days_view(days@) =~= with_allowance_days(
        days_view(old(days)@),
        year as int,
        month as int,
        *start,
        *end,
        off@,
        allowance,
    ));
}

/// Whether a trip entered without its parts counts as time away.
pub fn counts_as_trip(has_parts: bool, purpose: Option<&str>, shown: i32) -> (r: bool)
    ensures
        r == trip_counts(
            has_parts,
            match purpose {
                Some(p) => Some(p@),
                None => None,
            },
            shown as int,
        ),
{
    if has_parts {
        return false;
    }
    let excluded: bool = match purpose {
        Some(p) => str_eq(p, "北海道残業"),
        None => false,
    };
    !excluded && shown != 0
}

/// Days of a month before a subject was hired and after the subject
/// retired.
pub fn hire_retire_counts(year: i32, month: u32, hire: Option<Date>, retire: Option<Date>) -> (r:
    (i32, i32))
    requires
        1 <= month <= 12,
        hire matches Some(h) ==> valid_date(h),
        retire matches Some(d) ==> valid_date(d),
    ensures
        r.0 == days_before_hire(year as int, month as int, hire),
        r.1 == days_after_retire(year as int, month as int, retire),
{
    let count: u8 = get_days_in_month(year, month);
    let first: i64 = (Date { year, month, day: 1 }).number();
    let last: i64 = (Date { year, month, day: count as u32 }).number();
    let before: i32 = match hire {
        Some(h) => {
            let number: i64 = h.number();
            if number > first {
                if number - first < count as i64 {
                    (number - first) as i32
                } else {
                    count as i32
                }
            } else {
                0
            }
        },
        None => 0,
    };
    let after: i32 = match retire {
        Some(d) => {
            let number: i64 = d.number();
            if number <= last {
                if last - number < count as i64 {
                    (last - number) as i32
                } else {
                    count as i32
                }
            } else {
                0
            }
        },
        None => 0,
    };
    (before, after)
}

} // verus!
