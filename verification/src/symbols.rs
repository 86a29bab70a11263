//! The marks that stand for a day in the calendar layout, and the sorting
//! of days into categories.

use vstd::prelude::*;
use crate::timecard_data::{classify_remark, remark_of, DayRecord, Remark};

verus! {

/// What kind of day a record describes.
#[derive(Clone, Copy, Debug, PartialEq, Eq, Structural)]
pub enum DayCategory {
    /// A day with at least one clock-in or clock-out.
    Worked,
    /// A day without punches but with a work report.
    Administrative,
    /// A day without punches or work report whose remark is a kind of leave.
    Leave,
    /// Any other day.
    Unclassified,
}

/// How many days of a month fall into each category.
#[derive(Clone, Copy, Debug, PartialEq, Eq, Structural)]
pub struct CategoryCounts {
    pub worked: usize,
    pub administrative: usize,
    pub leave: usize,
    pub unclassified: usize,
}

/// Whether a remark is a kind of leave: a day off, paid leave or special
/// leave.
pub open spec fn is_leave(remarks: Seq<char>) -> bool {
    let kind = remark_of(remarks);
    kind == Remark::DayOff || kind == Remark::PaidLeave || kind == Remark::SpecialLeave
}

/// Whether a day has a clock-in or a clock-out.
pub open spec fn has_punch(day: DayRecord) -> bool {
    day.clock_in@.len() > 0 || day.clock_out@.len() > 0
}

/// The marks of the `k`th pair of clock-in and clock-out: an opening
/// bracket for the clock-in, a closing one for the clock-out, square where
/// tachograph data exists and angular where it does not.
pub open spec fn pair_marks(day: DayRecord, k: int) -> Seq<char> {
    let open: Seq<char> = if day.clock_in@.len() > k {
        if day.has_digitacho {
            seq!['[']
        } else {
            seq!['<']
        }
    } else {
        Seq::empty()
    };
    let close: Seq<char> = if day.clock_out@.len() > k {
        if day.has_digitacho {
            seq![']']
        } else {
            seq!['>']
        }
    } else {
        Seq::empty()
    };
    open + close
}

/// The mark of a day of leave.
pub open spec fn leave_mark(day: DayRecord) -> Seq<char> {
    if is_leave(day.remarks@) {
        seq!['X']
    } else {
        Seq::empty()
    }
}

/// The mark of a day without punches: a star where only tachograph data
/// exists, a plus where only a constraint time exists, nothing otherwise.
pub open spec fn fallback_mark(day: DayRecord) -> Seq<char> {
    if has_punch(day) {
        Seq::empty()
    } else if day.has_digitacho {
        seq!['*']
    } else if day.kosoku_minutes is Some {
        seq!['+']
    } else {
        Seq::empty()
    }
}

/// The attendance symbol of a day: the marks of its first and second pair
/// of punches, its leave mark and its fallback mark.
pub open spec fn attendance_marks(day: DayRecord) -> Seq<char> {
    pair_marks(day, 0) + pair_marks(day, 1) + leave_mark(day) + fallback_mark(day)
}

/// The allowance marks of a day: one for livestock transport, one for a
/// trailer, one for a work report.
pub open spec fn allowance_marks(day: DayRecord) -> Seq<char> {
    (if day.is_kachiku {
        "畜"@
    } else {
        Seq::empty()
    }) + (if day.is_trailer {
        "引"@
    } else {
        Seq::empty()
    }) + (if day.has_daily_report {
        "作"@
    } else {
        Seq::empty()
    })
}

/// The category of a day.
pub open spec fn category_of(day: DayRecord) -> DayCategory {
    if has_punch(day) {
        DayCategory::Worked
    } else if day.has_daily_report {
        DayCategory::Administrative
    } else if is_leave(day.remarks@) {
        DayCategory::Leave
    } else {
        DayCategory::Unclassified
    }
}

/// Number of days of a category among `days`.
pub open spec fn category_count(days: Seq<DayRecord>, category: DayCategory) -> nat
    decreases days.len(),
{
    if days.len() == 0 {
        0
    } else {
        category_count(days.drop_last(), category) + if category_of(days.last()) == category {
            1nat
        } else {
            0nat
        }
    }
}

/// Number of days that are neither worked, administrative nor leave: the
/// days of the month less those three counts.
pub open spec fn unclassified_days(days: Seq<DayRecord>) -> int {
    days.len() - category_count(days, DayCategory::Worked) - category_count(
        days,
        DayCategory::Administrative,
    ) - category_count(days, DayCategory::Leave)
}

/// Tests `is_leave`.
pub fn remark_is_leave(remarks: &str) -> (r: bool)
    ensures
        r == is_leave(remarks@),
{
    match classify_remark(remarks) {
        Remark::DayOff => true,
        Remark::PaidLeave => true,
        Remark::SpecialLeave => true,
        _ => false,
    }
}

/// Appends the marks of the `k`th pair of punches of `day` to `out`.
fn push_pair_marks(out: &mut String, day: &DayRecord, k: usize)
    ensures
        final(out)@ == old(out)@ + pair_marks(*day, k as int),
{
    proof {
        reveal_strlit("[");
        reveal_strlit("]");
        reveal_strlit("<");
        reveal_strlit(">");
    }
    if day.clock_in.len() > k {
        if day.has_digitacho {
            out.append("[");
        } else {
            out.append("<");
        }
    }
    if day.clock_out.len() > k {
        if day.has_digitacho {
            out.append("]");
        } else {
            out.append(">");
        }
    }
    assert(out@ =~= old(out)@ + pair_marks(*day, k as int));
}

/// The attendance symbol of a day.
pub fn attendance_symbol(day: &DayRecord) -> (r: String)
    ensures
        r@ == attendance_marks(*day),
{
    proof {
        reveal_strlit("X");
        reveal_strlit("*");
        reveal_strlit("+");
    }
    let mut out: String = String::new();
    push_pair_marks(&mut out, day, 0);
    push_pair_marks(&mut out, day, 1);
    if remark_is_leave(day.remarks.as_str()) {
        out.append("X");
    }
    if day.clock_in.len() == 0 && day.clock_out.len() == 0 {
        if day.has_digitacho {
            out.append("*");
        } else if day.kosoku_minutes.is_some() {
            out.append("+");
        }
    }
    assert(out@ =~= attendance_marks(*day));
    out
}

/// The allowance marks of a day.
pub fn allowance_symbol(day: &DayRecord) -> (r: String)
    ensures
        r@ == allowance_marks(*day),
{
    let mut out: String = String::new();
    if day.is_kachiku {
        out.append("畜");
    }
    if day.is_trailer {
        out.append("引");
    }
    if day.has_daily_report {
        out.append("作");
    }
    assert(out@ =~= allowance_marks(*day));
    out
}

/// The category of a day.
pub fn day_category(day: &DayRecord) -> (r: DayCategory)
    ensures
        r == category_of(*day),
{
    if day.clock_in.len() > 0 || day.clock_out.len() > 0 {
        DayCategory::Worked
    } else if day.has_daily_report {
        DayCategory::Administrative
    } else if remark_is_leave(day.remarks.as_str()) {
        DayCategory::Leave
    } else {
        DayCategory::Unclassified
    }
}

/// Counts the days of each category.
pub fn count_categories(days: &Vec<DayRecord>) -> (r: CategoryCounts)
    ensures
        r.worked == category_count(days@, DayCategory::Worked),
        r.administrative == category_count(days@, DayCategory::Administrative),
        r.leave == category_count(days@, DayCategory::Leave),
        r.unclassified == unclassified_days(days@),
{
    let mut worked: usize = 0;
    let mut administrative: usize = 0;
    let mut leave: usize = 0;
    let mut i: usize = 0;
    while i < days.len()
        invariant
            i <= days.len(),
            worked == category_count(days@.take(i as int), DayCategory::Worked),
            administrative == category_count(days@.take(i as int), DayCategory::Administrative),
            leave == category_count(days@.take(i as int), DayCategory::Leave),
            worked + administrative + leave <= i,
        decreases days.len() - i,
    {
        proof {
            assert(days@.take(i + 1).drop_last() =~= days@.take(i as int));
        }
        match day_category(&days[i]) {
            DayCategory::Worked => {
                worked = worked + 1;
            },
            DayCategory::Administrative => {
                administrative = administrative + 1;
            },
            DayCategory::Leave => {
                leave = leave + 1;
            },
            DayCategory::Unclassified => {},
        }
        i = i + 1;
    }
    proof {
        assert(days@.take(days@.len() as int) =~= days@);
    }
    CategoryCounts {
        worked,
        administrative,
        leave,
        unclassified: days.len() - worked - administrative - leave,
    }
}

/// Every day falls into exactly one category: the days left over by the
/// three named categories are the unclassified ones, and never fewer than
/// none.
pub proof fn lemma_categories_partition(days: Seq<DayRecord>)
    ensures
        unclassified_days(days) == category_count(days, DayCategory::Unclassified),
        unclassified_days(days) >= 0,
    decreases days.len(),
{
    if days.len() > 0 {
        lemma_categories_partition(days.drop_last());
    }
}

/// A day with one clock-in, no clock-out and no tachograph data, whose
/// remark is no leave, is marked by a single opening angle.
pub proof fn lemma_open_punch_mark(day: DayRecord)
    requires
        day.clock_in@.len() == 1,
        day.clock_out@.len() == 0,
        !day.has_digitacho,
        !is_leave(day.remarks@),
    ensures
        attendance_marks(day) == seq!['<'],
{
    assert(attendance_marks(day) =~= seq!['<']);
}

/// A day with one clock-in, one clock-out and tachograph data, whose
/// remark is no leave, is marked by a pair of square brackets.
pub proof fn lemma_closed_digital_mark(day: DayRecord)
    requires
        day.clock_in@.len() == 1,
        day.clock_out@.len() == 1,
        day.has_digitacho,
        !is_leave(day.remarks@),
    ensures
        attendance_marks(day) == seq!['[', ']'],
{
    assert(attendance_marks(day) =~= seq!['[', ']']);
}

/// A day of leave without punches, tachograph data or constraint time is
/// marked by the leave mark alone.
pub proof fn lemma_leave_mark(day: DayRecord)
    requires
        day.clock_in@.len() == 0,
        day.clock_out@.len() == 0,
        !day.has_digitacho,
        day.kosoku_minutes is None,
        is_leave(day.remarks@),
    ensures
        attendance_marks(day) == seq!['X'],
{
    assert(attendance_marks(day) =~= seq!['X']);
}

} // verus!
