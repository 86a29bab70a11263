//! Constraint time from tachograph records: the minutes of each day of a
//! month that the recorded activities of its trips cover.

use vstd::prelude::*;
use crate::dates::{
    hours_between,
    midnight,
    minutes_left,
    minutes_between,
    seconds_between,
    instant,
    toward_zero,
    valid_datetime,
    Date,
    DateTime,
    div_toward_zero,
    SECONDS_PER_DAY,
};
use crate::kosoku::{
    amounts,
    bounded,
    credit,
    credit_day,
    empty_amounts,
    lemma_bounded_weaken,
    magnitude,
    no_amounts,
    DAY_SLOTS,
};
use crate::text::str_eq;

verus! {

/// Largest number of activities, and of ferry passages, of one trip.
pub const MAX_TRIP_ITEMS: usize = 0x1000_0000;

/// An activity recorded during a trip, with its length in minutes.
#[derive(Clone, Copy, Debug, PartialEq, Eq, Structural)]
pub struct Span {
    pub start: DateTime,
    pub end: DateTime,
    pub minutes: i32,
}

/// What a correction mark does to the time that follows it.
#[derive(Clone, Copy, Debug, PartialEq, Eq, Structural)]
pub enum MarkKind {
    /// Opens a stretch that does not count.
    Opens,
    /// Closes such a stretch.
    Closes,
    /// Neither.
    Neither,
}

/// A correction mark of a trip.
#[derive(Clone, Copy, Debug, PartialEq, Eq, Structural)]
pub struct Mark {
    pub at: DateTime,
    pub kind: MarkKind,
}

/// A ferry passage of a trip.
#[derive(Clone, Copy, Debug, PartialEq, Eq, Structural)]
pub struct Ferry {
    pub start: DateTime,
    pub end: DateTime,
}

/// A stretch of time that does not count, both ends included.
#[derive(Clone, Copy, Debug, PartialEq, Eq, Structural)]
pub struct Exclusion {
    pub from: DateTime,
    pub to: DateTime,
}

/// What was recorded of one trip: its activities, including the rests
/// that count after all, its correction marks in chronological order, and
/// its ferry passages.
#[derive(Clone, Debug)]
pub struct Trip {
    pub spans: Vec<Span>,
    pub marks: Vec<Mark>,
    pub ferries: Vec<Ferry>,
}

/// What a correction mark of the given name and state does: the start of
/// a drive and the end of a rest (state 21) open a stretch that does not
/// count, the end of a drive and the start of a rest (state 20) close it.
pub open spec fn mark_kind_of(name: Seq<char>, state: Option<i32>) -> MarkKind {
    if name == "運行開始"@ || (name == "休息"@ && state == Some(21i32)) {
        MarkKind::Opens
    } else if name == "運行終了"@ || (name == "休息"@ && state == Some(20i32)) {
        MarkKind::Closes
    } else {
        MarkKind::Neither
    }
}

/// Whether everything recorded of a trip exists as a date and time, and
/// the trip is no longer than a trip can be.
pub open spec fn trip_ok(trip: Trip) -> bool {
    &&& trip.spans.len() <= MAX_TRIP_ITEMS
    &&& trip.ferries.len() <= MAX_TRIP_ITEMS
    &&& forall|i: int|
        0 <= i < trip.spans.len() ==> valid_datetime((#[trigger] trip.spans[i]).start)
            && valid_datetime(trip.spans[i].end)
    &&& forall|i: int| 0 <= i < trip.marks.len() ==> valid_datetime((#[trigger] trip.marks[i]).at)
    &&& forall|i: int|
        0 <= i < trip.ferries.len() ==> valid_datetime((#[trigger] trip.ferries[i]).start)
            && valid_datetime(trip.ferries[i].end)
}

/// Whether a date is a day of the given month.
pub open spec fn in_month(d: Date, year: int, month: int) -> bool {
    d.year == year && d.month == month
}

/// The stretches that do not count, from the correction marks at and
/// after position `from`: each mark that opens a stretch and is directly
/// followed by one that closes it gives the stretch between the two.
pub open spec fn exclusions_from(marks: Seq<Mark>, from: int) -> Seq<Exclusion>
    decreases marks.len() - from,
{
    if from < 0 || from >= marks.len() {
        Seq::empty()
    } else if marks[from].kind == MarkKind::Opens && from + 1 < marks.len() && marks[from
        + 1].kind == MarkKind::Closes {
        seq![Exclusion { from: marks[from].at, to: marks[from + 1].at }] + exclusions_from(
            marks,
            from + 2,
        )
    } else {
        exclusions_from(marks, from + 1)
    }
}

/// Whether an activity that starts at `start` lies in one of the
/// stretches that do not count.
pub open spec fn is_excluded(start: DateTime, stretches: Seq<Exclusion>) -> bool {
    exists|k: int|
        0 <= k < stretches.len() && instant((#[trigger] stretches[k]).from) <= instant(start)
            <= instant(stretches[k].to)
}

/// What an activity adds to the minutes by day: within a day of the
/// month its recorded length; across midnight the minutes before midnight
/// to its first day and the minutes after midnight to its last, each if it
/// is a day of the month.
pub open spec fn span_effect(t: Seq<Option<int>>, span: Span, year: int, month: int) -> Seq<
    Option<int>,
> {
    if span.start.date == span.end.date {
        if in_month(span.start.date, year, month) {
            credit(t, span.start.date.day as int, span.minutes as int)
        } else {
            t
        }
    } else {
        let first = if in_month(span.start.date, year, month) {
            credit(t, span.start.date.day as int, minutes_left(span.start))
        } else {
            t
        };
        if in_month(span.end.date, year, month) {
            credit(
                first,
                span.end.date.day as int,
                minutes_between(midnight(span.end.date), span.end),
            )
        } else {
            first
        }
    }
}

/// What a ferry passage of less than four full hours takes off the
/// minutes by day: within a day of the month its length; across midnight,
/// if it is shorter than a day, the minutes before midnight off its first
/// day, if they are less than four full hours, and the minutes after
/// midnight off its last, each if it is a day of the month.
pub open spec fn ferry_effect(t: Seq<Option<int>>, ferry: Ferry, year: int, month: int) -> Seq<
    Option<int>,
> {
    let hours = hours_between(ferry.start, ferry.end);
    if ferry.start.date == ferry.end.date {
        if in_month(ferry.start.date, year, month) && hours < 4 {
            credit(t, ferry.start.date.day as int, -minutes_between(ferry.start, ferry.end))
        } else {
            t
        }
    } else if hours < 4 && toward_zero(seconds_between(ferry.start, ferry.end), SECONDS_PER_DAY as int)
        == 0 {
        let before = minutes_left(ferry.start);
        let first = if in_month(ferry.start.date, year, month) && before / 60 < 4 {
            credit(t, ferry.start.date.day as int, -before)
        } else {
            t
        };
        if in_month(ferry.end.date, year, month) {
            credit(
                first,
                ferry.end.date.day as int,
                -minutes_between(midnight(ferry.end.date), ferry.end),
            )
        } else {
            first
        }
    } else {
        t
    }
}

/// The minutes by day after the first `count` activities of a trip, those
/// left out that lie in a stretch that does not count.
pub open spec fn spans_effect(
    t: Seq<Option<int>>,
    spans: Seq<Span>,
    stretches: Seq<Exclusion>,
    year: int,
    month: int,
    count: int,
) -> Seq<Option<int>>
    decreases count,
{
    if count <= 0 {
        t
    } else {
        let before = spans_effect(t, spans, stretches, year, month, count - 1);
        if is_excluded(spans[count - 1].start, stretches) {
            before
        } else {
            span_effect(before, spans[count - 1], year, month)
        }
    }
}

/// The minutes by day after the first `count` ferry passages of a trip.
pub open spec fn ferries_effect(
    t: Seq<Option<int>>,
    ferries: Seq<Ferry>,
    year: int,
    month: int,
    count: int,
) -> Seq<Option<int>>
    decreases count,
{
    if count <= 0 {
        t
    } else {
        ferry_effect(
            ferries_effect(t, ferries, year, month, count - 1),
            ferries[count - 1],
            year,
            month,
        )
    }
}

/// The minutes by day after a trip: its activities first, then its ferry
/// passages.
pub open spec fn trip_effect(t: Seq<Option<int>>, trip: Trip, year: int, month: int) -> Seq<
    Option<int>,
> {
    let stretches = exclusions_from(trip.marks@, 0);
    let worked = spans_effect(t, trip.spans@, stretches, year, month, trip.spans.len() as int);
    ferries_effect(worked, trip.ferries@, year, month, trip.ferries.len() as int)
}

/// The minutes by day after the first `count` trips.
pub open spec fn trips_effect(trips: Seq<Trip>, year: int, month: int, count: int) -> Seq<
    Option<int>,
>
    decreases count,
{
    if count <= 0 {
        no_amounts()
    } else {
        trip_effect(trips_effect(trips, year, month, count - 1), trips[count - 1], year, month)
    }
}

/// The constraint time of each day of a month, from the trips that touch
/// it.
pub open spec fn digitacho_kosoku(trips: Seq<Trip>, year: int, month: int) -> Seq<Option<int>> {
    trips_effect(trips, year, month, trips.len() as int)
}

/// Reads a correction mark.
pub fn mark_kind(name: &str, state: Option<i32>) -> (r: MarkKind)
    ensures
        r == mark_kind_of(name@, state),
{
    let rest: bool = str_eq(name, "休息");
    let state_is_21: bool = match state {
        Some(v) => v == 21,
        None => false,
    };
    let state_is_20: bool = match state {
        Some(v) => v == 20,
        None => false,
    };
    if str_eq(name, "運行開始") || (rest && state_is_21) {
        MarkKind::Opens
    } else if str_eq(name, "運行終了") || (rest && state_is_20) {
        MarkKind::Closes
    } else {
        MarkKind::Neither
    }
}

/// The stretches that do not count, from the correction marks of a trip.
pub fn exclusions(marks: &Vec<Mark>) -> (r: Vec<Exclusion>)
    ensures
        r@ == exclusions_from(marks@, 0),
{
    let mut out: Vec<Exclusion> = Vec::new();
    let mut i: usize = 0;
    while i < marks.len()
        invariant
            i <= marks.len(),
            out@ + exclusions_from(marks@, i as int) == exclusions_from(marks@, 0),
        decreases marks.len() - i,
    {
        let opens: bool = match marks[i].kind {
            MarkKind::Opens => true,
            _ => false,
        };
        let closes: bool = i + 1 < marks.len() && match marks[i + 1].kind {
            MarkKind::Closes => true,
            _ => false,
        };
        if opens && closes {
            let stretch = Exclusion { from: marks[i].at, to: marks[i + 1].at };
            proof {
                assert(out@.push(stretch) + exclusions_from(marks@, i + 2) =~= out@ + (seq![
                    stretch,
                ] + exclusions_from(marks@, i + 2)));
            }
            out.push(stretch);
            i = i + 2;
        } else {
            i = i + 1;
        }
    }
    proof {
        assert(out@ + exclusions_from(marks@, marks.len() as int) =~= out@);
    }
    out
}

/// Whether an activity that starts at `start` lies in a stretch that does
/// not count.
pub fn excluded(start: &DateTime, stretches: &Vec<Exclusion>) -> (r: bool)
    requires
        valid_datetime(*start),
        forall|k: int|
            0 <= k < stretches.len() ==> valid_datetime((#[trigger] stretches[k]).from)
                && valid_datetime(stretches[k].to),
    ensures
        r == is_excluded(*start, stretches@),
{
    let at: i128 = start.instant();
    let mut k: usize = 0;
    while k < stretches.len()
        invariant
            k <= stretches.len(),
            at == instant(*start),
            forall|j: int|
                0 <= j < stretches.len() ==> valid_datetime((#[trigger] stretches[j]).from)
                    && valid_datetime(stretches[j].to),
            forall|j: int|
                0 <= j < k ==> !(instant((#[trigger] stretches[j]).from) <= instant(*start)
                    <= instant(stretches[j].to)),
        decreases stretches.len() - k,
    {
        if stretches[k].from.instant() <= at && at <= stretches[k].to.instant() {
            return true;
        }
        k = k + 1;
    }
    false
}

/// The stretches from marks that exist as dates and times exist too.
pub proof fn lemma_exclusions_valid(marks: Seq<Mark>, from: int)
    requires
        forall|i: int| 0 <= i < marks.len() ==> valid_datetime((#[trigger] marks[i]).at),
    ensures
        forall|k: int|
            0 <= k < exclusions_from(marks, from).len() ==> valid_datetime(
                (#[trigger] exclusions_from(marks, from)[k]).from,
            ) && valid_datetime(exclusions_from(marks, from)[k].to),
    decreases marks.len() - from,
{
    if from < 0 || from >= marks.len() {
        assert(exclusions_from(marks, from).len() == 0);
    } else if marks[from].kind == MarkKind::Opens && from + 1 < marks.len() && marks[from
        + 1].kind == MarkKind::Closes {
        lemma_exclusions_valid(marks, from + 2);
        let rest = exclusions_from(marks, from + 2);
        let all = exclusions_from(marks, from);
        assert(valid_datetime(marks[from].at));
        assert(valid_datetime(marks[from + 1].at));
        assert forall|k: int| 0 <= k < all.len() implies valid_datetime((#[trigger] all[k]).from)
            && valid_datetime(all[k].to) by {
            if k > 0 {
                assert(all[k] == rest[k - 1]);
            } else {
                assert(all[0] == Exclusion { from: marks[from].at, to: marks[from + 1].at });
            }
        }
    } else {
        lemma_exclusions_valid(marks, from + 1);
        assert(exclusions_from(marks, from) == exclusions_from(marks, from + 1));
    }
}

/// Adds what an activity adds.
fn apply_span(
    totals: &mut Vec<Option<i128>>,
    span: &Span,
    year: i32,
    month: u32,
    bound: Ghost<int>,
)
    requires
        valid_datetime(span.start),
        valid_datetime(span.end),
        bounded(amounts(old(totals)@), bound@),
        0 <= bound@ <= 0x4000_0000_0000_0000_0000_0000_0000_0000,
    ensures
        final(totals).len() == old(totals).len(),
        amounts(final(totals)@) == span_effect(
            amounts(old(totals)@),
            *span,
            year as int,
            month as int,
        ),
        bounded(amounts(final(totals)@), bound@ + 0x1_0000_0000),
{
    let starts_in: bool = span.start.date.year == year && span.start.date.month == month;
    let ends_in: bool = span.end.date.year == year && span.end.date.month == month;
    if span.start.date == span.end.date {
        if starts_in {
            credit_day(totals, span.start.date.day, span.minutes as i128, bound);
        }
    } else {
        if starts_in {
            credit_day(totals, span.start.date.day, span.start.minutes_to_next_day() as i128, bound);
        }
        let ghost wider: int = bound@ + 0x8000_0000;
        proof {
            if starts_in {
                lemma_bounded_weaken(amounts(totals@), bound@ + 1440, wider);
            } else {
                lemma_bounded_weaken(amounts(totals@), bound@, wider);
            }
        }
        if ends_in {
            credit_day(totals, span.end.date.day, span.end.minute_of_day() as i128, Ghost(wider));
        }
    }
    proof {
        if span.start.date == span.end.date {
            if starts_in {
                lemma_bounded_weaken(
                    amounts(totals@),
                    bound@ + magnitude(span.minutes as int),
                    bound@ + 0x1_0000_0000,
                );
            } else {
                lemma_bounded_weaken(amounts(totals@), bound@, bound@ + 0x1_0000_0000);
            }
        } else if ends_in {
            lemma_bounded_weaken(
                amounts(totals@),
                bound@ + 0x8000_0000 + magnitude(minutes_between(midnight(span.end.date), span.end)),
                bound@ + 0x1_0000_0000,
            );
        } else {
            lemma_bounded_weaken(amounts(totals@), bound@ + 0x8000_0000, bound@ + 0x1_0000_0000);
        }
    }
}

/// Takes off what a ferry passage takes off.
fn apply_ferry(
    totals: &mut Vec<Option<i128>>,
    ferry: &Ferry,
    year: i32,
    month: u32,
    bound: Ghost<int>,
)
    requires
        valid_datetime(ferry.start),
        valid_datetime(ferry.end),
        bounded(amounts(old(totals)@), bound@),
        0 <= bound@ <= 0x4000_0000_0000_0000_0000_0000_0000_0000,
    ensures
        final(totals).len() == old(totals).len(),
        amounts(final(totals)@) == ferry_effect(
            amounts(old(totals)@),
            *ferry,
            year as int,
            month as int,
        ),
        bounded(amounts(final(totals)@), bound@ + 0x1_0000_0000),
{
    let starts_in: bool = ferry.start.date.year == year && ferry.start.date.month == month;
    let ends_in: bool = ferry.end.date.year == year && ferry.end.date.month == month;
    let hours: i64 = ferry.start.hours_until(&ferry.end);
    if ferry.start.date == ferry.end.date {
        if starts_in && hours < 4 {
            let minutes: i64 = ferry.start.minutes_until(&ferry.end);
            credit_day(totals, ferry.start.date.day, -(minutes as i128), bound);
            proof {
                lemma_bounded_weaken(
                    amounts(totals@),
                    bound@ + magnitude(-(minutes as int)),
                    bound@ + 0x1_0000_0000,
                );
            }
        } else {
            proof {
                lemma_bounded_weaken(amounts(totals@), bound@, bound@ + 0x1_0000_0000);
            }
        }
    } else {
        let days: i128 = div_toward_zero(
            ferry.start.seconds_until(&ferry.end) as i128,
            SECONDS_PER_DAY as i128,
        );
        if hours < 4 && days == 0 {
            let before: i64 = ferry.start.minutes_to_next_day();
            if starts_in && before / 60 < 4 {
                credit_day(totals, ferry.start.date.day, -(before as i128), bound);
            }
            let ghost wider: int = bound@ + 1440;
            proof {
                if starts_in && before / 60 < 4 {
                    lemma_bounded_weaken(
                        amounts(totals@),
                        bound@ + magnitude(-(before as int)),
                        wider,
                    );
                } else {
                    lemma_bounded_weaken(amounts(totals@), bound@, wider);
                }
            }
            if ends_in {
                credit_day(
                    totals,
                    ferry.end.date.day,
                    -(ferry.end.minute_of_day() as i128),
                    Ghost(wider),
                );
                proof {
                    lemma_bounded_weaken(
                        amounts(totals@),
                        wider + magnitude(-minutes_between(midnight(ferry.end.date), ferry.end)),
                        bound@ + 0x1_0000_0000,
                    );
                }
            } else {
                proof {
                    lemma_bounded_weaken(amounts(totals@), wider, bound@ + 0x1_0000_0000);
                }
            }
        } else {
            proof {
                lemma_bounded_weaken(amounts(totals@), bound@, bound@ + 0x1_0000_0000);
            }
        }
    }
}

/// Adds what a trip adds.
fn apply_trip(
    totals: &mut Vec<Option<i128>>,
    trip: &Trip,
    year: i32,
    month: u32,
    bound: Ghost<int>,
)
    requires
        trip_ok(*trip),
        bounded(amounts(old(totals)@), bound@),
        0 <= bound@ <= 0x2000_0000_0000_0000_0000_0000_0000_0000,
    ensures
        final(totals).len() == old(totals).len(),
        amounts(final(totals)@) == trip_effect(
            amounts(old(totals)@),
            *trip,
            year as int,
            month as int,
        ),
        bounded(amounts(final(totals)@), bound@ + 0x2000_0000_0000_0000),
{
    let stretches: Vec<Exclusion> = exclusions(&trip.marks);
    proof {
        lemma_exclusions_valid(trip.marks@, 0);
    }
    let mut i: usize = 0;
    while i < trip.spans.len()
        invariant
            i <= trip.spans.len(),
            trip_ok(*trip),
            stretches@ == exclusions_from(trip.marks@, 0),
            forall|k: int|
                0 <= k < stretches.len() ==> valid_datetime((#[trigger] stretches[k]).from)
                    && valid_datetime(stretches[k].to),
            totals.len() == old(totals).len(),
            0 <= bound@ <= 0x2000_0000_0000_0000_0000_0000_0000_0000,
            amounts(totals@) == spans_effect(
                amounts(old(totals)@),
                trip.spans@,
                stretches@,
                year as int,
                month as int,
                i as int,
            ),
            bounded(amounts(totals@), bound@ + i * 0x1_0000_0000),
        decreases trip.spans.len() - i,
    {
        proof {
            assert(i * 0x1_0000_0000 <= 0x1000_0000 * 0x1_0000_0000) by (nonlinear_arith)
                requires
                    i <= 0x1000_0000,
            ;
            assert((i + 1) * 0x1_0000_0000 == i * 0x1_0000_0000 + 0x1_0000_0000)
                by (nonlinear_arith);
        }
        let span: &Span = &trip.spans[i];
        if !excluded(&span.start, &stretches) {
            apply_span(totals, span, year, month, Ghost(bound@ + i * 0x1_0000_0000));
        } else {
            proof {
                lemma_bounded_weaken(
                    amounts(totals@),
                    bound@ + i * 0x1_0000_0000,
                    bound@ + (i + 1) * 0x1_0000_0000,
                );
            }
        }
        i = i + 1;
    }
    let ghost worked = amounts(totals@);
    let ghost base: int = bound@ + 0x1000_0000 * 0x1_0000_0000;
    proof {
        assert(i * 0x1_0000_0000 <= 0x1000_0000 * 0x1_0000_0000) by (nonlinear_arith)
            requires
                i <= 0x1000_0000,
        ;
        lemma_bounded_weaken(amounts(totals@), bound@ + i * 0x1_0000_0000, base);
    }
    let mut j: usize = 0;
    while j < trip.ferries.len()
        invariant
            j <= trip.ferries.len(),
            trip_ok(*trip),
            totals.len() == old(totals).len(),
            0 <= bound@ <= 0x2000_0000_0000_0000_0000_0000_0000_0000,
            base == bound@ + 0x1000_0000 * 0x1_0000_0000,
            amounts(totals@) == ferries_effect(
                worked,
                trip.ferries@,
                year as int,
                month as int,
                j as int,
            ),
            bounded(amounts(totals@), base + j * 0x1_0000_0000),
        decreases trip.ferries.len() - j,
    {
        proof {
            assert(j * 0x1_0000_0000 <= 0x1000_0000 * 0x1_0000_0000) by (nonlinear_arith)
                requires
                    j <= 0x1000_0000,
            ;
            assert((j + 1) * 0x1_0000_0000 == j * 0x1_0000_0000 + 0x1_0000_0000)
                by (nonlinear_arith);
        }
        apply_ferry(totals, &trip.ferries[j], year, month, Ghost(base + j * 0x1_0000_0000));
        j = j + 1;
    }
    proof {
        assert(j * 0x1_0000_0000 <= 0x1000_0000 * 0x1_0000_0000) by (nonlinear_arith)
            requires
                j <= 0x1000_0000,
        ;
        lemma_bounded_weaken(
            amounts(totals@),
            base + j * 0x1_0000_0000,
            bound@ + 0x2000_0000_0000_0000,
        );
    }
}

/// The constraint time of each day of a month, from the trips that touch
/// it. The entry at position `d` holds the minutes of day `d`, if the
/// trips give it any.
pub fn kosoku_digitacho(trips: &Vec<Trip>, year: i32, month: u32) -> (r: Vec<Option<i128>>)
    requires
        forall|i: int| 0 <= i < trips.len() ==> trip_ok(#[trigger] trips[i]),
    ensures
        amounts(r@) == digitacho_kosoku(trips@, year as int, month as int),
        r.len() == DAY_SLOTS,
{
    let mut totals: Vec<Option<i128>> = empty_amounts();
    let mut i: usize = 0;
    while i < trips.len()
        invariant
            i <= trips.len(),
            totals.len() == DAY_SLOTS,
            forall|k: int| 0 <= k < trips.len() ==> trip_ok(#[trigger] trips[k]),
            amounts(totals@) == trips_effect(trips@, year as int, month as int, i as int),
            bounded(amounts(totals@), i * 0x2000_0000_0000_0000),
        decreases trips.len() - i,
    {
        proof {
            assert(i * 0x2000_0000_0000_0000 <= 0x1_0000_0000_0000_0000 * 0x2000_0000_0000_0000)
                by (nonlinear_arith)
                requires
                    i <= 0x1_0000_0000_0000_0000,
            ;
            assert((i + 1) * 0x2000_0000_0000_0000 == i * 0x2000_0000_0000_0000
                + 0x2000_0000_0000_0000) by (nonlinear_arith);
        }
        apply_trip(&mut totals, &trips[i], year, month, Ghost(i * 0x2000_0000_0000_0000));
        i = i + 1;
    }
    totals
}

} // verus!
