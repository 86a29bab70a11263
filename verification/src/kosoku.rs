//! Constraint time from time-clock punches: the minutes of each day of a
//! month that lie between the start and the end of work.
//!
//! The punches of a month are read in chronological order, two neighbours
//! at a time. What a pair adds to the minutes of a day depends on the
//! kinds of the two punches.

use vstd::prelude::*;
use vstd::seq_lib::to_multiset_build;
use crate::dates::{
    days_between,
    hours_between,
    midnight,
    minutes_between,
    instant,
    minutes_left,
    toward_zero,
    valid_datetime,
    Date,
    DateTime,
};
use crate::text::str_eq;

verus! {

/// Number of entries of a list of minutes by day of the month: one for
/// each day from 1 to 31, and an unused one for 0.
pub const DAY_SLOTS: usize = 32;

/// Minutes of the midday break.
pub const MIDDAY_BREAK: i128 = 60;

/// What a punch records.
#[derive(Clone, Copy, Debug, PartialEq, Eq, Structural)]
pub enum EventKind {
    /// Start of work.
    Start,
    /// End of work.
    End,
    /// Start of a drive.
    DriveStart,
    /// End of a drive.
    DriveEnd,
    /// Start of a rest.
    RestStart,
    /// Anything else.
    Other,
}

/// A punch: what happened, and when.
#[derive(Clone, Copy, Debug, PartialEq, Eq, Structural)]
pub struct TimeEvent {
    pub at: DateTime,
    pub kind: EventKind,
}

/// What the name of a punch stands for.
pub open spec fn event_kind_of(name: Seq<char>) -> EventKind {
    if name == "始業"@ {
        EventKind::Start
    } else if name == "終業"@ {
        EventKind::End
    } else if name == "運行開始"@ {
        EventKind::DriveStart
    } else if name == "運行終了"@ {
        EventKind::DriveEnd
    } else if name == "休息開始"@ {
        EventKind::RestStart
    } else {
        EventKind::Other
    }
}

/// What a list of minutes by day says.
pub open spec fn amounts(v: Seq<Option<i128>>) -> Seq<Option<int>> {
    v.map_values(
        |o: Option<i128>|
            match o {
                Some(x) => Some(x as int),
                None => None,
            },
    )
}

/// The list in which no day has minutes.
pub open spec fn no_amounts() -> Seq<Option<int>> {
    Seq::new(DAY_SLOTS as nat, |d: int| None)
}

/// The list after `minutes` were added to those of `day`. A day without
/// minutes so far starts from none.
pub open spec fn credit(t: Seq<Option<int>>, day: int, minutes: int) -> Seq<Option<int>> {
    if 0 <= day < t.len() {
        t.update(
            day,
            Some(
                match t[day] {
                    Some(v) => v + minutes,
                    None => minutes,
                },
            ),
        )
    } else {
        t
    }
}

/// Whether no entry of a list is beyond `bound` in either direction.
pub open spec fn bounded(t: Seq<Option<int>>, bound: int) -> bool {
    forall|d: int| 0 <= d < t.len() ==> ((#[trigger] t[d]) matches Some(v) ==> -bound <= v <= bound)
}

/// A full hour of a day.
pub open spec fn on_the_hour(d: Date, hour: u32) -> DateTime {
    DateTime { date: d, hour, minute: 0, second: 0, nanosecond: 0 }
}

/// Whether `next` follows `cur` the same or the next day, less than
/// fourteen full hours later.
pub open spec fn short_gap(cur: DateTime, next: DateTime) -> bool {
    days_between(cur.date, next.date) < 2 && hours_between(cur, next) < 14
}

/// What a shift from its start `cur` to its end `next` adds. Within a day
/// it adds its length less what it shares with the midday break from 12 to
/// 13 o'clock, if it starts before noon. Across midnight it adds the
/// minutes before midnight to the first day and those after midnight to
/// the second, if that is a day of the month. A shift that ends two days
/// or more after its start adds nothing.
pub open spec fn shift_effect(
    t: Seq<Option<int>>,
    cur: DateTime,
    next: DateTime,
    days_in_month: int,
) -> Seq<Option<int>> {
    if days_between(cur.date, next.date) <= 1 {
        if cur.date == next.date {
            let day = next.date.day as int;
            let worked = credit(t, day, minutes_between(cur, next));
            let noon = on_the_hour(cur.date, 12);
            let one = on_the_hour(cur.date, 13);
            if instant(cur) < instant(noon) {
                if instant(next) > instant(one) {
                    credit(worked, day, -MIDDAY_BREAK)
                } else if instant(next) > instant(noon) {
                    credit(worked, day, -minutes_between(noon, next))
                } else {
                    worked
                }
            } else {
                worked
            }
        } else {
            let before = minutes_left(cur);
            let after = minutes_between(midnight(next.date), next);
            let first = if before > 0 {
                credit(t, cur.date.day as int, before)
            } else {
                t
            };
            if after > 0 && next.date.day <= days_in_month {
                credit(first, next.date.day as int, after)
            } else {
                first
            }
        }
    } else {
        t
    }
}

/// What two neighbouring punches add to the minutes by day.
///
/// From the start of work to the start of a drive, from the end of a
/// drive to the end of work, and from the start of a rest to the end of
/// work, the minutes in between count if both punches are of one day and
/// less than fourteen full hours apart; the first pair only if the drive
/// starts after work. From the start to the end of work a shift counts.
/// From the end of a drive to the start of the next, the minutes in
/// between count for the day of the second if they are less than twelve
/// full hours. Any other pair adds nothing.
pub open spec fn pair_effect(
    t: Seq<Option<int>>,
    cur: TimeEvent,
    next: TimeEvent,
    days_in_month: int,
) -> Seq<Option<int>> {
    let day = next.at.date.day as int;
    let minutes = minutes_between(cur.at, next.at);
    let within = short_gap(cur.at, next.at) && cur.at.date == next.at.date;
    match (cur.kind, next.kind) {
        (EventKind::Start, EventKind::DriveStart) => if instant(cur.at) < instant(next.at)
            && within {
            credit(t, day, minutes)
        } else {
            t
        },
        (EventKind::Start, EventKind::End) => shift_effect(t, cur.at, next.at, days_in_month),
        (EventKind::DriveEnd, EventKind::End) => if within {
            credit(t, day, minutes)
        } else {
            t
        },
        (EventKind::RestStart, EventKind::End) => if within {
            credit(t, day, minutes)
        } else {
            t
        },
        (EventKind::DriveEnd, EventKind::DriveStart) => {
            let hours = hours_between(cur.at, next.at);
            let days = toward_zero(hours, 24);
            if days < 1 && hours - 24 * days < 12 {
                credit(t, day, minutes)
            } else {
                t
            }
        },
        _ => t,
    }
}

/// What two neighbouring punches set aside to be taken off again: where
/// work starts the same day after a drive has started, the minutes in
/// between, for that day. A later pair of the same day replaces an
/// earlier one.
pub open spec fn pair_deduction(m: Seq<Option<int>>, cur: TimeEvent, next: TimeEvent) -> Seq<
    Option<int>,
> {
    if cur.kind == EventKind::DriveStart && next.kind == EventKind::Start && cur.at.date
        == next.at.date && 0 <= cur.at.date.day < m.len() {
        let minutes = minutes_between(cur.at, next.at);
        m.update(
            cur.at.date.day as int,
            Some(
                if minutes < 0 {
                    -minutes
                } else {
                    minutes
                },
            ),
        )
    } else {
        m
    }
}

/// The minutes by day that the first `pairs` pairs of neighbours add.
pub open spec fn credited(events: Seq<TimeEvent>, days_in_month: int, pairs: int) -> Seq<
    Option<int>,
>
    decreases pairs,
{
    if pairs <= 0 {
        no_amounts()
    } else {
        pair_effect(
            credited(events, days_in_month, pairs - 1),
            events[pairs - 1],
            events[pairs],
            days_in_month,
        )
    }
}

/// The minutes by day that the first `pairs` pairs of neighbours set
/// aside.
pub open spec fn deducted(events: Seq<TimeEvent>, pairs: int) -> Seq<Option<int>>
    decreases pairs,
{
    if pairs <= 0 {
        no_amounts()
    } else {
        pair_deduction(deducted(events, pairs - 1), events[pairs - 1], events[pairs])
    }
}

/// The minutes by day after what was set aside was taken off. A day
/// without minutes stays without.
pub open spec fn settled(t: Seq<Option<int>>, m: Seq<Option<int>>) -> Seq<Option<int>> {
    Seq::new(
        t.len(),
        |d: int|
            match (t[d], m[d]) {
                (Some(v), Some(x)) => Some(v - x),
                _ => t[d],
            },
    )
}

/// Number of pairs of neighbours among `count` punches.
pub open spec fn pair_count(count: int) -> int {
    if count <= 0 {
        0
    } else {
        count - 1
    }
}

/// The constraint time of each day of a month, from its punches in
/// chronological order.
pub open spec fn punch_kosoku(events: Seq<TimeEvent>, days_in_month: int) -> Seq<Option<int>> {
    let pairs = pair_count(events.len() as int);
    settled(credited(events, days_in_month, pairs), deducted(events, pairs))
}

/// Reads the name of a punch.
pub fn event_kind(name: &str) -> (r: EventKind)
    ensures
        r == event_kind_of(name@),
{
    if str_eq(name, "始業") {
        EventKind::Start
    } else if str_eq(name, "終業") {
        EventKind::End
    } else if str_eq(name, "運行開始") {
        EventKind::DriveStart
    } else if str_eq(name, "運行終了") {
        EventKind::DriveEnd
    } else if str_eq(name, "休息開始") {
        EventKind::RestStart
    } else {
        EventKind::Other
    }
}

/// A list in which no day has minutes.
pub fn empty_amounts() -> (r: Vec<Option<i128>>)
    ensures
        r.len() == DAY_SLOTS,
        amounts(r@) == no_amounts(),
{
    let mut v: Vec<Option<i128>> = Vec::new();
    let mut d: usize = 0;
    while d < DAY_SLOTS
        invariant
            d <= DAY_SLOTS,
            v.len() == d,
            forall|k: int| 0 <= k < d ==> (#[trigger] v[k]) is None,
        decreases DAY_SLOTS - d,
    {
        v.push(None);
        d = d + 1;
    }
    assert(amounts(v@) =~= no_amounts());
    v
}

/// The size of a number.
pub open spec fn magnitude(v: int) -> int {
    if v < 0 {
        -v
    } else {
        v
    }
}

/// Adds `minutes` to those of `day`.
pub(crate) fn credit_day(
    totals: &mut Vec<Option<i128>>,
    day: u32,
    minutes: i128,
    bound: Ghost<int>,
)
    requires
        bounded(amounts(old(totals)@), bound@),
        0 <= bound@,
        bound@ + magnitude(minutes as int) <= i128::MAX,
    ensures
        final(totals).len() == old(totals).len(),
        amounts(final(totals)@) == credit(amounts(old(totals)@), day as int, minutes as int),
        bounded(amounts(final(totals)@), bound@ + magnitude(minutes as int)),
{
    if (day as usize) < totals.len() {
        assert(amounts(totals@)[day as int] == match totals[day as int] {
            Some(x) => Some(x as int),
            None => None,
        });
        let sum: i128 = match totals[day as usize] {
            Some(v) => v + minutes,
            None => minutes,
        };
        totals.set(day as usize, Some(sum));
        assert(amounts(totals@) =~= credit(amounts(old(totals)@), day as int, minutes as int));
    }
    assert forall|d: int| 0 <= d < amounts(totals@).len() implies ((#[trigger] amounts(
        totals@,
    )[d]) matches Some(v) ==> -(bound@ + magnitude(minutes as int)) <= v <= bound@ + magnitude(
        minutes as int,
    )) by {
        if d != day {
            assert(amounts(totals@)[d] == amounts(old(totals)@)[d]);
        } else {
            assert(amounts(old(totals)@)[d] matches Some(v) ==> -bound@ <= v <= bound@);
        }
    }
}

/// A list bounded by a number is bounded by any greater number.
pub proof fn lemma_bounded_weaken(t: Seq<Option<int>>, bound: int, wider: int)
    requires
        bounded(t, bound),
        bound <= wider,
    ensures
        bounded(t, wider),
{
    assert forall|d: int| 0 <= d < t.len() implies ((#[trigger] t[d]) matches Some(v) ==> -wider
        <= v <= wider) by {
        assert(t[d] matches Some(v) ==> -bound <= v <= bound);
    }
}

/// Adds what a shift from `cur` to `next` adds.
fn apply_shift(
    totals: &mut Vec<Option<i128>>,
    cur: &DateTime,
    next: &DateTime,
    days_in_month: u8,
    bound: Ghost<int>,
)
    requires
        valid_datetime(*cur),
        valid_datetime(*next),
        bounded(amounts(old(totals)@), bound@),
        0 <= bound@ <= 0x1000_0000_0000_0000_0000_0000_0000_0000,
    ensures
        final(totals).len() == old(totals).len(),
        amounts(final(totals)@) == shift_effect(
            amounts(old(totals)@),
            *cur,
            *next,
            days_in_month as int,
        ),
        bounded(amounts(final(totals)@), bound@ + 0x400_0000_0000_0000),
{
    if cur.date.days_until(&next.date) <= 1 {
        if cur.date == next.date {
            let day: u32 = next.date.day;
            credit_day(totals, day, cur.minutes_until(next) as i128, bound);
            let noon = DateTime { date: cur.date, hour: 12, minute: 0, second: 0, nanosecond: 0 };
            let one = DateTime { date: cur.date, hour: 13, minute: 0, second: 0, nanosecond: 0 };
            let ghost wider: int = bound@ + 0x200_0000_0000_0000;
            if cur.instant() < noon.instant() {
                if next.instant() > one.instant() {
                    credit_day(totals, day, -MIDDAY_BREAK, Ghost(wider));
                } else if next.instant() > noon.instant() {
                    credit_day(totals, day, -(noon.minutes_until(next) as i128), Ghost(wider));
                }
            }
        } else {
            let before: i64 = cur.minutes_to_next_day();
            let after: i64 = next.minute_of_day();
            if before > 0 {
                credit_day(totals, cur.date.day, before as i128, bound);
            }
            let ghost wider: int = bound@ + 0x200_0000_0000_0000;
            if after > 0 && next.date.day <= days_in_month as u32 {
                credit_day(totals, next.date.day, after as i128, Ghost(wider));
            }
        }
    }
}

/// Adds what two neighbouring punches add.
fn apply_pair(
    totals: &mut Vec<Option<i128>>,
    cur: &TimeEvent,
    next: &TimeEvent,
    days_in_month: u8,
    bound: Ghost<int>,
)
    requires
        valid_datetime(cur.at),
        valid_datetime(next.at),
        bounded(amounts(old(totals)@), bound@),
        0 <= bound@ <= 0x1000_0000_0000_0000_0000_0000_0000_0000,
    ensures
        final(totals).len() == old(totals).len(),
        amounts(final(totals)@) == pair_effect(
            amounts(old(totals)@),
            *cur,
            *next,
            days_in_month as int,
        ),
        bounded(amounts(final(totals)@), bound@ + 0x400_0000_0000_0000),
{
    let day: u32 = next.at.date.day;
    let minutes: i128 = cur.at.minutes_until(&next.at) as i128;
    let within: bool = cur.at.date.days_until(&next.at.date) < 2 && cur.at.hours_until(&next.at)
        < 14 && cur.at.date == next.at.date;
    match (cur.kind, next.kind) {
        (EventKind::Start, EventKind::DriveStart) => {
            if cur.at.instant() < next.at.instant() && within {
                credit_day(totals, day, minutes, bound);
            }
        },
        (EventKind::Start, EventKind::End) => {
            apply_shift(totals, &cur.at, &next.at, days_in_month, bound);
        },
        (EventKind::DriveEnd, EventKind::End) => {
            if within {
                credit_day(totals, day, minutes, bound);
            }
        },
        (EventKind::RestStart, EventKind::End) => {
            if within {
                credit_day(totals, day, minutes, bound);
            }
        },
        (EventKind::DriveEnd, EventKind::DriveStart) => {
            let hours: i64 = cur.at.hours_until(&next.at);
            let days: i64 = crate::dates::div_toward_zero(hours as i128, 24) as i64;
            if days < 1 && hours - 24 * days < 12 {
                credit_day(totals, day, minutes, bound);
            }
        },
        _ => {},
    }
}

/// Sets aside what two neighbouring punches set aside.
fn apply_deduction(held: &mut Vec<Option<i128>>, cur: &TimeEvent, next: &TimeEvent)
    requires
        valid_datetime(cur.at),
        valid_datetime(next.at),
        bounded(amounts(old(held)@), 0x200_0000_0000_0000),
    ensures
        final(held).len() == old(held).len(),
        amounts(final(held)@) == pair_deduction(amounts(old(held)@), *cur, *next),
        bounded(amounts(final(held)@), 0x200_0000_0000_0000),
{
    if cur.kind == EventKind::DriveStart && next.kind == EventKind::Start && cur.at.date
        == next.at.date && (cur.at.date.day as usize) < held.len() {
        let minutes: i64 = cur.at.minutes_until(&next.at);
        let size: i128 = if minutes < 0 {
            -(minutes as i128)
        } else {
            minutes as i128
        };
        held.set(cur.at.date.day as usize, Some(size));
        assert(amounts(held@) =~= pair_deduction(amounts(old(held)@), *cur, *next));
        assert forall|d: int| 0 <= d < amounts(held@).len() implies ((#[trigger] amounts(
            held@,
        )[d]) matches Some(v) ==> -0x200_0000_0000_0000 <= v <= 0x200_0000_0000_0000) by {
            if d != cur.at.date.day {
                assert(amounts(held@)[d] == amounts(old(held)@)[d]);
            }
        }
    }
}

/// Takes what was set aside off the minutes by day.
fn settle(totals: &Vec<Option<i128>>, held: &Vec<Option<i128>>, bound: Ghost<int>) -> (r: Vec<
    Option<i128>,
>)
    requires
        totals.len() == held.len(),
        bounded(amounts(totals@), bound@),
        bounded(amounts(held@), 0x200_0000_0000_0000),
        0 <= bound@ <= 0x2000_0000_0000_0000_0000_0000_0000_0000,
    ensures
        amounts(r@) == settled(amounts(totals@), amounts(held@)),
{
    let mut out: Vec<Option<i128>> = Vec::new();
    let mut d: usize = 0;
    while d < totals.len()
        invariant
            d <= totals.len(),
            totals.len() == held.len(),
            out.len() == d,
            bounded(amounts(totals@), bound@),
            bounded(amounts(held@), 0x200_0000_0000_0000),
            0 <= bound@ <= 0x2000_0000_0000_0000_0000_0000_0000_0000,
            forall|k: int|
                0 <= k < d ==> (#[trigger] amounts(out@)[k]) == settled(
                    amounts(totals@),
                    amounts(held@),
                )[k],
        decreases totals.len() - d,
    {
        proof {
            assert(amounts(totals@)[d as int] == match totals[d as int] {
                Some(x) => Some(x as int),
                None => None,
            });
            assert(amounts(held@)[d as int] == match held[d as int] {
                Some(x) => Some(x as int),
                None => None,
            });
        }
        let entry: Option<i128> = match (totals[d], held[d]) {
            (Some(v), Some(x)) => Some(v - x),
            (other, _) => other,
        };
        let ghost before = out@;
        out.push(entry);
        proof {
            assert forall|k: int| 0 <= k < d + 1 implies (#[trigger] amounts(out@)[k]) == settled(
                amounts(totals@),
                amounts(held@),
            )[k] by {
                if k < d {
                    assert(amounts(out@)[k] == amounts(before)[k]);
                }
            }
        }
        d = d + 1;
    }
    assert(amounts(out@) =~= settled(amounts(totals@), amounts(held@)));
    out
}

/// The constraint time of each day of a month, from its punches in
/// chronological order. The entry at position `d` holds the minutes of
/// day `d`, if the punches give it any.
pub fn kosoku_from_punches(events: &Vec<TimeEvent>, days_in_month: u8) -> (r: Vec<Option<i128>>)
    requires
        forall|i: int| 0 <= i < events.len() ==> valid_datetime((#[trigger] events[i]).at),
    ensures
        amounts(r@) == punch_kosoku(events@, days_in_month as int),
        r.len() == DAY_SLOTS,
{
    let mut totals: Vec<Option<i128>> = empty_amounts();
    let mut held: Vec<Option<i128>> = empty_amounts();
    let mut i: usize = 0;
    let pairs: usize = if events.len() == 0 {
        0
    } else {
        events.len() - 1
    };
    while i < pairs
        invariant
            i <= pairs,
            pairs == pair_count(events.len() as int),
            totals.len() == DAY_SLOTS,
            held.len() == DAY_SLOTS,
            forall|k: int| 0 <= k < events.len() ==> valid_datetime((#[trigger] events[k]).at),
            amounts(totals@) == credited(events@, days_in_month as int, i as int),
            amounts(held@) == deducted(events@, i as int),
            bounded(amounts(totals@), i * 0x400_0000_0000_0000),
            bounded(amounts(held@), 0x200_0000_0000_0000),
        decreases pairs - i,
    {
        proof {
            assert(i * 0x400_0000_0000_0000 <= 0x1_0000_0000_0000_0000 * 0x400_0000_0000_0000)
                by (nonlinear_arith)
                requires
                    i <= 0x1_0000_0000_0000_0000,
            ;
            assert((i + 1) * 0x400_0000_0000_0000 == i * 0x400_0000_0000_0000
                + 0x400_0000_0000_0000) by (nonlinear_arith);
        }
        let cur: &TimeEvent = &events[i];
        let next: &TimeEvent = &events[i + 1];
        apply_pair(&mut totals, cur, next, days_in_month, Ghost(i * 0x400_0000_0000_0000));
        apply_deduction(&mut held, cur, next);
        i = i + 1;
    }
    proof {
        assert(i * 0x400_0000_0000_0000 <= 0x1_0000_0000_0000_0000 * 0x400_0000_0000_0000)
            by (nonlinear_arith)
            requires
                i <= 0x1_0000_0000_0000_0000,
        ;
    }
    let r = settle(&totals, &held, Ghost(i * 0x400_0000_0000_0000));
    assert(r@.len() == amounts(r@).len());
    r
}

/// A chronological list after one more punch: the punch stands behind
/// every punch that is not later than it.
pub open spec fn inserted(events: Seq<TimeEvent>, e: TimeEvent) -> Seq<TimeEvent>
    decreases events.len(),
{
    if events.len() == 0 {
        seq![e]
    } else if instant(events.last().at) <= instant(e.at) {
        events.push(e)
    } else {
        inserted(events.drop_last(), e).push(events.last())
    }
}

/// The punches of a list in chronological order; punches of the same
/// time keep the order of the list.
pub open spec fn chronological(events: Seq<TimeEvent>) -> Seq<TimeEvent>
    decreases events.len(),
{
    if events.len() == 0 {
        Seq::empty()
    } else {
        inserted(chronological(events.drop_last()), events.last())
    }
}

/// Whether no punch of a list is earlier than one before it.
pub open spec fn in_order(events: Seq<TimeEvent>) -> bool {
    forall|i: int, j: int|
        0 <= i <= j < events.len() ==> instant((#[trigger] events[i]).at) <= instant(
            (#[trigger] events[j]).at,
        )
}

/// Putting a punch at the place where everything behind it is later and
/// nothing before it is, is inserting it.
pub proof fn lemma_inserted_at(events: Seq<TimeEvent>, e: TimeEvent, place: int)
    requires
        0 <= place <= events.len(),
        forall|k: int|
            place <= k < events.len() ==> instant((#[trigger] events[k]).at) > instant(e.at),
        place > 0 ==> instant(events[place - 1].at) <= instant(e.at),
    ensures
        inserted(events, e) == events.insert(place, e),
    decreases events.len(),
{
    if events.len() == 0 {
        assert(events.insert(place, e) =~= seq![e]);
    } else if place == events.len() {
        assert(events.insert(place, e) =~= events.push(e));
    } else {
        assert(instant(events[events.len() - 1].at) > instant(e.at));
        lemma_inserted_at(events.drop_last(), e, place);
        assert(events.drop_last().insert(place, e).push(events.last()) =~= events.insert(
            place,
            e,
        ));
    }
}

/// Inserting adds one punch and loses none.
pub proof fn lemma_inserted_holds(events: Seq<TimeEvent>, e: TimeEvent)
    ensures
        inserted(events, e).len() == events.len() + 1,
        inserted(events, e).contains(e),
        forall|k: int| 0 <= k < events.len() ==> inserted(events, e).contains(#[trigger] events[k]),
        forall|k: int|
            0 <= k < inserted(events, e).len() ==> (#[trigger] inserted(events, e)[k]) == e
                || events.contains(inserted(events, e)[k]),
    decreases events.len(),
{
    let all = inserted(events, e);
    if events.len() == 0 {
        assert(all[0] == e);
    } else if instant(events.last().at) <= instant(e.at) {
        assert(all[events.len() as int] == e);
        assert forall|k: int| 0 <= k < events.len() implies all.contains(#[trigger] events[k]) by {
            assert(all[k] == events[k]);
        }
        assert forall|k: int| 0 <= k < all.len() implies (#[trigger] all[k]) == e
            || events.contains(all[k]) by {
            if k < events.len() {
                assert(events[k] == all[k]);
            }
        }
    } else {
        let rest = events.drop_last();
        let inner = inserted(rest, e);
        lemma_inserted_holds(rest, e);
        let at = choose|k: int| 0 <= k < inner.len() && inner[k] == e;
        assert(all[at] == e);
        assert forall|k: int| 0 <= k < events.len() implies all.contains(#[trigger] events[k]) by {
            if k < rest.len() {
                assert(inner.contains(rest[k]));
                let p = choose|p: int| 0 <= p < inner.len() && inner[p] == rest[k];
                assert(all[p] == events[k]);
            } else {
                assert(all[all.len() - 1] == events[k]);
            }
        }
        assert forall|k: int| 0 <= k < all.len() implies (#[trigger] all[k]) == e
            || events.contains(all[k]) by {
            if k < inner.len() {
                if inner[k] != e {
                    assert(rest.contains(inner[k]));
                    let p = choose|p: int| 0 <= p < rest.len() && rest[p] == inner[k];
                    assert(events[p] == all[k]);
                }
            } else {
                assert(events[events.len() - 1] == all[k]);
            }
        }
    }
}

/// Inserting into a list that is in order leaves it in order.
pub proof fn lemma_inserted_in_order(events: Seq<TimeEvent>, e: TimeEvent)
    requires
        in_order(events),
    ensures
        in_order(inserted(events, e)),
    decreases events.len(),
{
    let all = inserted(events, e);
    if events.len() == 0 {
    } else if instant(events.last().at) <= instant(e.at) {
        assert forall|i: int, j: int| 0 <= i <= j < all.len() implies instant(
            (#[trigger] all[i]).at,
        ) <= instant((#[trigger] all[j]).at) by {
            if j < events.len() {
                assert(instant(events[i].at) <= instant(events[j].at));
            } else if i < events.len() {
                assert(instant(events[i].at) <= instant(events[events.len() - 1].at));
            }
        }
    } else {
        let rest = events.drop_last();
        assert(in_order(rest)) by {
            assert forall|i: int, j: int| 0 <= i <= j < rest.len() implies instant(
                (#[trigger] rest[i]).at,
            ) <= instant((#[trigger] rest[j]).at) by {
                assert(instant(events[i].at) <= instant(events[j].at));
            }
        }
        lemma_inserted_in_order(rest, e);
        lemma_inserted_holds(rest, e);
        let inner = inserted(rest, e);
        assert forall|i: int, j: int| 0 <= i <= j < all.len() implies instant(
            (#[trigger] all[i]).at,
        ) <= instant((#[trigger] all[j]).at) by {
            if j < inner.len() {
                assert(instant(inner[i].at) <= instant(inner[j].at));
            } else if i < inner.len() {
                if inner[i] != e {
                    assert(rest.contains(inner[i]));
                    let p = choose|p: int| 0 <= p < rest.len() && rest[p] == inner[i];
                    assert(instant(events[p].at) <= instant(events[events.len() - 1].at));
                }
            }
        }
    }
}

/// The chronological order of a list is in order, and has as many punches
/// as the list.
pub proof fn lemma_chronological_in_order(events: Seq<TimeEvent>)
    ensures
        in_order(chronological(events)),
        chronological(events).len() == events.len(),
    decreases events.len(),
{
    if events.len() > 0 {
        lemma_chronological_in_order(events.drop_last());
        lemma_inserted_in_order(chronological(events.drop_last()), events.last());
        lemma_inserted_holds(chronological(events.drop_last()), events.last());
    }
}

/// Inserting adds the punch to the punches of the list, whatever their
/// number of times.
pub proof fn lemma_inserted_same_punches(events: Seq<TimeEvent>, e: TimeEvent)
    ensures
        inserted(events, e).to_multiset() == events.to_multiset().insert(e),
    decreases events.len(),
{
    broadcast use vstd::multiset::group_multiset_axioms;

    if events.len() == 0 {
        to_multiset_build(events, e);
        assert(events.push(e) =~= seq![e]);
    } else if instant(events.last().at) <= instant(e.at) {
        to_multiset_build(events, e);
    } else {
        let rest = events.drop_last();
        lemma_inserted_same_punches(rest, e);
        to_multiset_build(inserted(rest, e), events.last());
        to_multiset_build(rest, events.last());
        assert(rest.push(events.last()) =~= events);
        assert(rest.to_multiset().insert(e).insert(events.last()) =~= rest.to_multiset().insert(
            events.last(),
        ).insert(e));
    }
}

/// The chronological order of a list holds the punches of the list, each
/// as often as the list.
pub proof fn lemma_chronological_same_punches(events: Seq<TimeEvent>)
    ensures
        chronological(events).to_multiset() == events.to_multiset(),
    decreases events.len(),
{
    if events.len() == 0 {
        assert(chronological(events) =~= events);
    } else {
        lemma_chronological_same_punches(events.drop_last());
        lemma_inserted_same_punches(chronological(events.drop_last()), events.last());
        to_multiset_build(events.drop_last(), events.last());
        assert(events.drop_last().push(events.last()) =~= events);
    }
}

/// Puts punches in chronological order; punches of the same time keep
/// their order.
pub fn sort_events(events: &Vec<TimeEvent>) -> (r: Vec<TimeEvent>)
    requires
        forall|i: int| 0 <= i < events.len() ==> valid_datetime((#[trigger] events[i]).at),
    ensures
        r@ == chronological(events@),
        forall|i: int| 0 <= i < r.len() ==> valid_datetime((#[trigger] r[i]).at),
{
    let mut out: Vec<TimeEvent> = Vec::new();
    let mut i: usize = 0;
    while i < events.len()
        invariant
            i <= events.len(),
            out.len() == i,
            forall|k: int| 0 <= k < events.len() ==> valid_datetime((#[trigger] events[k]).at),
            forall|k: int| 0 <= k < out.len() ==> valid_datetime((#[trigger] out[k]).at),
            out@ == chronological(events@.take(i as int)),
        decreases events.len() - i,
    {
        let e: TimeEvent = events[i];
        let at: i128 = e.at.instant();
        let mut place: usize = out.len();
        while place > 0 && out[place - 1].at.instant() > at
            invariant
                place <= out.len(),
                at == instant(e.at),
                forall|k: int| 0 <= k < out.len() ==> valid_datetime((#[trigger] out[k]).at),
                forall|k: int|
                    place <= k < out.len() ==> instant((#[trigger] out[k]).at) > instant(e.at),
            decreases place,
        {
            place = place - 1;
        }
        proof {
            lemma_inserted_at(out@, e, place as int);
            assert(events@.take(i + 1).drop_last() =~= events@.take(i as int));
        }
        let ghost before = out@;
        out.insert(place, e);
        proof {
            assert forall|k: int| 0 <= k < out.len() implies valid_datetime((#[trigger] out[k]).at) by {
                if k < place {
                    assert(out[k] == before[k]);
                } else if k > place {
                    assert(out[k] == before[k - 1]);
                }
            }
        }
        i = i + 1;
    }
    proof {
        assert(events@.take(events@.len() as int) =~= events@);
    }
    out
}

} // verus!
