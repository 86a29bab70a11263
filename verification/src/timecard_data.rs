//! The monthly attendance model: one subject, the records of the days of a
//! month and the summary derived from them.
//!
//! Overtime is counted in tenths of an hour, attendance and leave in
//! tenths of a day, constraint time in minutes.

use vstd::prelude::*;
use crate::text::{
    digit_char,
    digit_str,
    int_text,
    nat_text,
    push_int,
    push_nat,
    push_two_digits,
    str_eq,
    two_digit_text,
};

verus! {

/// A subject: an employee and the keys the payroll order goes by.
#[derive(Clone, Debug)]
pub struct Driver {
    pub id: i32,
    pub name: String,
    pub bumon: Option<i32>,
    pub category_c: Option<i32>,
    pub eigyosho_c: Option<i32>,
    pub kyuyo_shain_id: Option<i32>,
}

/// The attendance record of one day.
#[derive(Clone, Debug)]
pub struct DayRecord {
    /// Day of the month, from 1.
    pub day: u8,
    /// Name of the day of the week.
    pub weekday: String,
    /// Clock-in times, at most two.
    pub clock_in: Vec<String>,
    /// Clock-out times, at most two.
    pub clock_out: Vec<String>,
    /// Remark, such as a kind of leave.
    pub remarks: String,
    pub is_sunday: bool,
    /// Constraint time in minutes, as displayed.
    pub kosoku_minutes: Option<i32>,
    /// Constraint time computed from time-clock punches.
    pub kosoku_tcdc: Option<i32>,
    /// Constraint time computed from tachograph events.
    pub kosoku_digitacho: Option<i32>,
    /// Overtime in tenths of an hour.
    pub zangyo: Option<i32>,
    /// Livestock-transport allowance day.
    pub is_kachiku: bool,
    /// Trailer allowance day.
    pub is_trailer: bool,
    /// Whether tachograph data exists for the day.
    pub has_digitacho: bool,
    /// Whether a work report exists for the day.
    pub has_daily_report: bool,
    /// Number of additional jobs.
    pub tsuika_count: i32,
}

/// The counters of a month.
#[derive(Clone, Copy, Debug, PartialEq, Eq, Structural)]
pub struct TimecardSummary {
    /// Days attended, in tenths.
    pub shukkin: i64,
    /// Days off.
    pub kyuka: i32,
    /// Paid leave, in tenths of a day.
    pub yukyu: i64,
    /// Days absent.
    pub kekkin: i32,
    /// Days late.
    pub chikoku: i32,
    /// Days left early.
    pub soutai: i32,
    /// Days of special leave.
    pub tokukyu: i32,
    /// Overtime, in tenths of an hour.
    pub total_zangyo: i64,
    /// Days worked on days off, in tenths.
    pub kyushutsu: i64,
    /// Constraint time, in minutes.
    pub total_kosoku: i64,
    /// Trailer allowance days.
    pub trailer: i32,
    /// Livestock-transport allowance days.
    pub kachiku: i32,
    /// Additional jobs.
    pub tsuika: i32,
}

/// The attendance of one subject in one month.
#[derive(Clone, Debug)]
pub struct MonthlyTimecard {
    pub driver: Driver,
    pub year: i32,
    pub month: u32,
    pub days: Vec<DayRecord>,
    pub summary: TimecardSummary,
}

/// What the record of a day says.
pub struct DayView {
    pub day: int,
    pub weekday: Seq<char>,
    pub clock_in: Seq<Seq<char>>,
    pub clock_out: Seq<Seq<char>>,
    pub remarks: Seq<char>,
    pub is_sunday: bool,
    pub kosoku_minutes: Option<i32>,
    pub kosoku_tcdc: Option<i32>,
    pub kosoku_digitacho: Option<i32>,
    pub zangyo: Option<i32>,
    pub is_kachiku: bool,
    pub is_trailer: bool,
    pub has_digitacho: bool,
    pub has_daily_report: bool,
    pub tsuika_count: i32,
}

/// What a list of times says.
pub open spec fn times_view(times: Seq<String>) -> Seq<Seq<char>> {
    times.map_values(|t: String| t@)
}

/// What the records of the days of a month say.
pub open spec fn days_view(days: Seq<DayRecord>) -> Seq<DayView> {
    days.map_values(|d: DayRecord| d@)
}

impl View for DayRecord {
    type V = DayView;

    open spec fn view(&self) -> DayView {
        DayView {
            day: self.day as int,
            weekday: self.weekday@,
            clock_in: times_view(self.clock_in@),
            clock_out: times_view(self.clock_out@),
            remarks: self.remarks@,
            is_sunday: self.is_sunday,
            kosoku_minutes: self.kosoku_minutes,
            kosoku_tcdc: self.kosoku_tcdc,
            kosoku_digitacho: self.kosoku_digitacho,
            zangyo: self.zangyo,
            is_kachiku: self.is_kachiku,
            is_trailer: self.is_trailer,
            has_digitacho: self.has_digitacho,
            has_daily_report: self.has_daily_report,
            tsuika_count: self.tsuika_count,
        }
    }
}

/// What a remark means for the counters of a month.
#[derive(Clone, Copy, Debug, PartialEq, Eq, Structural)]
pub enum Remark {
    /// A day off of any kind.
    DayOff,
    /// A day of paid leave.
    PaidLeave,
    /// A day absent.
    Absence,
    /// A day late.
    Late,
    /// A day left early.
    EarlyLeave,
    /// A day of special leave.
    SpecialLeave,
    /// Half a day of paid leave.
    HalfPaidLeave,
    /// Anything else.
    Other,
}

/// The meaning of a remark.
pub open spec fn remark_of(remarks: Seq<char>) -> Remark {
    if remarks == "公休"@ || remarks == "泊休"@ || remarks == "積置泊休"@ || remarks == "指休"@ {
        Remark::DayOff
    } else if remarks == "有休"@ {
        Remark::PaidLeave
    } else if remarks == "欠勤"@ {
        Remark::Absence
    } else if remarks == "遅刻"@ {
        Remark::Late
    } else if remarks == "早退"@ {
        Remark::EarlyLeave
    } else if remarks == "特休"@ {
        Remark::SpecialLeave
    } else if remarks == "前休"@ || remarks == "後休"@ || remarks == "前休作"@ || remarks
        == "後休作"@ {
        Remark::HalfPaidLeave
    } else {
        Remark::Other
    }
}

/// A duration of `minutes` as hours and minutes, each in at least two
/// digits; empty unless positive.
pub open spec fn duration_text(minutes: int) -> Seq<char> {
    if minutes > 0 {
        two_digit_text((minutes / 60) as nat) + seq![':'] + two_digit_text((minutes % 60) as nat)
    } else {
        Seq::empty()
    }
}

/// An amount of `tenths` tenths: a whole number without a fraction, any
/// other amount with one decimal; empty when zero.
pub open spec fn tenths_text(tenths: int) -> Seq<char> {
    if tenths == 0 {
        Seq::empty()
    } else if tenths % 10 == 0 {
        int_text(tenths / 10)
    } else if tenths < 0 {
        seq!['-'] + nat_text(((-tenths) / 10) as nat) + seq!['.', digit_char((-tenths) % 10)]
    } else {
        nat_text((tenths / 10) as nat) + seq!['.', digit_char(tenths % 10)]
    }
}

/// The mark of `count` additional jobs: one circle each for one or two,
/// a circle and the count for any other number but zero.
pub open spec fn additional_text(count: int) -> Seq<char> {
    if count == 0 {
        Seq::empty()
    } else if count == 1 {
        "〇"@
    } else if count == 2 {
        "〇〇"@
    } else {
        "〇"@ + int_text(count)
    }
}

/// The label of a month of a year.
pub open spec fn year_month_text(year: int, month: nat) -> Seq<char> {
    int_text(year) + "年"@ + two_digit_text(month) + "月"@
}

/// The overtime shown for a day.
pub open spec fn overtime_text(day: DayRecord) -> Seq<char> {
    match day.zangyo {
        Some(tenths) => tenths_text(tenths as int),
        None => Seq::empty(),
    }
}

/// The constraint time shown for a day.
pub open spec fn constraint_text(day: DayRecord) -> Seq<char> {
    match day.kosoku_minutes {
        Some(minutes) => duration_text(minutes as int),
        None => Seq::empty(),
    }
}

/// The counters that the records of a month add up to, before attendance
/// is derived from them.
pub struct Tally {
    pub kyuka: int,
    pub yukyu: int,
    pub kekkin: int,
    pub chikoku: int,
    pub soutai: int,
    pub tokukyu: int,
    pub total_zangyo: int,
    pub total_kosoku: int,
    pub trailer: int,
    pub kachiku: int,
}

/// The counters of no day.
pub open spec fn empty_tally() -> Tally {
    Tally {
        kyuka: 0,
        yukyu: 0,
        kekkin: 0,
        chikoku: 0,
        soutai: 0,
        tokukyu: 0,
        total_zangyo: 0,
        total_kosoku: 0,
        trailer: 0,
        kachiku: 0,
    }
}

/// The counters after one more day.
pub open spec fn tally_day(t: Tally, day: DayRecord) -> Tally {
    let kind = remark_of(day.remarks@);
    Tally {
        kyuka: t.kyuka + if kind == Remark::DayOff {
            1int
        } else {
            0int
        },
        yukyu: t.yukyu + if kind == Remark::PaidLeave {
            10int
        } else if kind == Remark::HalfPaidLeave {
            5int
        } else {
            0int
        },
        kekkin: t.kekkin + if kind == Remark::Absence {
            1int
        } else {
            0int
        },
        chikoku: t.chikoku + if kind == Remark::Late {
            1int
        } else {
            0int
        },
        soutai: t.soutai + if kind == Remark::EarlyLeave {
            1int
        } else {
            0int
        },
        tokukyu: t.tokukyu + if kind == Remark::SpecialLeave {
            1int
        } else {
            0int
        },
        total_zangyo: t.total_zangyo + match day.zangyo {
            Some(tenths) => tenths as int,
            None => 0int,
        },
        total_kosoku: t.total_kosoku + match day.kosoku_minutes {
            Some(minutes) => minutes as int,
            None => 0int,
        },
        trailer: t.trailer + if day.is_trailer {
            1int
        } else {
            0int
        },
        kachiku: t.kachiku + if day.is_kachiku {
            1int
        } else {
            0int
        },
    }
}

/// The counters of `days`.
pub open spec fn tally(days: Seq<DayRecord>) -> Tally
    decreases days.len(),
{
    if days.len() == 0 {
        empty_tally()
    } else {
        tally_day(tally(days.drop_last()), days.last())
    }
}

/// `v` if positive, zero otherwise.
pub open spec fn at_least_zero(v: int) -> int {
    if v > 0 {
        v
    } else {
        0
    }
}

/// Days worked on days off, in tenths: the days of the month that are
/// neither days off, base working days, absences, nor days before hiring
/// or after retirement.
pub open spec fn holiday_work(days: int, t: Tally, kiso: int, before_hire: int, after_retire: int)
    -> int {
    at_least_zero(10 * (days - t.kyuka - kiso - t.kekkin - before_hire - after_retire))
}

/// Days attended, in tenths: the days of the month less days off, paid
/// leave, days worked on days off, absences, special leave and the days
/// before hiring or after retirement.
pub open spec fn attendance(days: int, t: Tally, kiso: int, before_hire: int, after_retire: int)
    -> int {
    at_least_zero(
        10 * days - 10 * t.kyuka - t.yukyu - holiday_work(days, t, kiso, before_hire, after_retire)
            - 10 * t.kekkin - 10 * t.tokukyu - 10 * before_hire - 10 * after_retire,
    )
}

/// The summary of `days`. Allowance days that no record carries fall back
/// on those of the `previous` summary, which also supplies the count of
/// additional jobs.
pub open spec fn summarized(
    days: Seq<DayRecord>,
    previous: TimecardSummary,
    kiso: int,
    before_hire: int,
    after_retire: int,
) -> TimecardSummary {
    let t = tally(days);
    TimecardSummary {
        shukkin: attendance(days.len() as int, t, kiso, before_hire, after_retire) as i64,
        kyuka: t.kyuka as i32,
        yukyu: t.yukyu as i64,
        kekkin: t.kekkin as i32,
        chikoku: t.chikoku as i32,
        soutai: t.soutai as i32,
        tokukyu: t.tokukyu as i32,
        total_zangyo: t.total_zangyo as i64,
        kyushutsu: holiday_work(days.len() as int, t, kiso, before_hire, after_retire) as i64,
        total_kosoku: t.total_kosoku as i64,
        trailer: if t.trailer == 0 && previous.trailer > 0 {
            previous.trailer
        } else {
            t.trailer as i32
        },
        kachiku: if t.kachiku == 0 && previous.kachiku > 0 {
            previous.kachiku
        } else {
            t.kachiku as i32
        },
        tsuika: previous.tsuika,
    }
}

/// The summary of a month without records.
pub open spec fn empty_summary() -> TimecardSummary {
    TimecardSummary {
        shukkin: 0,
        kyuka: 0,
        yukyu: 0,
        kekkin: 0,
        chikoku: 0,
        soutai: 0,
        tokukyu: 0,
        total_zangyo: 0,
        kyushutsu: 0,
        total_kosoku: 0,
        trailer: 0,
        kachiku: 0,
        tsuika: 0,
    }
}

/// No counter of days counts more days than there are, and none is
/// below zero; paid leave is at most all days.
pub proof fn lemma_tally_bounds(days: Seq<DayRecord>)
    ensures
        0 <= tally(days).kyuka <= days.len(),
        0 <= tally(days).kekkin <= days.len(),
        0 <= tally(days).chikoku <= days.len(),
        0 <= tally(days).soutai <= days.len(),
        0 <= tally(days).tokukyu <= days.len(),
        0 <= tally(days).trailer <= days.len(),
        0 <= tally(days).kachiku <= days.len(),
        0 <= tally(days).yukyu <= 10 * days.len(),
        tally(days).kyuka + tally(days).kekkin + tally(days).chikoku + tally(days).soutai + tally(
            days,
        ).tokukyu <= days.len(),
    decreases days.len(),
{
    if days.len() > 0 {
        lemma_tally_bounds(days.drop_last());
    }
}

/// Attendance and days worked on days off are never below zero, and days
/// attended are never more than the days of the month less days off,
/// absences and leave.
pub proof fn lemma_attendance_bounds(
    days: Seq<DayRecord>,
    kiso: int,
    before_hire: int,
    after_retire: int,
)
    ensures
        holiday_work(days.len() as int, tally(days), kiso, before_hire, after_retire) >= 0,
        attendance(days.len() as int, tally(days), kiso, before_hire, after_retire) >= 0,
        before_hire >= 0 && after_retire >= 0 ==> attendance(
            days.len() as int,
            tally(days),
            kiso,
            before_hire,
            after_retire,
        ) <= 10 * days.len(),
{
    lemma_tally_bounds(days);
}

/// Reads a remark.
pub fn classify_remark(remarks: &str) -> (r: Remark)
    ensures
        r == remark_of(remarks@),
{
    if str_eq(remarks, "公休") || str_eq(remarks, "泊休") || str_eq(remarks, "積置泊休") || str_eq(
        remarks,
        "指休",
    ) {
        Remark::DayOff
    } else if str_eq(remarks, "有休") {
        Remark::PaidLeave
    } else if str_eq(remarks, "欠勤") {
        Remark::Absence
    } else if str_eq(remarks, "遅刻") {
        Remark::Late
    } else if str_eq(remarks, "早退") {
        Remark::EarlyLeave
    } else if str_eq(remarks, "特休") {
        Remark::SpecialLeave
    } else if str_eq(remarks, "前休") || str_eq(remarks, "後休") || str_eq(remarks, "前休作")
        || str_eq(remarks, "後休作") {
        Remark::HalfPaidLeave
    } else {
        Remark::Other
    }
}

/// A duration in minutes as text.
pub fn format_duration(minutes: i64) -> (r: String)
    ensures
        r@ == duration_text(minutes as int),
{
    let mut out: String = String::new();
    if minutes > 0 {
        proof {
            reveal_strlit(":");
        }
        push_two_digits(&mut out, (minutes / 60) as u64);
        out.append(":");
        push_two_digits(&mut out, (minutes % 60) as u64);
        assert(out@ =~= duration_text(minutes as int));
    }
    out
}

/// An amount in tenths as text.
pub fn format_tenths(tenths: i64) -> (r: String)
    ensures
        r@ == tenths_text(tenths as int),
{
    let mut out: String = String::new();
    if tenths == 0 {
        return out;
    }
    proof {
        reveal_strlit("-");
        reveal_strlit(".");
    }
    if tenths > 0 {
        let whole: i64 = tenths / 10;
        let part: i64 = tenths % 10;
        if part == 0 {
            push_int(&mut out, whole);
            assert(out@ =~= tenths_text(tenths as int));
        } else {
            push_nat(&mut out, whole as u64);
            out.append(".");
            out.append(digit_str(part as u8));
            assert(out@ =~= tenths_text(tenths as int));
        }
    } else {
        let magnitude: u64 = (-(tenths + 1)) as u64 + 1;
        let whole: u64 = magnitude / 10;
        let part: u64 = magnitude % 10;
        if part == 0 {
            assert(tenths as int % 10 == 0 && tenths as int / 10 == -(whole as int)) by {
                vstd::arithmetic::div_mod::lemma_fundamental_div_mod_converse(
                    tenths as int,
                    10,
                    -(whole as int),
                    0,
                );
            }
            out.append("-");
            push_nat(&mut out, whole);
            assert(out@ =~= tenths_text(tenths as int));
        } else {
            assert(tenths as int % 10 != 0) by {
                if tenths as int % 10 == 0 {
                    vstd::arithmetic::div_mod::lemma_fundamental_div_mod(tenths as int, 10);
                    vstd::arithmetic::div_mod::lemma_fundamental_div_mod_converse(
                        magnitude as int,
                        10,
                        -(tenths as int / 10),
                        0,
                    );
                }
            }
            out.append("-");
            push_nat(&mut out, whole);
            out.append(".");
            out.append(digit_str(part as u8));
            assert(out@ =~= tenths_text(tenths as int));
        }
    }
    out
}

impl DayRecord {
    /// The record of a day on which nothing has happened yet.
    pub fn new(day: u8, weekday: &str) -> (r: Self)
        ensures
            r.day == day,
            r.weekday@ == weekday@,
            r.is_sunday == (weekday@ == "日"@),
            r.clock_in@.len() == 0,
            r.clock_out@.len() == 0,
            r.remarks@.len() == 0,
            r.kosoku_minutes is None,
            r.kosoku_tcdc is None,
            r.kosoku_digitacho is None,
            r.zangyo is None,
            !r.is_kachiku,
            !r.is_trailer,
            !r.has_digitacho,
            !r.has_daily_report,
            r.tsuika_count == 0,
    {
        let is_sunday: bool = str_eq(weekday, "日");
        DayRecord {
            day,
            weekday: String::from_str(weekday),
            clock_in: Vec::new(),
            clock_out: Vec::new(),
            remarks: String::new(),
            is_sunday,
            kosoku_minutes: None,
            kosoku_tcdc: None,
            kosoku_digitacho: None,
            zangyo: None,
            is_kachiku: false,
            is_trailer: false,
            has_digitacho: false,
            has_daily_report: false,
            tsuika_count: 0,
        }
    }

    /// Constraint time as hours and minutes; empty unless positive.
    pub fn kosoku_str(&self) -> (r: String)
        ensures
            r@ == constraint_text(*self),
    {
        match self.kosoku_minutes {
            Some(minutes) => format_duration(minutes as i64),
            None => String::new(),
        }
    }

    /// Overtime in hours; empty when there is none.
    pub fn zangyo_str(&self) -> (r: String)
        ensures
            r@ == overtime_text(*self),
    {
        match self.zangyo {
            Some(tenths) => format_tenths(tenths as i64),
            None => String::new(),
        }
    }

    /// The mark of the additional jobs of the day.
    pub fn tsuika_str(&self) -> (r: String)
        ensures
            r@ == additional_text(self.tsuika_count as int),
    {
        if self.tsuika_count == 0 {
            String::new()
        } else if self.tsuika_count == 1 {
            String::from_str("〇")
        } else if self.tsuika_count == 2 {
            String::from_str("〇〇")
        } else {
            let mut out: String = String::from_str("〇");
            push_int(&mut out, self.tsuika_count as i64);
            out
        }
    }

    /// Overtime followed by the mark of the additional jobs.
    pub fn zangyo_with_tsuika_str(&self) -> (r: String)
        ensures
            r@ == overtime_text(*self) + additional_text(self.tsuika_count as int),
    {
        let zangyo: String = self.zangyo_str();
        let tsuika: String = self.tsuika_str();
        zangyo.concat(tsuika.as_str())
    }
}

impl TimecardSummary {
    /// The summary of a month without records.
    pub fn empty() -> (r: Self)
        ensures
            r == empty_summary(),
    {
        TimecardSummary {
            shukkin: 0,
            kyuka: 0,
            yukyu: 0,
            kekkin: 0,
            chikoku: 0,
            soutai: 0,
            tokukyu: 0,
            total_zangyo: 0,
            kyushutsu: 0,
            total_kosoku: 0,
            trailer: 0,
            kachiku: 0,
            tsuika: 0,
        }
    }

    /// Total constraint time as hours and minutes; empty unless positive.
    pub fn total_kosoku_str(&self) -> (r: String)
        ensures
            r@ == duration_text(self.total_kosoku as int),
    {
        format_duration(self.total_kosoku)
    }
}

impl MonthlyTimecard {
    /// The label of the month.
    pub fn year_month_str(&self) -> (r: String)
        ensures
            r@ == year_month_text(self.year as int, self.month as nat),
    {
        let mut out: String = String::new();
        push_int(&mut out, self.year as i64);
        out.append("年");
        push_two_digits(&mut out, self.month as u64);
        out.append("月");
        assert(out@ =~= year_month_text(self.year as int, self.month as nat));
        out
    }

    /// Derives the summary from the records, with no base working days
    /// and nobody hired or retired during the month.
    pub fn calculate_summary(&mut self)
        requires
            old(self).days.len() <= 31,
        ensures
            final(self).summary == summarized(old(self).days@, old(self).summary, 0, 0, 0),
            final(self).days == old(self).days,
            final(self).driver == old(self).driver,
            final(self).year == old(self).year,
            final(self).month == old(self).month,
    {
        self.calculate_summary_with_kiso(0, 0, 0);
    }

    /// Derives the summary from the records, given the base working days
    /// of the month and the days before hiring and after retirement.
    pub fn calculate_summary_with_kiso(
        &mut self,
        kiso_date: i32,
        before_hire_count: i32,
        after_retire_count: i32,
    )
        requires
            old(self).days.len() <= 31,
        ensures
            final(self).summary == summarized(
                old(self).days@,
                old(self).summary,
                kiso_date as int,
                before_hire_count as int,
                after_retire_count as int,
            ),
            final(self).days == old(self).days,
            final(self).driver == old(self).driver,
            final(self).year == old(self).year,
            final(self).month == old(self).month,
    {
        let previous: TimecardSummary = self.summary;
        let mut kyuka: i32 = 0;
        let mut yukyu: i64 = 0;
        let mut kekkin: i32 = 0;
        let mut chikoku: i32 = 0;
        let mut soutai: i32 = 0;
        let mut tokukyu: i32 = 0;
        let mut total_zangyo: i64 = 0;
        let mut total_kosoku: i64 = 0;
        let mut trailer: i32 = 0;
        let mut kachiku: i32 = 0;
        let mut i: usize = 0;
        while i < self.days.len()
            invariant
                i <= self.days.len(),
                self.days.len() <= 31,
                *self == *old(self),
                0 <= kyuka <= i,
                0 <= yukyu <= 10 * i,
                0 <= kekkin <= i,
                0 <= chikoku <= i,
                0 <= soutai <= i,
                0 <= tokukyu <= i,
                0 <= trailer <= i,
                0 <= kachiku <= i,
                -0x8000_0000 * i <= total_zangyo <= 0x8000_0000 * i,
                -0x8000_0000 * i <= total_kosoku <= 0x8000_0000 * i,
                tally(self.days@.take(i as int)) == (Tally {
                    kyuka: kyuka as int,
                    yukyu: yukyu as int,
                    kekkin: kekkin as int,
                    chikoku: chikoku as int,
                    soutai: soutai as int,
                    tokukyu: tokukyu as int,
                    total_zangyo: total_zangyo as int,
                    total_kosoku: total_kosoku as int,
                    trailer: trailer as int,
                    kachiku: kachiku as int,
                }),
            decreases self.days.len() - i,
        {
            proof {
                assert(self.days@.take(i + 1).drop_last() =~= self.days@.take(i as int));
            }
            let day: &DayRecord = &self.days[i];
            match day.kosoku_minutes {
                Some(minutes) => {
                    total_kosoku = total_kosoku + minutes as i64;
                },
                None => {},
            }
            match day.zangyo {
                Some(tenths) => {
                    total_zangyo = total_zangyo + tenths as i64;
                },
                None => {},
            }
            match classify_remark(day.remarks.as_str()) {
                Remark::DayOff => {
                    kyuka = kyuka + 1;
                },
                Remark::PaidLeave => {
                    yukyu = yukyu + 10;
                },
                Remark::Absence => {
                    kekkin = kekkin + 1;
                },
                Remark::Late => {
                    chikoku = chikoku + 1;
                },
                Remark::EarlyLeave => {
                    soutai = soutai + 1;
                },
                Remark::SpecialLeave => {
                    tokukyu = tokukyu + 1;
                },
                Remark::HalfPaidLeave => {
                    yukyu = yukyu + 5;
                },
                Remark::Other => {},
            }
            if day.is_kachiku {
                kachiku = kachiku + 1;
            }
            if day.is_trailer {
                trailer = trailer + 1;
            }
            i = i + 1;
        }
        proof {
            assert(self.days@.take(self.days@.len() as int) =~= self.days@);
        }
        let days_in_month: i64 = self.days.len() as i64;
        let spare: i64 = 10 * (days_in_month - kyuka as i64 - kiso_date as i64 - kekkin as i64
            - before_hire_count as i64 - after_retire_count as i64);
        let kyushutsu: i64 = if spare > 0 {
            spare
        } else {
            0
        };
        let attended: i64 = 10 * days_in_month - 10 * kyuka as i64 - yukyu - kyushutsu - 10
            * kekkin as i64 - 10 * tokukyu as i64 - 10 * before_hire_count as i64 - 10
            * after_retire_count as i64;
        let shukkin: i64 = if attended > 0 {
            attended
        } else {
            0
        };
        self.summary = TimecardSummary {
            shukkin,
            kyuka,
            yukyu,
            kekkin,
            chikoku,
            soutai,
            tokukyu,
            total_zangyo,
            kyushutsu,
            total_kosoku,
            trailer: if trailer == 0 && previous.trailer > 0 {
                previous.trailer
            } else {
                trailer
            },
            kachiku: if kachiku == 0 && previous.kachiku > 0 {
                previous.kachiku
            } else {
                kachiku
            },
            tsuika: previous.tsuika,
        };
    }
}

} // verus!
