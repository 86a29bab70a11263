//! The allowance record of a subject's month, and what has to be written
//! to bring the stored records up to date.

use vstd::prelude::*;
use crate::timecard_data::MonthlyTimecard;

verus! {

/// The counters of a subject's month as they are stored: days and hours
/// in tenths.
#[derive(Clone, Copy, Debug, PartialEq, Eq, Hash, Structural)]
pub struct AllowanceData {
    pub driver_id: i32,
    pub shukkin_count: i64,
    pub dayoff_count: i64,
    pub paidoff_count: i64,
    pub absence_count: i64,
    pub overtime_count: i64,
    pub holidaywork_count: i64,
    pub additionalwork_payment: i32,
    pub kachiku_payment: i32,
    pub trail_payment: i32,
    pub chikoku_count: i32,
    pub soutai_count: i32,
    pub tokukyu_count: i32,
}

/// What to do with the timecard at one position of a report.
#[derive(Clone, Copy, Debug, PartialEq, Eq, Structural)]
pub enum SyncAction {
    /// Nothing: an earlier timecard of the report is of the same subject.
    Skip,
    /// Nothing: the stored record says the same.
    Unchanged,
    /// Write it over the stored record, which says something else.
    Update,
    /// Write it: nothing is stored for the subject.
    Insert,
}

/// How many timecards of a report are written anew, written over a stored
/// record, and left as stored.
#[derive(Clone, Copy, Debug, PartialEq, Eq, Structural)]
pub struct SyncCounts {
    pub inserted: usize,
    pub updated: usize,
    pub unchanged: usize,
}

/// The allowance record of a timecard.
pub open spec fn allowance_of(tc: MonthlyTimecard) -> AllowanceData {
    AllowanceData {
        driver_id: tc.driver.id,
        shukkin_count: tc.summary.shukkin,
        dayoff_count: (tc.summary.kyuka * 10) as i64,
        paidoff_count: tc.summary.yukyu,
        absence_count: (tc.summary.kekkin * 10) as i64,
        overtime_count: tc.summary.total_zangyo,
        holidaywork_count: tc.summary.kyushutsu,
        additionalwork_payment: tc.summary.tsuika,
        kachiku_payment: tc.summary.kachiku,
        trail_payment: tc.summary.trailer,
        chikoku_count: tc.summary.chikoku,
        soutai_count: tc.summary.soutai,
        tokukyu_count: tc.summary.tokukyu,
    }
}

/// The last of the first `count` stored records that is of subject `id`.
pub open spec fn stored_for(existing: Seq<AllowanceData>, id: i32, count: int) -> Option<
    AllowanceData,
>
    decreases count,
{
    if count <= 0 {
        None
    } else if existing[count - 1].driver_id == id {
        Some(existing[count - 1])
    } else {
        stored_for(existing, id, count - 1)
    }
}

/// The allowance record of the last of the first `count` timecards that
/// is of subject `id`.
pub open spec fn latest_for(cards: Seq<MonthlyTimecard>, id: i32, count: int) -> Option<
    AllowanceData,
>
    decreases count,
{
    if count <= 0 {
        None
    } else if cards[count - 1].driver.id == id {
        Some(allowance_of(cards[count - 1]))
    } else {
        latest_for(cards, id, count - 1)
    }
}

/// Whether none of the first `count` timecards is of subject `id`.
pub open spec fn absent_before(cards: Seq<MonthlyTimecard>, id: i32, count: int) -> bool {
    forall|j: int| 0 <= j < count ==> (#[trigger] cards[j]).driver.id != id
}

/// What to do with the timecard at position `i`. A subject is handled
/// once, at its first timecard: what the report says last of the subject
/// is held against what is stored last for it.
pub open spec fn action_at(existing: Seq<AllowanceData>, cards: Seq<MonthlyTimecard>, i: int)
    -> SyncAction {
    let id = cards[i].driver.id;
    if !absent_before(cards, id, i) {
        SyncAction::Skip
    } else {
        match stored_for(existing, id, existing.len() as int) {
            Some(old) => if latest_for(cards, id, cards.len() as int) == Some(old) {
                SyncAction::Unchanged
            } else {
                SyncAction::Update
            },
            None => SyncAction::Insert,
        }
    }
}

/// Number of the first `count` actions that are `action`.
pub open spec fn action_count(plan: Seq<SyncAction>, action: SyncAction, count: int) -> int
    decreases count,
{
    if count <= 0 {
        0
    } else {
        action_count(plan, action, count - 1) + if plan[count - 1] == action {
            1int
        } else {
            0int
        }
    }
}

impl AllowanceData {
    /// The allowance record of a timecard.
    pub fn from_timecard(tc: &MonthlyTimecard) -> (r: Self)
        ensures
            r == allowance_of(*tc),
    {
        AllowanceData {
            driver_id: tc.driver.id,
            shukkin_count: tc.summary.shukkin,
            dayoff_count: tc.summary.kyuka as i64 * 10,
            paidoff_count: tc.summary.yukyu,
            absence_count: tc.summary.kekkin as i64 * 10,
            overtime_count: tc.summary.total_zangyo,
            holidaywork_count: tc.summary.kyushutsu,
            additionalwork_payment: tc.summary.tsuika,
            kachiku_payment: tc.summary.kachiku,
            trail_payment: tc.summary.trailer,
            chikoku_count: tc.summary.chikoku,
            soutai_count: tc.summary.soutai,
            tokukyu_count: tc.summary.tokukyu,
        }
    }
}

/// The last stored record of a subject.
pub fn find_stored(existing: &Vec<AllowanceData>, id: i32) -> (r: Option<AllowanceData>)
    ensures
        r == stored_for(existing@, id, existing.len() as int),
{
    let mut k: usize = existing.len();
    while k > 0
        invariant
            k <= existing.len(),
            stored_for(existing@, id, existing.len() as int) == stored_for(existing@, id, k as int),
        decreases k,
    {
        if existing[k - 1].driver_id == id {
            return Some(existing[k - 1]);
        }
        k = k - 1;
    }
    None
}

/// The allowance record of the last timecard of a subject.
pub fn find_latest(cards: &Vec<MonthlyTimecard>, id: i32) -> (r: Option<AllowanceData>)
    ensures
        r == latest_for(cards@, id, cards.len() as int),
{
    let mut k: usize = cards.len();
    while k > 0
        invariant
            k <= cards.len(),
            latest_for(cards@, id, cards.len() as int) == latest_for(cards@, id, k as int),
        decreases k,
    {
        if cards[k - 1].driver.id == id {
            return Some(AllowanceData::from_timecard(&cards[k - 1]));
        }
        k = k - 1;
    }
    None
}

/// For each timecard of a report, what to do with it so that the stored
/// records say what the report says. Nothing stored is ever removed.
pub fn plan_sync(existing: &Vec<AllowanceData>, cards: &Vec<MonthlyTimecard>) -> (r: Vec<
    SyncAction,
>)
    ensures
        r.len() == cards.len(),
        forall|i: int| 0 <= i < cards.len() ==> (#[trigger] r[i]) == action_at(existing@, cards@, i),
{
    let mut plan: Vec<SyncAction> = Vec::new();
    let mut i: usize = 0;
    while i < cards.len()
        invariant
            i <= cards.len(),
            plan.len() == i,
            forall|k: int| 0 <= k < i ==> (#[trigger] plan[k]) == action_at(existing@, cards@, k),
        decreases cards.len() - i,
    {
        let id: i32 = cards[i].driver.id;
        let mut first: bool = true;
        let mut j: usize = 0;
        while j < i
            invariant
                j <= i < cards.len(),
                id == cards[i as int].driver.id,
                first == absent_before(cards@, id, j as int),
            decreases i - j,
        {
            if cards[j].driver.id == id {
                first = false;
            }
            j = j + 1;
        }
        let action: SyncAction = if !first {
            SyncAction::Skip
        } else {
            match find_stored(existing, id) {
                Some(old) => {
                    let same: bool = match find_latest(cards, id) {
                        Some(new) => new == old,
                        None => false,
                    };
                    if same {
                        SyncAction::Unchanged
                    } else {
                        SyncAction::Update
                    }
                },
                None => SyncAction::Insert,
            }
        };
        plan.push(action);
        i = i + 1;
    }
    plan
}

/// Counts the actions of a plan.
pub fn count_actions(plan: &Vec<SyncAction>) -> (r: SyncCounts)
    ensures
        r.inserted == action_count(plan@, SyncAction::Insert, plan.len() as int),
        r.updated == action_count(plan@, SyncAction::Update, plan.len() as int),
        r.unchanged == action_count(plan@, SyncAction::Unchanged, plan.len() as int),
{
    let mut inserted: usize = 0;
    let mut updated: usize = 0;
    let mut unchanged: usize = 0;
    let mut i: usize = 0;
    while i < plan.len()
        invariant
            i <= plan.len(),
            inserted == action_count(plan@, SyncAction::Insert, i as int),
            updated == action_count(plan@, SyncAction::Update, i as int),
            unchanged == action_count(plan@, SyncAction::Unchanged, i as int),
            inserted + updated + unchanged <= i,
        decreases plan.len() - i,
    {
        match plan[i] {
            SyncAction::Insert => {
                inserted = inserted + 1;
            },
            SyncAction::Update => {
                updated = updated + 1;
            },
            SyncAction::Unchanged => {
                unchanged = unchanged + 1;
            },
            SyncAction::Skip => {},
        }
        i = i + 1;
    }
    SyncCounts { inserted, updated, unchanged }
}

/// A timecard that says what is stored is never written: where the last
/// stored record of a subject equals what the report says last of it, the
/// subject's first timecard is left as stored.
pub proof fn lemma_unchanged_is_not_written(
    existing: Seq<AllowanceData>,
    cards: Seq<MonthlyTimecard>,
    i: int,
)
    requires
        0 <= i < cards.len(),
        absent_before(cards, cards[i].driver.id, i),
        stored_for(existing, cards[i].driver.id, existing.len() as int) == latest_for(
            cards,
            cards[i].driver.id,
            cards.len() as int,
        ),
    ensures
        action_at(existing, cards, i) == SyncAction::Unchanged,
{
    lemma_latest_exists(cards, cards[i].driver.id, cards.len() as int, i);
}

/// A subject with a timecard among the first `count` has a latest one.
pub proof fn lemma_latest_exists(cards: Seq<MonthlyTimecard>, id: i32, count: int, i: int)
    requires
        0 <= i < count <= cards.len(),
        cards[i].driver.id == id,
    ensures
        latest_for(cards, id, count) is Some,
    decreases count,
{
    if cards[count - 1].driver.id != id {
        lemma_latest_exists(cards, id, count - 1, i);
    }
}

} // verus!
