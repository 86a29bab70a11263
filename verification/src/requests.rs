//! Requests for a report: which timecards a request selects, and the
//! names of what it produces.

use vstd::prelude::*;
use crate::text::{push_int, push_two_digits, int_text, two_digit_text};
use crate::timecard_data::MonthlyTimecard;

verus! {

/// A request for the report of a month, of all subjects or of one.
#[derive(Clone, Copy, Debug, PartialEq, Eq, Structural)]
pub struct PdfRequest {
    pub year: i32,
    pub month: u32,
    pub driver_id: Option<i32>,
}

/// What is answered where a report cannot be made.
#[derive(Clone, Debug, PartialEq, Eq)]
pub struct ErrorResponse {
    pub error: String,
}

/// Whether a request asks for the timecard of the subject `id`.
pub open spec fn selects(driver_id: Option<i32>, id: i32) -> bool {
    match driver_id {
        Some(wanted) => wanted == id,
        None => true,
    }
}

/// The timecards that a request selects, in their order.
pub open spec fn selected(cards: Seq<MonthlyTimecard>, driver_id: Option<i32>) -> Seq<
    MonthlyTimecard,
>
    decreases cards.len(),
{
    if cards.len() == 0 {
        Seq::empty()
    } else if selects(driver_id, cards.last().driver.id) {
        selected(cards.drop_last(), driver_id).push(cards.last())
    } else {
        selected(cards.drop_last(), driver_id)
    }
}

/// The name of the file of a grid report.
pub open spec fn grid_file_text(year: int, month: nat, driver_id: Option<i32>) -> Seq<char> {
    match driver_id {
        Some(id) => "timecard_"@ + int_text(year) + "_"@ + two_digit_text(month) + "_"@
            + int_text(id as int) + ".pdf"@,
        None => "timecard_"@ + int_text(year) + "_"@ + two_digit_text(month) + ".pdf"@,
    }
}

/// The name of the file of a calendar report.
pub open spec fn calendar_file_text(year: int, month: nat) -> Seq<char> {
    "timecard_shukei_"@ + int_text(year) + "_"@ + two_digit_text(month) + ".pdf"@
}

/// The selection is a part of the report, in the report's order: nothing
/// is added.
pub proof fn lemma_selected_is_shorter(cards: Seq<MonthlyTimecard>, driver_id: Option<i32>)
    ensures
        selected(cards, driver_id).len() <= cards.len(),
        forall|k: int|
            0 <= k < selected(cards, driver_id).len() ==> selects(
                driver_id,
                (#[trigger] selected(cards, driver_id)[k]).driver.id,
            ),
        driver_id is None ==> selected(cards, driver_id) == cards,
    decreases cards.len(),
{
    if cards.len() > 0 {
        lemma_selected_is_shorter(cards.drop_last(), driver_id);
        if driver_id is None {
            assert(cards.drop_last().push(cards.last()) =~= cards);
        }
    }
}

/// Selecting from the first timecards and then from one more is selecting
/// from all of them.
pub proof fn lemma_selected_step(cards: Seq<MonthlyTimecard>, driver_id: Option<i32>, n: int)
    requires
        0 <= n < cards.len(),
    ensures
        selected(cards.take(n + 1), driver_id) == if selects(driver_id, cards[n].driver.id) {
            selected(cards.take(n), driver_id).push(cards[n])
        } else {
            selected(cards.take(n), driver_id)
        },
{
    assert(cards.take(n + 1).drop_last() =~= cards.take(n));
}

impl PdfRequest {
    /// Keeps the timecards that the request selects.
    pub fn select(&self, cards: &mut Vec<MonthlyTimecard>)
        ensures
            final(cards)@ == selected(old(cards)@, self.driver_id),
    {
        let wanted: i32 = match self.driver_id {
            Some(id) => id,
            None => {
                proof {
                    lemma_selected_is_shorter(cards@, self.driver_id);
                }
                return ;
            },
        };
        let mut kept: usize = 0;
        let ghost mut seen: int = 0;
        while kept < cards.len()
            invariant
                kept <= cards.len(),
                self.driver_id == Some(wanted),
                0 <= seen <= old(cards).len(),
                cards.len() - kept == old(cards).len() - seen,
                cards@.take(kept as int) == selected(old(cards)@.take(seen), self.driver_id),
                cards@.skip(kept as int) == old(cards)@.skip(seen),
            decreases cards.len() - kept,
        {
            proof {
                lemma_selected_step(old(cards)@, self.driver_id, seen);
                assert(cards@[kept as int] == cards@.skip(kept as int)[0]);
                assert(old(cards)@[seen] == old(cards)@.skip(seen)[0]);
            }
            let ghost before = cards@;
            if cards[kept].driver.id == wanted {
                proof {
                    assert(before.take(kept + 1) =~= before.take(kept as int).push(
                        before[kept as int],
                    ));
                    assert(before.skip(kept + 1) =~= before.skip(kept as int).skip(1));
                    assert(old(cards)@.skip(seen + 1) =~= old(cards)@.skip(seen).skip(1));
                }
                kept = kept + 1;
            } else {
                cards.remove(kept);
                proof {
                    assert(cards@.take(kept as int) =~= before.take(kept as int));
                    assert(cards@.skip(kept as int) =~= before.skip(kept as int).skip(1));
                    assert(old(cards)@.skip(seen + 1) =~= old(cards)@.skip(seen).skip(1));
                }
            }
            proof {
                seen = seen + 1;
            }
        }
        proof {
            assert(cards@.take(cards@.len() as int) =~= cards@);
            assert(old(cards)@.take(old(cards)@.len() as int) =~= old(cards)@);
        }
    }

    /// The name of the file of the grid report.
    pub fn grid_file_name(&self) -> (r: String)
        ensures
            r@ == grid_file_text(self.year as int, self.month as nat, self.driver_id),
    {
        let mut out: String = String::from_str("timecard_");
        push_int(&mut out, self.year as i64);
        out.append("_");
        push_two_digits(&mut out, self.month as u64);
        match self.driver_id {
            Some(id) => {
                out.append("_");
                push_int(&mut out, id as i64);
            },
            None => {},
        }
        out.append(".pdf");
        assert(out@ =~= grid_file_text(self.year as int, self.month as nat, self.driver_id));
        out
    }

    /// The name of the file of the calendar report.
    pub fn calendar_file_name(&self) -> (r: String)
        ensures
            r@ == calendar_file_text(self.year as int, self.month as nat),
    {
        let mut out: String = String::from_str("timecard_shukei_");
        push_int(&mut out, self.year as i64);
        out.append("_");
        push_two_digits(&mut out, self.month as u64);
        out.append(".pdf");
        assert(out@ =~= calendar_file_text(self.year as int, self.month as nat));
        out
    }
}

impl ErrorResponse {
    /// The answer where a request selects no timecard.
    pub fn no_timecards() -> (r: Self)
        ensures
            r.error@ == "No timecards found"@,
    {
        ErrorResponse { error: String::from_str("No timecards found") }
    }

    /// The answer where a step failed: what failed and why.
    pub fn failed(what: &str, why: &str) -> (r: Self)
        ensures
            r.error@ == what@ + ": "@ + why@,
    {
        let mut error: String = String::from_str(what);
        error.append(": ");
        error.append(why);
        ErrorResponse { error }
    }
}

} // verus!
