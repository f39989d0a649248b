//! Finding the two sampled entries of a row that a queried minute falls
//! between.

use vstd::prelude::*;
use vstd::arithmetic::div_mod::{
    lemma_fundamental_div_mod, lemma_fundamental_div_mod_converse, lemma_mod_bound,
};
use crate::interpolation::Fraction;
use crate::types::{DayData, HasMinutes};

verus! {

/// Where a minute falls among the entries of a row: the index of the last
/// entry not after it, the index of the next entry where the minute lies
/// strictly between the two, and how far from the one to the other it
/// lies.
#[derive(Debug, Clone, Copy, PartialEq, Eq)]
pub struct Bracket {
    pub before: usize,
    pub after: Option<usize>,
    pub fraction: Fraction,
}

/// The row has entries, and `minute` is not before its first nor after its
/// last.
pub open spec fn covers<E: HasMinutes>(row: DayData<E>, minute: int) -> bool {
    row.entries.len() > 0 && row.minute_at(0) <= minute <= row.minute_at(row.entries.len() - 1)
}

/// The number of whole sampling intervals from the row's first entry to
/// `minute`.
pub open spec fn candidate_index<E: HasMinutes>(row: DayData<E>, interval: int, minute: int) -> int {
    (minute - row.minute_at(0)) / interval
}

/// The bracket of `minute` in the row, or `None` where the row does not
/// cover the minute. A minute that is sampled has no successor and the
/// fraction 0.
pub open spec fn bracket_of<E: HasMinutes>(row: DayData<E>, interval: int, minute: int) -> Option<
    Bracket,
> {
    if !covers(row, minute) {
        None
    } else {
        let i = candidate_index(row, interval, minute);
        if row.minute_at(i) == minute {
            Some(
                Bracket {
                    before: i as usize,
                    after: None,
                    fraction: Fraction { numerator: 0, denominator: 1 },
                },
            )
        } else {
            Some(
                Bracket {
                    before: i as usize,
                    after: Some((i + 1) as usize),
                    fraction: Fraction {
                        numerator: (minute - row.minute_at(i)) as i32,
                        denominator: (row.minute_at(i + 1) - row.minute_at(i)) as i32,
                    },
                },
            )
        }
    }
}

/// In an evenly sampled row that covers `minute`, the candidate index is
/// the index of the last entry not after `minute`; the minute is either
/// that entry's, or lies strictly between it and the next entry.
pub proof fn lemma_candidate_brackets<E: HasMinutes>(row: DayData<E>, interval: int, minute: int)
    requires
        row.evenly_sampled(interval),
        covers(row, minute),
    ensures
        ({
            let i = candidate_index(row, interval, minute);
            &&& 0 <= i < row.entries.len()
            &&& row.minute_at(i) <= minute < row.minute_at(i) + interval
            &&& minute != row.minute_at(i) ==> i + 1 < row.entries.len() && row.minute_at(i + 1)
                == row.minute_at(i) + interval
        }),
{
    let first = row.minute_at(0);
    let last_index = row.entries.len() - 1;
    let offset = minute - first;
    let i = offset / interval;
    lemma_fundamental_div_mod(offset, interval);
    lemma_mod_bound(offset, interval);
    assert(row.minute_at(last_index) == first + last_index * interval);
    if i < 0 {
        assert(interval * i <= -interval) by (nonlinear_arith)
            requires
                i <= -1,
                interval > 0,
        ;
    }
    if i > last_index {
        assert(interval * i >= last_index * interval + interval) by (nonlinear_arith)
            requires
                i >= last_index + 1,
                interval > 0,
        ;
    }
    assert(row.minute_at(i) == first + i * interval);
    assert(i * interval == interval * i) by (nonlinear_arith);
    if minute != row.minute_at(i) {
        if i == last_index {
            assert(false);
        }
        assert(row.minute_at(i + 1) == first + (i + 1) * interval);
        assert((i + 1) * interval == i * interval + interval) by (nonlinear_arith);
    }
}

/// The minute of the `k`-th entry of an evenly sampled row has the bracket
/// of that entry alone.
pub proof fn lemma_sampled_minute_bracket<E: HasMinutes>(row: DayData<E>, interval: int, k: int)
    requires
        row.evenly_sampled(interval),
        0 <= k < row.entries.len(),
    ensures
        covers(row, row.minute_at(k)),
        candidate_index(row, interval, row.minute_at(k)) == k,
        bracket_of(row, interval, row.minute_at(k)) == Some(
            Bracket {
                before: k as usize,
                after: None,
                fraction: Fraction { numerator: 0, denominator: 1 },
            },
        ),
{
    let first = row.minute_at(0);
    let last_index = row.entries.len() - 1;
    assert(row.minute_at(k) == first + k * interval);
    assert(row.minute_at(last_index) == first + last_index * interval);
    assert(0 <= k * interval <= last_index * interval) by (nonlinear_arith)
        requires
            0 <= k <= last_index,
            interval > 0,
    ;
    assert(k * interval == interval * k + 0) by (nonlinear_arith);
    lemma_fundamental_div_mod_converse(k * interval, interval, k, 0);
}

/// Finds the entries of an evenly sampled row that `minutes` falls
/// between.
///
/// The entry before is found by its index, the number of whole intervals
/// from the row's first minute to `minutes`. A minute outside the row's
/// first and last entry has no bracket.
pub fn find_bracketing_entries<E: HasMinutes>(row: &DayData<E>, interval_minutes: i32, minutes: i32) -> (r:
    Option<Bracket>)
    requires
        row.evenly_sampled(interval_minutes as int),
    ensures
        r == bracket_of(*row, interval_minutes as int, minutes as int),
        r is None <==> !covers(*row, minutes as int),
        r matches Some(b) ==> {
            &&& b.before < row.entries.len()
            &&& row.minute_at(b.before as int) <= minutes
            &&& b.after is None ==> row.minute_at(b.before as int) == minutes
            &&& b.after matches Some(next) ==> {
                &&& next == b.before + 1
                &&& next < row.entries.len()
                &&& row.minute_at(b.before as int) < minutes < row.minute_at(next as int)
                &&& b.fraction.proper()
            }
        },
{
    let n = row.entries.len();
    if n == 0 {
        return None;
    }
    let first_minutes: i32 = row.entries[0].minutes();
    let last_minutes: i32 = row.entries[n - 1].minutes();
    assert(row.minute_at(0) == first_minutes);
    assert(row.minute_at(n - 1) == last_minutes);
    if minutes < first_minutes || minutes > last_minutes {
        return None;
    }
    proof {
        lemma_candidate_brackets(*row, interval_minutes as int, minutes as int);
    }
    let idx_before: usize = ((minutes - first_minutes) / interval_minutes) as usize;
    let t0: i32 = row.entries[idx_before].minutes();
    assert(row.minute_at(idx_before as int) == t0);
    if minutes == t0 {
        return Some(
            Bracket {
                before: idx_before,
                after: None,
                fraction: Fraction { numerator: 0, denominator: 1 },
            },
        );
    }
    let t1: i32 = row.entries[idx_before + 1].minutes();
    assert(row.minute_at(idx_before + 1) == t1);
    Some(
        Bracket {
            before: idx_before,
            after: Some(idx_before + 1),
            fraction: Fraction { numerator: minutes - t0, denominator: t1 - t0 },
        },
    )
}

} // verus!
