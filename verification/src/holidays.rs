//! A work calendar: public holidays and decreed workday transfers.
//!
//! A decreed workday (a weekend day declared working) is a workday; a listed
//! holiday is not; any other day is a workday exactly when it falls Monday to
//! Friday. Dates are day numbers (see [`crate::datetime`]).

use vstd::prelude::*;
use crate::datetime::{day_from_parts, parts_day, is_weekend, weekday_of};
use crate::state::{strictly_sorted, is_sorted_set_of, dedup_sorted};

verus! {

/// The day numbers of those `(year, month, day)` triples that name real
/// dates, in order (the others are skipped).
pub open spec fn parts_days(s: Seq<(i32, u32, u32)>) -> Seq<i64>
    decreases s.len(),
{
    if s.len() == 0 {
        Seq::empty()
    } else {
        let prev = parts_days(s.drop_last());
        match parts_day(s.last().0, s.last().1, s.last().2) {
            Some(d) => prev.push(d as i64),
            None => prev,
        }
    }
}

/// Whether `day` is a workday under a calendar with these holidays and
/// decreed workdays.
pub open spec fn spec_is_workday(holidays: Seq<i64>, workdays: Seq<i64>, day: int) -> bool {
    if workdays.contains(day as i64) {
        true
    } else if holidays.contains(day as i64) {
        false
    } else {
        !is_weekend(day)
    }
}

/// A work calendar: holidays and decreed workdays, each kept sorted and
/// without repeats.
#[derive(Debug)]
pub struct HolidayCalendar {
    holidays: Vec<i64>,
    workdays: Vec<i64>,
}

/// The day numbers of the given triples, sorted and without repeats.
fn sorted_days(src: &[(i32, u32, u32)]) -> (r: Vec<i64>)
    ensures
        is_sorted_set_of(parts_days(src@), r@),
{
    let mut days: Vec<i64> = Vec::new();
    let mut i: usize = 0;
    while i < src.len()
        invariant
            i <= src@.len(),
            days@ == parts_days(src@.take(i as int)),
        decreases src.len() - i,
    {
        let (y, m, d) = src[i];
        proof {
            assert(src@.take(i + 1).drop_last() =~= src@.take(i as int));
            assert(src@.take(i + 1).last() == src@[i as int]);
        }
        match day_from_parts(y, m, d) {
            Some(x) => {
                days.push(x as i64);
            },
            None => {},
        }
        i = i + 1;
    }
    proof {
        assert(src@.take(src@.len() as int) =~= src@);
    }
    dedup_sorted(&days)
}

/// Whether a strictly ascending list holds `x` (binary search).
fn sorted_contains(v: &Vec<i64>, x: i64) -> (r: bool)
    requires
        strictly_sorted(v@),
    ensures
        r == v@.contains(x),
{
    let mut lo: usize = 0;
    let mut hi: usize = v.len();
    while lo < hi
        invariant
            lo <= hi <= v@.len(),
            strictly_sorted(v@),
            forall|k: int| 0 <= k < lo ==> v@[k] < x,
            forall|k: int| hi <= k < v@.len() ==> v@[k] > x,
        decreases hi - lo,
    {
        let mid = lo + (hi - lo) / 2;
        if v[mid] == x {
            proof {
                assert(v@[mid as int] == x);
            }
            return true;
        } else if v[mid] < x {
            lo = mid + 1;
        } else {
            hi = mid;
        }
    }
    proof {
        if v@.contains(x) {
            let k = choose|k: int| 0 <= k < v@.len() && v@[k] == x;
            assert(v@[k] == x);
        }
    }
    false
}

impl HolidayCalendar {
    /// The holidays, ascending.
    pub closed spec fn holidays(&self) -> Seq<i64> {
        self.holidays@
    }

    /// The decreed workdays, ascending.
    pub closed spec fn workdays(&self) -> Seq<i64> {
        self.workdays@
    }

    /// Both lists strictly ascending.
    #[verifier::type_invariant]
    closed spec fn sorted(&self) -> bool {
        strictly_sorted(self.holidays@) && strictly_sorted(self.workdays@)
    }

    /// A calendar from `(year, month, day)` triples of holidays and of decreed
    /// workdays; triples that name no date are skipped, repeats collapse.
    pub fn from_static(holidays: &[(i32, u32, u32)], workdays: &[(i32, u32, u32)]) -> (c: Self)
        ensures
            is_sorted_set_of(parts_days(holidays@), c.holidays()),
            is_sorted_set_of(parts_days(workdays@), c.workdays()),
    {
        HolidayCalendar { holidays: sorted_days(holidays), workdays: sorted_days(workdays) }
    }

    /// Whether `day` is a workday: a decreed workday is, a holiday is not,
    /// and otherwise Monday to Friday are.
    pub fn is_workday(&self, day: i32) -> (r: bool)
        ensures
            r == spec_is_workday(self.holidays(), self.workdays(), day as int),
    {
        proof {
            use_type_invariant(self);
        }
        if sorted_contains(&self.workdays, day as i64) {
            return true;
        }
        if sorted_contains(&self.holidays, day as i64) {
            return false;
        }
        weekday_of(day) < 5
    }
}

} // verus!
