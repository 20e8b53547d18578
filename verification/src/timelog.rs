//! Work-log status against an 8h/weekday plan, in whole minutes.
//!
//! Plan: 480 minutes per workday of a work calendar (Monday to Friday unless a
//! holiday, and any decreed working weekend day), 0 on other days, for every
//! day from a start date up to and including today. A day's shortfall is
//! `max(0, plan - logged)` and its surplus `max(0, logged - plan)`: overlog on
//! one day never offsets another day's shortfall. A past week whose days show
//! no shortfall at all is dropped from the displayed totals; the current week
//! is always kept.
//!
//! Dates are day numbers (see [`crate::datetime`]); a time entry is the
//! `YYYY-MM-DD` text of the day it was spent on and its minutes.

use vstd::prelude::*;
use crate::datetime::{
    MIN_DAY, MAX_DAY, day_ymd, ymd_day, weekday, monday_of, weekday_of, format_ymd,
    parse_ymd, today_local,
};
use crate::strmap::str_eq;
use crate::holidays::{HolidayCalendar, spec_is_workday};

verus! {

/// Planned minutes for a full weekday.
pub const DAILY_NORM_MINUTES: i64 = 480;

/// One day of the work-log timeline.
#[derive(Debug, Clone)]
pub struct DayCell {
    /// `YYYY-MM-DD`.
    pub date: String,
    /// A planned weekday (plan > 0) versus a weekend.
    pub weekday: bool,
    pub plan_min: i64,
    pub logged_min: i64,
    /// `max(0, plan - logged)`.
    pub deficit_min: i64,
    /// `max(0, logged - plan)`.
    pub surplus_min: i64,
}

/// Overall work-log status.
#[derive(Debug, Clone, Copy, PartialEq, Eq, Structural)]
pub enum Status {
    /// A shortfall on a past day.
    Red,
    /// A shortfall only today.
    Yellow,
    /// Everything met, including today.
    Green,
    /// Everything met and some day overlogged.
    Over,
}

/// Aggregate result for the dashboard indicator.
#[derive(Debug, Clone, Copy, PartialEq, Eq, Structural)]
pub struct TimelogStatus {
    pub logged_min: i64,
    pub planned_min: i64,
    pub today_deficit_min: i64,
    /// Sum of per-day shortfalls over the displayed weeks.
    pub deficit_min: i64,
    /// Sum of per-day surpluses over the displayed weeks.
    pub surplus_min: i64,
    pub status: Status,
}

/// Planned minutes of a day: a full day on a workday of the calendar, none
/// otherwise.
pub open spec fn plan_of(cal: HolidayCalendar, d: int) -> int {
    if spec_is_workday(cal.holidays(), cal.workdays(), d) {
        480
    } else {
        0
    }
}

/// The minutes logged under `key` (entries with an empty day are ignored).
pub open spec fn logged_on(es: Seq<(String, i64)>, key: Seq<char>) -> int
    decreases es.len(),
{
    if es.len() == 0 {
        0
    } else {
        logged_on(es.drop_last(), key) + (if es.last().0@.len() > 0 && es.last().0@ == key {
            es.last().1 as int
        } else {
            0
        })
    }
}

/// The sum of the absolute minutes of all entries.
pub open spec fn abs_total(es: Seq<(String, i64)>) -> int
    decreases es.len(),
{
    if es.len() == 0 {
        0
    } else {
        abs_total(es.drop_last()) + (if es.last().1 >= 0 {
            es.last().1 as int
        } else {
            -(es.last().1 as int)
        })
    }
}

/// The text key of a day.
pub open spec fn day_key(d: int) -> Seq<char> {
    day_ymd(d as i32)
}

/// Minutes logged on a day.
pub open spec fn day_logged(es: Seq<(String, i64)>, d: int) -> int {
    logged_on(es, day_key(d))
}

/// A day's shortfall.
pub open spec fn day_deficit(cal: HolidayCalendar, es: Seq<(String, i64)>, d: int) -> int {
    if plan_of(cal, d) > day_logged(es, d) {
        plan_of(cal, d) - day_logged(es, d)
    } else {
        0
    }
}

/// A day's surplus.
pub open spec fn day_surplus(cal: HolidayCalendar, es: Seq<(String, i64)>, d: int) -> int {
    if day_logged(es, d) > plan_of(cal, d) {
        day_logged(es, d) - plan_of(cal, d)
    } else {
        0
    }
}

/// `c` is the timeline cell of day `d`.
pub open spec fn is_cell_of(cal: HolidayCalendar, es: Seq<(String, i64)>, d: int, c: DayCell) -> bool {
    &&& c.date@ == day_key(d)
    &&& c.weekday == (plan_of(cal, d) > 0)
    &&& c.plan_min == plan_of(cal, d)
    &&& c.logged_min == day_logged(es, d)
    &&& c.deficit_min == day_deficit(cal, es, d)
    &&& c.surplus_min == day_surplus(cal, es, d)
}

/// A day number in chrono's range.
pub open spec fn valid_day(d: int) -> bool {
    MIN_DAY <= d <= MAX_DAY
}

proof fn lemma_logged_bound(es: Seq<(String, i64)>, key: Seq<char>)
    ensures
        -abs_total(es) <= logged_on(es, key) <= abs_total(es),
        abs_total(es) >= 0,
    decreases es.len(),
{
    if es.len() > 0 {
        lemma_logged_bound(es.drop_last(), key);
    }
}

/// Day `d`'s logged minutes, shortfall and surplus fit in an `i64`.
pub open spec fn day_fits(cal: HolidayCalendar, es: Seq<(String, i64)>, d: int) -> bool {
    &&& i64::MIN <= day_logged(es, d) <= i64::MAX
    &&& day_deficit(cal, es, d) <= i64::MAX
    &&& day_surplus(cal, es, d) <= i64::MAX
}

/// Every day of `[start, today]` fits in an `i64`.
pub open spec fn days_fit(cal: HolidayCalendar, es: Seq<(String, i64)>, start: int, today: int) -> bool {
    forall|d: int| start <= d <= today ==> #[trigger] day_fits(cal, es, d)
}

/// The minutes the status and timeline of `[start, today]` hold all fit in
/// an `i64`: each day's figures and the displayed totals.
pub open spec fn window_fits(cal: HolidayCalendar, es: Seq<(String, i64)>, start: int, today: int) -> bool {
    &&& days_fit(cal, es, start, today)
    &&& (start <= today ==> {
        let t = kept_totals(cal, es, start, today, today + 1);
        &&& i64::MIN <= t.0 <= i64::MAX
        &&& i64::MIN <= t.1 <= i64::MAX
        &&& i64::MIN <= t.2 <= i64::MAX
        &&& i64::MIN <= t.3 <= i64::MAX
    })
}

/// The status and timeline of any window of valid days fit in an `i64`.
pub open spec fn fits_any_window(cal: HolidayCalendar, es: Seq<(String, i64)>) -> bool {
    forall|d0: int, t: int| valid_day(d0) && valid_day(t) ==> #[trigger] window_fits(cal, es, d0, t)
}

/// Each entry adds at most 2^63 absolute minutes.
proof fn lemma_abs_total_len(es: Seq<(String, i64)>)
    ensures
        0 <= abs_total(es) <= es.len() * 0x8000_0000_0000_0000,
    decreases es.len(),
{
    if es.len() > 0 {
        lemma_abs_total_len(es.drop_last());
    }
}

/// Minutes logged under `key`, summed exactly and then held as an `i64`.
fn logged_for(entries: &[(String, i64)], key: &str) -> (r: i64)
    requires
        i64::MIN <= logged_on(entries@, key@) <= i64::MAX,
    ensures
        r == logged_on(entries@, key@),
{
    let mut acc: i128 = 0;
    let mut k: usize = 0;
    while k < entries.len()
        invariant
            k <= entries@.len(),
            acc == logged_on(entries@.subrange(0, k as int), key@),
        decreases entries.len() - k,
    {
        proof {
            let p = entries@.subrange(0, k + 1);
            assert(p.drop_last() =~= entries@.subrange(0, k as int));
            lemma_logged_bound(p, key@);
            lemma_abs_total_len(p);
            assert(p.len() <= usize::MAX);
        }
        let e = &entries[k];
        if e.0.unicode_len() > 0 && str_eq(e.0.as_str(), key) {
            acc = acc + e.1 as i128;
        }
        k = k + 1;
    }
    assert(entries@.subrange(0, entries@.len() as int) =~= entries@);
    acc as i64
}

/// The cell of day `d`.
fn cell_for(cal: &HolidayCalendar, entries: &[(String, i64)], d: i32) -> (c: DayCell)
    requires
        valid_day(d as int),
        day_fits(*cal, entries@, d as int),
    ensures
        is_cell_of(*cal, entries@, d as int, c),
{
    let key = format_ymd(d);
    let plan: i64 = if cal.is_workday(d) { DAILY_NORM_MINUTES } else { 0 };
    let logged = logged_for(entries, key.as_str());
    DayCell {
        date: key,
        weekday: plan > 0,
        plan_min: plan,
        logged_min: logged,
        deficit_min: if plan > logged { plan - logged } else { 0 },
        surplus_min: if logged > plan { logged - plan } else { 0 },
    }
}

/// The per-day timeline from `start` to `today` inclusive (empty when `start`
/// is after `today`). Days off (weekends and holidays) are included, with no
/// plan.
pub fn build_timeline(cal: &HolidayCalendar, entries: &[(String, i64)], start: i32, today: i32) -> (cells: Vec<DayCell>)
    requires
        valid_day(start as int),
        valid_day(today as int),
        days_fit(*cal, entries@, start as int, today as int),
    ensures
        cells@.len() == (if start <= today { today - start + 1 } else { 0 }),
        forall|i: int| 0 <= i < cells@.len() ==> is_cell_of(*cal, entries@, start + i, #[trigger] cells@[i]),
{
    let mut cells: Vec<DayCell> = Vec::new();
    if start > today {
        return cells;
    }
    let mut cur: i32 = start;
    while cur <= today
        invariant
            valid_day(start as int),
            valid_day(today as int),
            start <= cur <= today + 1,
            days_fit(*cal, entries@, start as int, today as int),
            cells@.len() == cur - start,
            forall|i: int| 0 <= i < cells@.len() ==> is_cell_of(*cal, entries@, start + i, #[trigger] cells@[i]),
        decreases today + 1 - cur,
    {
        assert(day_fits(*cal, entries@, cur as int));
        cells.push(cell_for(cal, entries, cur));
        cur = cur + 1;
    }
    cells
}

/// The sum of the shortfalls of the days in `[lo, hi)`.
pub open spec fn sum_deficit(cal: HolidayCalendar, es: Seq<(String, i64)>, lo: int, hi: int) -> int
    decreases hi - lo,
{
    if hi <= lo {
        0
    } else {
        sum_deficit(cal, es, lo, hi - 1) + day_deficit(cal, es, hi - 1)
    }
}

/// The shortfall of the week holding `d`, over its days within
/// `[start, today]`.
pub open spec fn week_shortfall(cal: HolidayCalendar, es: Seq<(String, i64)>, start: int, today: int, d: int) -> int {
    let m = monday_of(d);
    let lo = if start > m {
        start
    } else {
        m
    };
    let hi = if today < m + 6 {
        today
    } else {
        m + 6
    };
    sum_deficit(cal, es, lo, hi + 1)
}

/// Whether day `d` counts toward the displayed totals: its week is the
/// current one, or its week shows some shortfall.
pub open spec fn kept(cal: HolidayCalendar, es: Seq<(String, i64)>, start: int, today: int, d: int) -> bool {
    monday_of(d) == monday_of(today) || week_shortfall(cal, es, start, today, d) != 0
}

/// Totals over the kept days of `[start, hi)`: planned, logged, shortfall,
/// surplus, and whether a kept day other than today has a shortfall.
pub open spec fn kept_totals(cal: HolidayCalendar, es: Seq<(String, i64)>, start: int, today: int, hi: int) -> (
    int,
    int,
    int,
    int,
    bool,
)
    decreases hi - start,
{
    if hi <= start {
        (0, 0, 0, 0, false)
    } else {
        let t = kept_totals(cal, es, start, today, hi - 1);
        let d = hi - 1;
        if kept(cal, es, start, today, d) {
            (
                t.0 + plan_of(cal, d),
                t.1 + day_logged(es, d),
                t.2 + day_deficit(cal, es, d),
                t.3 + day_surplus(cal, es, d),
                t.4 || (d != today && day_deficit(cal, es, d) > 0),
            )
        } else {
            t
        }
    }
}

/// The status: red for a shortfall before today, yellow for one only today,
/// over for a surplus without shortfall, green otherwise.
pub open spec fn status_of(prev_deficit: bool, today_deficit: int, surplus: int) -> Status {
    if prev_deficit {
        Status::Red
    } else if today_deficit > 0 {
        Status::Yellow
    } else if surplus > 0 {
        Status::Over
    } else {
        Status::Green
    }
}

/// The all-zero green status.
pub open spec fn zero_status() -> TimelogStatus {
    TimelogStatus {
        logged_min: 0,
        planned_min: 0,
        today_deficit_min: 0,
        deficit_min: 0,
        surplus_min: 0,
        status: Status::Green,
    }
}

/// `r` is the work-log status of the entries over `[start, today]`.
pub open spec fn is_status_of(cal: HolidayCalendar, es: Seq<(String, i64)>, start: int, today: int, r: TimelogStatus) -> bool {
    if start > today {
        r == zero_status()
    } else {
        let t = kept_totals(cal, es, start, today, today + 1);
        &&& r.planned_min == t.0
        &&& r.logged_min == t.1
        &&& r.deficit_min == t.2
        &&& r.surplus_min == t.3
        &&& r.today_deficit_min == day_deficit(cal, es, today)
        &&& r.status == status_of(t.4, day_deficit(cal, es, today), t.3)
    }
}

proof fn lemma_monday(d: int)
    ensures
        0 <= weekday(d) < 7,
        weekday(monday_of(d)) == 0,
        monday_of(d) <= d <= monday_of(d) + 6,
{
    assert(0 <= (d - 1) % 7 < 7) by (nonlinear_arith);
    assert(((d - (d - 1) % 7) - 1) % 7 == 0) by (nonlinear_arith);
}

proof fn lemma_same_week(m: int, t: int)
    requires
        weekday(m) == 0,
        0 <= t <= 6,
    ensures
        weekday(m + t) == t,
        monday_of(m + t) == m,
{
    assert((m + t - 1) % 7 == t) by (nonlinear_arith)
        requires
            (m - 1) % 7 == 0,
            0 <= t <= 6,
    ;
}

proof fn lemma_deficit_nonneg(cal: HolidayCalendar, es: Seq<(String, i64)>, d: int)
    ensures
        day_deficit(cal, es, d) >= 0,
{
}

proof fn lemma_sum_bounds(cal: HolidayCalendar, es: Seq<(String, i64)>, lo: int, hi: int, d: int)
    ensures
        sum_deficit(cal, es, lo, hi) >= 0,
        lo <= d < hi ==> day_deficit(cal, es, d) <= sum_deficit(cal, es, lo, hi),
    decreases hi - lo,
{
    if hi > lo {
        lemma_sum_bounds(cal, es, lo, hi - 1, d);
        lemma_deficit_nonneg(cal, es, hi - 1);
        lemma_deficit_nonneg(cal, es, d);
    }
}

/// A day of the window whose week is dropped from the totals has no
/// shortfall.
proof fn lemma_dropped_day_has_no_shortfall(cal: HolidayCalendar, es: Seq<(String, i64)>, start: int, today: int, d: int)
    requires
        start <= d <= today,
        !kept(cal, es, start, today, d),
    ensures
        day_deficit(cal, es, d) == 0,
{
    lemma_monday(d);
    let m = monday_of(d);
    let lo = if start > m { start } else { m };
    let hi = if today < m + 6 { today } else { m + 6 };
    lemma_sum_bounds(cal, es, lo, hi + 1, d);
    lemma_deficit_nonneg(cal, es, d);
}

proof fn lemma_kept_totals(cal: HolidayCalendar, es: Seq<(String, i64)>, start: int, today: int, hi: int)
    requires
        start <= hi <= today + 1,
    ensures
        kept_totals(cal, es, start, today, hi).2 == sum_deficit(cal, es, start, hi),
        kept_totals(cal, es, start, today, hi).4 <==> exists|d: int|
            start <= d < hi && d != today && #[trigger] day_deficit(cal, es, d) > 0,
    decreases hi - start,
{
    if hi > start {
        lemma_kept_totals(cal, es, start, today, hi - 1);
        let d = hi - 1;
        if !kept(cal, es, start, today, d) {
            lemma_dropped_day_has_no_shortfall(cal, es, start, today, d);
        }
        let t = kept_totals(cal, es, start, today, hi);
        if t.4 {
            if kept_totals(cal, es, start, today, hi - 1).4 {
                let w = choose|w: int| start <= w < hi - 1 && w != today && #[trigger] day_deficit(cal, es, w) > 0;
                assert(start <= w < hi && w != today && day_deficit(cal, es, w) > 0);
            } else {
                assert(d != today && day_deficit(cal, es, d) > 0);
            }
        }
        if exists|w: int| start <= w < hi && w != today && #[trigger] day_deficit(cal, es, w) > 0 {
            let w = choose|w: int| start <= w < hi && w != today && #[trigger] day_deficit(cal, es, w) > 0;
            if w < hi - 1 {
                assert(kept_totals(cal, es, start, today, hi - 1).4);
            } else {
                assert(w == d);
            }
        }
    } else {
        assert(!exists|w: int| start <= w < hi && w != today && #[trigger] day_deficit(cal, es, w) > 0);
    }
}

/// Dropping the weeks without shortfall never hides one, and a surplus on
/// one day never offsets another day's shortfall: for the status `r` of the
/// window `[start, today]`, the displayed shortfall is the sum of every
/// day's shortfall, each day's shortfall is at most that sum, and the status
/// is red exactly when some day before today has a shortfall.
pub proof fn law_shortfall_never_hidden(cal: HolidayCalendar, es: Seq<(String, i64)>, start: int, today: int, r: TimelogStatus)
    requires
        start <= today,
        is_status_of(cal, es, start, today, r),
    ensures
        r.deficit_min == sum_deficit(cal, es, start, today + 1),
        forall|d: int| start <= d <= today ==> #[trigger] day_deficit(cal, es, d) <= r.deficit_min,
        (r.status == Status::Red) <==> exists|d: int| start <= d < today && #[trigger] day_deficit(cal, es, d) > 0,
{
    lemma_kept_totals(cal, es, start, today, today + 1);
    assert forall|d: int| start <= d <= today implies #[trigger] day_deficit(cal, es, d) <= r.deficit_min by {
        lemma_sum_bounds(cal, es, start, today + 1, d);
    }
    let t = kept_totals(cal, es, start, today, today + 1);
    if t.4 {
        let w = choose|w: int| start <= w < today + 1 && w != today && #[trigger] day_deficit(cal, es, w) > 0;
        assert(start <= w < today && day_deficit(cal, es, w) > 0);
    }
    if exists|d: int| start <= d < today && #[trigger] day_deficit(cal, es, d) > 0 {
        let w = choose|w: int| start <= w < today && #[trigger] day_deficit(cal, es, w) > 0;
        assert(start <= w < today + 1 && w != today && day_deficit(cal, es, w) > 0);
    }
}

/// An empty, all-green status.
pub fn empty_status() -> (r: TimelogStatus)
    ensures
        r == zero_status(),
{
    TimelogStatus {
        logged_min: 0,
        planned_min: 0,
        today_deficit_min: 0,
        deficit_min: 0,
        surplus_min: 0,
        status: Status::Green,
    }
}

/// The bound on a day's figures, in absolute value.
pub open spec fn day_bound() -> int {
    0x8000_0000_0000_0000
}

/// Compute the work-log status over `[start, today]`; `start` after `today`
/// yields an empty green status. The sums are taken exactly and hold as
/// `i64` when the window fits.
#[verifier::rlimit(80)]
pub fn compute_status(cal: &HolidayCalendar, entries: &[(String, i64)], start: i32, today: i32) -> (r: TimelogStatus)
    requires
        valid_day(start as int),
        valid_day(today as int),
        window_fits(*cal, entries@, start as int, today as int),
    ensures
        is_status_of(*cal, entries@, start as int, today as int, r),
{
    if start > today {
        return empty_status();
    }
    let ghost es = entries@;
    let ghost c = *cal;
    let cells = build_timeline(cal, entries, start, today);
    let n = cells.len();
    let tw = weekday_of(today);
    let cur_monday: i64 = (today as i64) - (tw as i64);
    let mut planned: i128 = 0;
    let mut logged: i128 = 0;
    let mut deficit: i128 = 0;
    let mut surplus: i128 = 0;
    let mut prev: bool = false;
    let mut i: usize = 0;
    while i < n
        invariant
            es == entries@,
            c == *cal,
            valid_day(start as int),
            valid_day(today as int),
            start <= today,
            days_fit(c, es, start as int, today as int),
            n == cells@.len(),
            n == today - start + 1,
            cur_monday == monday_of(today as int),
            forall|k: int| 0 <= k < n ==> is_cell_of(c, es, start + k, #[trigger] cells@[k]),
            i <= n,
            i == 0 || i == n || weekday(start + i) == 0,
            (planned as int, logged as int, deficit as int, surplus as int, prev) == kept_totals(
                c,
                es,
                start as int,
                today as int,
                start + i,
            ),
            0 <= planned <= 480 * i,
            -(i * day_bound()) <= logged <= i * day_bound(),
            0 <= deficit <= i * day_bound(),
            0 <= surplus <= i * day_bound(),
        decreases n - i,
    {
        let d: i64 = (start as i64) + (i as i64);
        let wd = weekday_of(d as i32);
        let monday: i64 = d - (wd as i64);
        proof {
            lemma_monday(d as int);
        }
        let seg_last: i64 = if (today as i64) < monday + 6 {
            today as i64
        } else {
            monday + 6
        };
        let end: usize = i + ((seg_last - d + 1) as usize);
        proof {
            assert forall|x: int| d <= x <= seg_last implies monday_of(x) == monday && week_shortfall(
                c,
                es,
                start as int,
                today as int,
                x,
            ) == sum_deficit(c, es, d as int, seg_last + 1) by {
                lemma_same_week(monday as int, x - monday);
            }
        }
        let mut wsum: i128 = 0;
        let mut k: usize = i;
        while k < end
            invariant
                es == entries@,
                c == *cal,
                start <= today,
                n == today - start + 1,
                days_fit(c, es, start as int, today as int),
                n == cells@.len(),
                forall|k: int| 0 <= k < n ==> is_cell_of(c, es, start + k, #[trigger] cells@[k]),
                i <= k <= end,
                end <= n,
                end - i <= 7,
                d == start + i,
                wsum == sum_deficit(c, es, d as int, start + k),
                0 <= wsum <= (k - i) * day_bound(),
            decreases end - k,
        {
            assert(day_fits(c, es, start + k));
            wsum = wsum + cells[k].deficit_min as i128;
            k = k + 1;
        }
        let keep: bool = monday == cur_monday || wsum != 0;
        let mut k: usize = i;
        while k < end
            invariant
                es == entries@,
                c == *cal,
                valid_day(start as int),
                valid_day(today as int),
                days_fit(c, es, start as int, today as int),
                n == cells@.len(),
                n == today - start + 1,
                forall|k: int| 0 <= k < n ==> is_cell_of(c, es, start + k, #[trigger] cells@[k]),
                i <= k <= end,
                end <= n,
                d == start + i,
                forall|x: int| d <= x < start + end ==> kept(c, es, start as int, today as int, x) == keep,
                (planned as int, logged as int, deficit as int, surplus as int, prev) == kept_totals(
                    c,
                    es,
                    start as int,
                    today as int,
                    start + k,
                ),
                0 <= planned <= 480 * k,
                -(k * day_bound()) <= logged <= k * day_bound(),
                0 <= deficit <= k * day_bound(),
                0 <= surplus <= k * day_bound(),
            decreases end - k,
        {
            proof {
                assert(day_fits(c, es, start + k));
                assert(kept(c, es, start as int, today as int, start + k) == keep);
            }
            if keep {
                let cl = &cells[k];
                planned = planned + cl.plan_min as i128;
                logged = logged + cl.logged_min as i128;
                deficit = deficit + cl.deficit_min as i128;
                surplus = surplus + cl.surplus_min as i128;
                let day: i64 = (start as i64) + (k as i64);
                if day != today as i64 && cl.deficit_min > 0 {
                    prev = true;
                }
            }
            k = k + 1;
        }
        proof {
            if end < n {
                lemma_same_week(monday as int, 6);
                lemma_monday(monday + 7);
                assert(weekday(monday + 7) == 0) by (nonlinear_arith)
                    requires
                        (monday - 1) % 7 == 0,
                ;
            }
        }
        i = end;
    }
    let today_def = cells[n - 1].deficit_min;
    let status = if prev {
        Status::Red
    } else if today_def > 0 {
        Status::Yellow
    } else if surplus > 0 {
        Status::Over
    } else {
        Status::Green
    };
    TimelogStatus {
        logged_min: logged as i64,
        planned_min: planned as i64,
        today_deficit_min: today_def,
        deficit_min: deficit as i64,
        surplus_min: surplus as i64,
        status,
    }
}

/// Parse a `YYYY-MM-DD` date; `None` on any other shape.
pub fn parse_date(s: &str) -> (r: Option<i32>)
    ensures
        r == ymd_day(s@),
        r matches Some(d) ==> valid_day(d as int),
{
    parse_ymd(s)
}

/// Format a date as `YYYY-MM-DD`.
pub fn fmt(d: i32) -> (r: String)
    requires
        valid_day(d as int),
    ensures
        r@ == day_ymd(d),
        ymd_day(r@) == Some(d),
{
    format_ymd(d)
}

/// The `[start, today]` window of a configured start date: `None` when no
/// start is configured or it is not a valid date.
pub fn window(start: Option<&str>) -> (r: Option<(i32, i32)>)
    ensures
        match r {
            None => match start {
                None => true,
                Some(s) => ymd_day(s@) is None,
            },
            Some((s, t)) => start matches Some(x) && ymd_day(x@) == Some(s) && valid_day(t as int),
        },
{
    let s = match start {
        Some(s) => s,
        None => {
            return None;
        },
    };
    let d = match parse_ymd(s) {
        Some(d) => d,
        None => {
            return None;
        },
    };
    Some((d, today_local()))
}

/// The status and timeline of the entries over `[d0, today]`.
pub open spec fn is_result_of(
    cal: HolidayCalendar,
    es: Seq<(String, i64)>,
    d0: int,
    today: int,
    st: TimelogStatus,
    cells: Seq<DayCell>,
) -> bool {
    &&& is_status_of(cal, es, d0, today, st)
    &&& cells.len() == (if d0 <= today { today - d0 + 1 } else { 0 })
    &&& forall|i: int| 0 <= i < cells.len() ==> is_cell_of(cal, es, d0 + i, #[trigger] cells[i])
}

/// `r` holds the status and timeline of the entries over `[d0, today]`.
pub open spec fn gives_result(
    cal: HolidayCalendar,
    es: Seq<(String, i64)>,
    d0: int,
    today: int,
    r: Option<(TimelogStatus, Vec<DayCell>)>,
) -> bool {
    match r {
        Some(p) => is_result_of(cal, es, d0, today, p.0, p.1@),
        None => false,
    }
}

/// Compute status and timeline from a text start date against today.
/// `None` exactly when `start` is not a valid `YYYY-MM-DD` date.
pub fn compute(cal: &HolidayCalendar, entries: &[(String, i64)], start: &str) -> (r: Option<(TimelogStatus, Vec<DayCell>)>)
    requires
        fits_any_window(*cal, entries@),
    ensures
        r is None <==> ymd_day(start@) is None,
        r is Some ==> (ymd_day(start@) matches Some(d0) && exists|today: int|
            valid_day(today) && #[trigger] gives_result(*cal, entries@, d0 as int, today, r)),
{
    let d0 = match parse_ymd(start) {
        Some(d) => d,
        None => {
            return None;
        },
    };
    let today = today_local();
    assert(window_fits(*cal, entries@, d0 as int, today as int));
    let st = compute_status(cal, entries, d0, today);
    let cells = build_timeline(cal, entries, d0, today);
    assert(valid_day(today as int) && is_result_of(*cal, entries@, d0 as int, today as int, st, cells@));
    let r = Some((st, cells));
    assert(ymd_day(start@) == Some(d0));
    assert(gives_result(*cal, entries@, d0 as int, today as int, r));
    r
}

/// Compute status and timeline from a text start date against a given
/// today. `None` exactly when `start` is not a valid date.
pub fn compute_at(cal: &HolidayCalendar, entries: &[(String, i64)], start: &str, today: i32) -> (r: Option<(TimelogStatus, Vec<DayCell>)>)
    requires
        valid_day(today as int),
        forall|d0: int| valid_day(d0) ==> #[trigger] window_fits(*cal, entries@, d0, today as int),
    ensures
        r is None <==> ymd_day(start@) is None,
        r is Some ==> (ymd_day(start@) matches Some(d0) && gives_result(
            *cal,
            entries@,
            d0 as int,
            today as int,
            r,
        )),
{
    let d0 = match parse_ymd(start) {
        Some(d) => d,
        None => {
            return None;
        },
    };
    assert(window_fits(*cal, entries@, d0 as int, today as int));
    let st = compute_status(cal, entries, d0, today);
    let cells = build_timeline(cal, entries, d0, today);
    Some((st, cells))
}

/// A work package proposed for logging time, with the minutes already logged
/// on it in the window.
#[derive(Debug, Clone)]
pub struct Candidate {
    pub server: String,
    pub wp_id: i64,
    pub subject: String,
    pub logged_min: i64,
}

/// `a` ranks strictly before `b`: less logged time, then a lower id.
pub open spec fn cand_lt(a: Candidate, b: Candidate) -> bool {
    a.logged_min < b.logged_min || (a.logged_min == b.logged_min && a.wp_id < b.wp_id)
}

/// `a` and `b` rank equal.
pub open spec fn same_rank(a: Candidate, b: Candidate) -> bool {
    a.logged_min == b.logged_min && a.wp_id == b.wp_id
}

/// `r` is `s` stably sorted by rank, with `perm[k]` the position in `s` of
/// the candidate at position `k` of `r`.
pub open spec fn is_stable_sort(s: Seq<Candidate>, r: Seq<Candidate>, perm: Seq<int>) -> bool {
    &&& r.len() == s.len()
    &&& perm.len() == r.len()
    &&& forall|k: int| 0 <= k < r.len() ==> 0 <= #[trigger] perm[k] < s.len() && r[k] == s[perm[k]]
    &&& forall|k: int, l: int| 0 <= k < l < r.len() ==> #[trigger] perm[k] != #[trigger] perm[l]
    &&& forall|k: int, l: int| 0 <= k < l < r.len() ==> !cand_lt(#[trigger] r[l], #[trigger] r[k])
    &&& forall|k: int, l: int|
        0 <= k < l < r.len() && same_rank(#[trigger] r[k], #[trigger] r[l]) ==> perm[k] < perm[l]
}

fn ranks_before(a: &Candidate, b: &Candidate) -> (r: bool)
    ensures
        r == cand_lt(*a, *b),
{
    a.logged_min < b.logged_min || (a.logged_min == b.logged_min && a.wp_id < b.wp_id)
}

/// Rank candidates by least logged time first, then by work package id; equal
/// candidates keep their order.
pub fn rank_candidates(candidates: Vec<Candidate>) -> (r: Vec<Candidate>)
    ensures
        exists|perm: Seq<int>| is_stable_sort(candidates@, r@, perm),
{
    let ghost s = candidates@;
    let ghost mut perm: Seq<int> = Seq::empty();
    let mut rest = candidates;
    let mut out: Vec<Candidate> = Vec::new();
    let mut i: usize = 0;
    assert(s.len() == rest.len());
    while rest.len() > 0
        invariant
            i + rest@.len() == s.len(),
            s.len() <= usize::MAX,
            rest@ == s.subrange(i as int, s.len() as int),
            out@.len() == i,
            perm.len() == i,
            forall|k: int| 0 <= k < i ==> 0 <= #[trigger] perm[k] < i && out@[k] == s[perm[k]],
            forall|k: int, l: int| 0 <= k < l < i ==> #[trigger] perm[k] != #[trigger] perm[l],
            forall|k: int, l: int| 0 <= k < l < i ==> !cand_lt(#[trigger] out@[l], #[trigger] out@[k]),
            forall|k: int, l: int|
                0 <= k < l < i && same_rank(#[trigger] out@[k], #[trigger] out@[l]) ==> perm[k] < perm[l],
        decreases rest.len(),
    {
        let c = rest.remove(0);
        proof {
            assert(c == s[i as int]);
            assert(rest@ =~= s.subrange(i + 1, s.len() as int));
        }
        let mut p: usize = 0;
        while p < out.len() && !ranks_before(&c, &out[p])
            invariant
                p <= out@.len(),
                forall|q: int| 0 <= q < p ==> !cand_lt(c, #[trigger] out@[q]),
            decreases out.len() - p,
        {
            p = p + 1;
        }
        let ghost old_out = out@;
        let ghost old_perm = perm;
        out.insert(p, c);
        proof {
            perm = old_perm.insert(p as int, i as int);
            assert(out@ == old_out.insert(p as int, c));
            assert forall|k: int| 0 <= k < i + 1 implies 0 <= #[trigger] perm[k] < i + 1 && out@[k]
                == s[perm[k]] by {
                if k < p {
                    assert(perm[k] == old_perm[k] && out@[k] == old_out[k]);
                } else if k > p {
                    assert(perm[k] == old_perm[k - 1] && out@[k] == old_out[k - 1]);
                }
            }
            assert forall|k: int, l: int| 0 <= k < l < i + 1 implies #[trigger] perm[k]
                != #[trigger] perm[l] by {
                if k < p && l < p {
                    assert(perm[k] == old_perm[k] && perm[l] == old_perm[l]);
                } else if k < p && l == p {
                    assert(perm[k] == old_perm[k]);
                } else if k < p {
                    assert(perm[k] == old_perm[k] && perm[l] == old_perm[l - 1]);
                } else if k == p {
                    assert(perm[l] == old_perm[l - 1]);
                } else {
                    assert(perm[k] == old_perm[k - 1] && perm[l] == old_perm[l - 1]);
                }
            }
            assert forall|k: int, l: int| 0 <= k < l < i + 1 implies !cand_lt(
                #[trigger] out@[l],
                #[trigger] out@[k],
            ) by {
                if k < p && l < p {
                    assert(out@[k] == old_out[k] && out@[l] == old_out[l]);
                } else if k < p && l == p {
                    assert(out@[k] == old_out[k]);
                } else if k < p {
                    assert(out@[k] == old_out[k] && out@[l] == old_out[l - 1]);
                } else if k == p {
                    assert(out@[l] == old_out[l - 1]);
                    assert(cand_lt(c, old_out[p as int]));
                    if l - 1 > p {
                        assert(!cand_lt(old_out[l - 1], old_out[p as int]));
                    }
                } else {
                    assert(out@[k] == old_out[k - 1] && out@[l] == old_out[l - 1]);
                }
            }
            assert forall|k: int, l: int|
                0 <= k < l < i + 1 && same_rank(#[trigger] out@[k], #[trigger] out@[l]) implies perm[k]
                < perm[l] by {
                if k < p && l < p {
                    assert(out@[k] == old_out[k] && out@[l] == old_out[l]);
                    assert(perm[k] == old_perm[k] && perm[l] == old_perm[l]);
                } else if k < p && l == p {
                    assert(perm[k] == old_perm[k]);
                } else if k < p {
                    assert(out@[k] == old_out[k] && out@[l] == old_out[l - 1]);
                    assert(perm[k] == old_perm[k] && perm[l] == old_perm[l - 1]);
                } else if k == p {
                    assert(out@[l] == old_out[l - 1]);
                    assert(cand_lt(c, old_out[p as int]));
                    if l - 1 > p {
                        assert(!cand_lt(old_out[l - 1], old_out[p as int]));
                    }
                } else {
                    assert(out@[k] == old_out[k - 1] && out@[l] == old_out[l - 1]);
                    assert(perm[k] == old_perm[k - 1] && perm[l] == old_perm[l - 1]);
                }
            }
        }
        i = i + 1;
    }
    assert(is_stable_sort(s, out@, perm));
    out
}

} // verus!
