use taskstream_core::datetime::{today_local, weekday_of};
use taskstream_core::holidays::HolidayCalendar;
use taskstream_core::timelog::{
    compute_at,
    build_timeline, compute, compute_status, empty_status, fmt, parse_date, rank_candidates,
    window, Candidate, Status,
};

fn d(s: &str) -> i32 {
    parse_date(s).unwrap()
}

fn e(day: &str, minutes: i64) -> (String, i64) {
    (day.to_string(), minutes)
}

#[test]
fn parse_and_fmt() {
    assert_eq!(parse_date("2026-07-08"), Some(d("2026-07-08")));
    assert_eq!(parse_date("nope"), None);
    assert_eq!(fmt(d("2026-07-08")), "2026-07-08");
}

#[test]
fn day_numbers_count_from_the_common_era() {
    assert_eq!(parse_date("0001-01-01"), Some(1));
    assert_eq!(weekday_of(1), 0);
    assert_eq!(weekday_of(d("2026-07-08")), 2);
    assert_eq!(weekday_of(d("2026-07-11")), 5);
    assert_eq!(weekday_of(0), 6);
    assert_eq!(weekday_of(-6), 0);
}

#[test]
fn window_requires_a_configured_start() {
    assert_eq!(window(None), None);
    assert_eq!(window(Some("")), None);
    assert_eq!(window(Some("garbage")), None);
    let (start, _) = window(Some("2026-01-15")).unwrap();
    assert_eq!(start, d("2026-01-15"));
}

#[test]
fn start_after_today_is_empty_green() {
    let s = compute_status(&cal(), &[], d("2026-07-10"), d("2026-07-08"));
    assert_eq!(s.status, Status::Green);
    assert_eq!(s.planned_min, 0);
}

#[test]
fn single_full_weekday_is_green() {
    let s = compute_status(&cal(), &[e("2026-07-08", 480)], d("2026-07-08"), d("2026-07-08"));
    assert_eq!(s.status, Status::Green);
    assert_eq!(s.planned_min, 480);
    assert_eq!(s.logged_min, 480);
    assert_eq!(s.deficit_min, 0);
}

#[test]
fn shortfall_only_today_is_yellow() {
    let s = compute_status(&cal(), &[e("2026-07-08", 300)], d("2026-07-08"), d("2026-07-08"));
    assert_eq!(s.status, Status::Yellow);
    assert_eq!(s.today_deficit_min, 180);
    assert_eq!(s.deficit_min, 180);
}

#[test]
fn shortfall_on_past_day_is_red() {
    let entries = [
        e("2026-07-06", 300),
        e("2026-07-07", 480),
        e("2026-07-08", 480),
    ];
    let s = compute_status(&cal(), &entries, d("2026-07-06"), d("2026-07-08"));
    assert_eq!(s.status, Status::Red);
    assert_eq!(s.today_deficit_min, 0);
    assert_eq!(s.deficit_min, 180);
}

#[test]
fn overlog_without_deficit_is_over() {
    let s = compute_status(&cal(), &[e("2026-07-08", 600)], d("2026-07-08"), d("2026-07-08"));
    assert_eq!(s.status, Status::Over);
    assert_eq!(s.surplus_min, 120);
    assert_eq!(s.deficit_min, 0);
}

#[test]
fn overlog_does_not_offset_other_day_deficit() {
    let entries = [e("2026-07-06", 600), e("2026-07-07", 480), e("2026-07-08", 300)];
    let s = compute_status(&cal(), &entries, d("2026-07-06"), d("2026-07-08"));
    assert_eq!(s.deficit_min, 180);
    assert_eq!(s.surplus_min, 120);
    assert_eq!(s.status, Status::Yellow);
}

#[test]
fn weekend_has_no_plan() {
    let s = compute_status(&cal(), &[], d("2026-07-11"), d("2026-07-11"));
    assert_eq!(s.planned_min, 0);
    assert_eq!(s.status, Status::Green);
}

#[test]
fn fully_filled_past_week_is_dropped_from_totals() {
    let mut entries = Vec::new();
    for day in ["2026-06-29", "2026-06-30", "2026-07-01", "2026-07-02", "2026-07-03"] {
        entries.push(e(day, 480));
    }
    entries.push(e("2026-07-06", 300));
    let s = compute_status(&cal(), &entries, d("2026-06-29"), d("2026-07-06"));
    assert_eq!(s.planned_min, 480);
    assert_eq!(s.logged_min, 300);
    assert_eq!(s.status, Status::Yellow);
}

#[test]
fn short_past_week_is_kept_in_totals() {
    let mut entries = Vec::new();
    for day in ["2026-06-29", "2026-06-30", "2026-07-01", "2026-07-02"] {
        entries.push(e(day, 480));
    }
    entries.push(e("2026-07-06", 480));
    let s = compute_status(&cal(), &entries, d("2026-06-29"), d("2026-07-06"));
    assert_eq!(s.planned_min, 480 * 6);
    assert_eq!(s.logged_min, 480 * 5);
    assert_eq!(s.deficit_min, 480);
    assert_eq!(s.status, Status::Red);
}

#[test]
fn entries_with_empty_day_or_other_days_are_ignored() {
    let entries = [e("", 480), e("2026-07-07", 480), e("2026-07-08", 240), e("2026-07-08", 240)];
    let s = compute_status(&cal(), &entries, d("2026-07-08"), d("2026-07-08"));
    assert_eq!(s.logged_min, 480);
    assert_eq!(s.status, Status::Green);
}

#[test]
fn rank_candidates_least_logged_first() {
    let c = |server: &str, wp: i64, logged: i64| Candidate {
        server: server.into(),
        wp_id: wp,
        subject: format!("wp{wp}"),
        logged_min: logged,
    };
    let ranked = rank_candidates(vec![c("a", 3, 120), c("a", 1, 0), c("b", 2, 0)]);
    assert_eq!(
        ranked.iter().map(|x| x.wp_id).collect::<Vec<_>>(),
        vec![1, 2, 3]
    );
}

#[test]
fn rank_candidates_is_stable_for_equal_ranks() {
    let c = |server: &str, wp: i64, logged: i64| Candidate {
        server: server.into(),
        wp_id: wp,
        subject: String::new(),
        logged_min: logged,
    };
    let ranked = rank_candidates(vec![c("b", 5, 10), c("a", 5, 10), c("c", 1, 30)]);
    assert_eq!(
        ranked.iter().map(|x| x.server.as_str()).collect::<Vec<_>>(),
        vec!["b", "a", "c"]
    );
}

#[test]
fn compute_rejects_bad_start_and_empty_status_is_green() {
    assert!(compute(&cal(), &[], "not-a-date").is_none());
    assert_eq!(empty_status().status, Status::Green);
    assert_eq!(empty_status().planned_min, 0);
    let (_, timeline) = compute(&cal(), &[], &fmt(today_local())).unwrap();
    assert_eq!(timeline.len(), 1);
}

#[test]
fn compute_holds_totals_up_to_the_i64_limit() {
    let big = [e("2026-07-08", i64::MAX)];
    let (st, cells) = compute_at(&cal(), &big, "2026-07-08", d("2026-07-08")).unwrap();
    assert_eq!(st.logged_min, i64::MAX);
    assert_eq!(st.surplus_min, i64::MAX - 480);
    assert_eq!(cells[0].logged_min, i64::MAX);
    assert!(compute(&cal(), &big, "2026-07-08").is_some());
}

#[test]
fn holiday_weekday_carries_no_plan() {
    // 2026-03-09, a Monday, listed as a holiday; 2026-03-07, a Saturday,
    // decreed a workday.
    let c = HolidayCalendar::from_static(&[(2026, 3, 9)], &[(2026, 3, 7)]);
    let s = compute_status(&c, &[], d("2026-03-09"), d("2026-03-09"));
    assert_eq!(s.planned_min, 0);
    assert_eq!(s.deficit_min, 0);
    assert_eq!(s.today_deficit_min, 0);
    assert_eq!(s.status, Status::Green);
    let cells = build_timeline(&c, &[], d("2026-03-07"), d("2026-03-09"));
    assert_eq!(cells[0].plan_min, 480);
    assert!(cells[0].weekday);
    assert_eq!(cells[1].plan_min, 0);
    assert_eq!(cells[2].plan_min, 0);
    assert!(!cells[2].weekday);
}

#[test]
fn timeline_marks_weekend_and_deficit() {
    let entries = [e("2026-07-10", 300), e("2026-07-13", 480)];
    let cells = build_timeline(&cal(), &entries, d("2026-07-10"), d("2026-07-13"));
    assert_eq!(cells.len(), 4);
    assert!(cells[0].weekday);
    assert_eq!(cells[0].deficit_min, 180);
    assert!(!cells[1].weekday);
    assert_eq!(cells[1].plan_min, 0);
    assert!(!cells[2].weekday);
    assert!(cells[3].weekday);
    assert_eq!(cells[3].deficit_min, 0);
    assert_eq!(cells[1].date, "2026-07-11");
}

/// A calendar with no holidays and no decreed workdays.
fn cal() -> HolidayCalendar {
    HolidayCalendar::from_static(&[], &[])
}
