use taskstream_core::commands::{
    add_candidates, earliest_start, plan_timelog, seed_starts, wp_minutes_within_limit, TimelogFetch,
};
use taskstream_core::config::{BackendKind, Config, ServerProfile, TimelogStart, CONFIG_SCHEMA_VERSION};
use taskstream_core::entities::{InboxReason, StatusCategory, Task, TaskId, TaskKind};
use taskstream_core::strmap::StrMap;
use taskstream_core::holidays::HolidayCalendar;
use taskstream_core::timelog::{compute_at, parse_date, Status};

fn profile(backend: BackendKind, start: Option<(&str, bool)>, enabled: bool) -> ServerProfile {
    let mut p = ServerProfile::with_base_url("https://h".into());
    p.backend = backend;
    p.enabled = enabled;
    p.timelog_start = start.map(|(d, auto)| TimelogStart { date: d.into(), auto });
    p
}

fn planning_cfg() -> Config {
    let mut servers = StrMap::new();
    servers.insert("a".into(), profile(BackendKind::OpenProject, Some(("2026-01-05", false)), true));
    servers.insert("b".into(), profile(BackendKind::OpenProject, None, true));
    servers.insert("c".into(), profile(BackendKind::Github, None, true));
    servers.insert("d".into(), profile(BackendKind::OpenProject, None, false));
    Config { schema_version: CONFIG_SCHEMA_VERSION, default_server: None, proxy: None, servers }
}

#[test]
fn timelog_plan_fetches_excludes_and_seeds() {
    let plan = plan_timelog(&planning_cfg(), "2026-03-02");
    let fetch: Vec<(&str, &str)> = plan.fetch.iter().map(|f| (f.name.as_str(), f.since.as_str())).collect();
    assert_eq!(fetch, [("a", "2026-01-05"), ("b", "2026-03-02")]);
    assert_eq!(plan.excluded, vec!["c".to_string()]);
    assert_eq!(plan.seed, vec!["b".to_string()]);
    assert!(plan.any_auto);
}

#[test]
fn seeding_sets_only_missing_starts() {
    let mut cfg = planning_cfg();
    seed_starts(&mut cfg, &vec!["a".to_string(), "b".to_string()], "2026-03-02");
    let a = cfg.servers.get("a").unwrap().timelog_start.clone().unwrap();
    assert_eq!((a.date.as_str(), a.auto), ("2026-01-05", false));
    let b = cfg.servers.get("b").unwrap().timelog_start.clone().unwrap();
    assert_eq!((b.date.as_str(), b.auto), ("2026-03-02", true));
    assert!(cfg.servers.get("d").unwrap().timelog_start.is_none());
}

#[test]
fn earliest_start_ignores_invalid_dates() {
    let f = |n: &str, s: &str| TimelogFetch { name: n.into(), since: s.into() };
    let fetch = vec![f("a", "2026-02-01"), f("b", "garbage"), f("c", "2025-12-31")];
    assert_eq!(earliest_start(&fetch).as_deref(), Some("2025-12-31"));
    assert_eq!(earliest_start(&vec![f("a", "nope")]), None);
    assert_eq!(earliest_start(&Vec::new()), None);
}

fn task(raw: &str, title: &str) -> Task {
    Task {
        id: TaskId { display: format!("#{raw}"), raw: raw.into() },
        kind: TaskKind::WorkPackage,
        reason: InboxReason::Assigned,
        title: title.into(),
        url: None,
        status: None,
        status_category: StatusCategory::Open,
        project: None,
        mine: true,
        assignee: None,
        author: None,
        created_at: None,
        updated_at: None,
        due_date: None,
        priority: None,
        labels: Vec::new(),
        custom_fields: Vec::new(),
    }
}

#[test]
fn candidates_carry_logged_minutes_per_work_package() {
    let logged = vec![(10, 30), (11, 15), (10, 45)];
    assert!(wp_minutes_within_limit(&logged));
    let mut out = Vec::new();
    add_candidates(&mut out, "srv", &vec![task("10", "Ten"), task("x", "No id"), task("12", "Twelve")], &logged);
    assert_eq!(out.len(), 2);
    assert_eq!((out[0].server.as_str(), out[0].wp_id, out[0].subject.as_str(), out[0].logged_min), ("srv", 10, "Ten", 75));
    assert_eq!((out[1].wp_id, out[1].logged_min), (12, 0));
    assert!(!wp_minutes_within_limit(&vec![(1, i64::MAX), (2, 1)]));
}

#[test]
fn compute_at_checks_start_and_limits() {
    let today = parse_date("2026-03-04").unwrap(); // Wednesday
    let entries = vec![("2026-03-02".to_string(), 480), ("2026-03-03".to_string(), 100)];
    let (st, cells) = compute_at(&cal(), &entries, "2026-03-02", today).unwrap();
    assert_eq!(cells.len(), 3);
    assert_eq!(st.deficit_min, 380 + 480);
    assert_eq!(st.today_deficit_min, 480);
    assert_eq!(st.status, Status::Red);
    assert!(compute_at(&cal(), &entries, "not a date", today).is_none());
    assert!(compute_at(&cal(), &[("2026-03-02".to_string(), i64::MAX)], "2026-03-02", today).is_some());
}

#[test]
fn dropped_week_never_hides_a_shortfall() {
    // A full past week is dropped; the shortfall total still equals the sum
    // of every day's shortfall, and a past shortfall makes the status red.
    let today = parse_date("2026-03-11").unwrap(); // Wednesday of the next week
    let mut entries: Vec<(String, i64)> = ["2026-03-02", "2026-03-03", "2026-03-04", "2026-03-05", "2026-03-06"]
        .iter()
        .map(|d| (d.to_string(), 480))
        .collect();
    entries.push(("2026-03-09".to_string(), 480));
    entries.push(("2026-03-10".to_string(), 200));
    entries.push(("2026-03-11".to_string(), 480));
    let (st, _) = compute_at(&cal(), &entries, "2026-03-02", today).unwrap();
    assert_eq!(st.deficit_min, 280);
    assert_eq!(st.planned_min, 3 * 480);
    assert_eq!(st.status, Status::Red);
}

/// A calendar with no holidays and no decreed workdays.
fn cal() -> HolidayCalendar {
    HolidayCalendar::from_static(&[], &[])
}
