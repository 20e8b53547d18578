use taskstream_core::auth::{
    duplicate_candidates, duplicate_error, find_duplicate, identity, identity_from, login_precheck,
};
use taskstream_core::cache::{Cache, CACHE_TTL_SECS};
use taskstream_core::config::{BackendKind, Config, ServerProfile, CONFIG_SCHEMA_VERSION};
use taskstream_core::datetime::day_from_parts;
use taskstream_core::error::Error;
use taskstream_core::holidays::HolidayCalendar;
use taskstream_core::migrate::{needs_migration, plan, version_after_load, version_from, version_of, BASE_VERSION};
use taskstream_core::normalize::{escape_pointer_token, href_id, link_id, link_pointer};
use taskstream_core::resolve::{
    classify_principal, me_id, pick_by_name, pick_principal, resolve_known, NamedElement, PrincipalRef,
};
use taskstream_core::secrets::Secrets;
use taskstream_core::settings::{sunday_first, FirstDay, WeekStart};
use taskstream_core::state::{dedup_sorted, history_key, load, merge_history};
use taskstream_core::strmap::StrMap;
use taskstream_core::text::parse_i64;
use taskstream_core::tray::{draw_badge, to_argb, tray_icon, Pixmap};
use taskstream_core::update::{newer_release_notes, strip_v, GhRelease};
use taskstream_core::work_packages::{build_links, resolution_plan, RefKind, ResolvedIds, WpFields};

fn json(s: &str) -> serde_json::Value {
    serde_json::from_str(s).unwrap()
}

// ---- migrations -----------------------------------------------------------

#[test]
fn version_of_defaults_and_clamps() {
    assert_eq!(version_of(&json("{}")), BASE_VERSION);
    assert_eq!(version_of(&json(r#"{ "schema_version": 0 }"#)), BASE_VERSION);
    assert_eq!(version_of(&json(r#"{ "schema_version": 3 }"#)), 3);
    assert_eq!(version_of(&json(r#"{ "schema_version": "x" }"#)), BASE_VERSION);
}

fn step_a(v: &mut serde_json::Value) {
    v["a"] = serde_json::Value::from(1);
}

fn step_b(v: &mut serde_json::Value) {
    v["b"] = serde_json::Value::from(2);
}

fn apply(v: &mut serde_json::Value, from: u32, current: u32) -> bool {
    let steps: [fn(&mut serde_json::Value); 2] = [step_a, step_b];
    for i in plan(from, current) {
        steps[i](v);
    }
    needs_migration(from, current)
}

#[test]
fn runs_only_the_needed_steps() {
    // from v1 to v3: both steps run.
    let mut v = json(r#"{ "schema_version": 1 }"#);
    assert!(apply(&mut v, 1, 3));
    assert_eq!(v["a"], serde_json::Value::from(1));
    assert_eq!(v["b"], serde_json::Value::from(2));

    // from v2 to v3: only the second step runs.
    let mut v = json(r#"{ "schema_version": 2 }"#);
    assert!(apply(&mut v, 2, 3));
    assert!(v.get("a").is_none());
    assert_eq!(v["b"], serde_json::Value::from(2));
}

#[test]
fn at_or_above_current_runs_nothing() {
    // equal: no migration.
    let mut v = json(r#"{ "schema_version": 3 }"#);
    assert!(!apply(&mut v, 3, 3));
    assert!(v.get("a").is_none());
    // newer than binary: no migration, no panic.
    let mut v = json(r#"{ "schema_version": 4 }"#);
    assert!(!apply(&mut v, 4, 3));
}

#[test]
fn migration_plan_indices_and_recorded_version() {
    assert_eq!(plan(1, 2), vec![0]);
    assert_eq!(plan(2, 5), vec![1, 2, 3]);
    assert!(plan(5, 5).is_empty());
    assert_eq!(version_after_load(1, CONFIG_SCHEMA_VERSION), CONFIG_SCHEMA_VERSION);
    assert_eq!(version_after_load(99, CONFIG_SCHEMA_VERSION), 99);
    // A version beyond 32 bits is truncated, then clamped.
    assert_eq!(version_from(Some(0x1_0000_0000)), BASE_VERSION);
    assert_eq!(version_from(Some(0x1_0000_0007)), 7);
    assert_eq!(version_from(None), BASE_VERSION);
}

// ---- login ----------------------------------------------------------------

#[test]
fn identity_prefers_login_over_id() {
    assert_eq!(identity(&json(r#"{"login": "jdoe", "id": 7}"#)).as_deref(), Some("jdoe"));
}

#[test]
fn identity_falls_back_to_id() {
    assert_eq!(identity(&json(r#"{"id": 7}"#)).as_deref(), Some("7"));
}

#[test]
fn identity_none_when_absent() {
    assert_eq!(identity(&json(r#"{"name": "no id here"}"#)), None);
}

#[test]
fn identity_of_non_string_login_uses_id_text() {
    assert_eq!(identity(&json(r#"{"login": 5, "id": "u1"}"#)).as_deref(), Some("\"u1\""));
    assert_eq!(identity_from(None, Some("9".into())).as_deref(), Some("9"));
}

fn login_cfg() -> Config {
    let mut servers = StrMap::new();
    servers.insert("a".to_string(), ServerProfile::with_base_url("https://op.example".into()));
    servers.insert("b".to_string(), ServerProfile::with_base_url("https://op.example".into()));
    servers.insert("c".to_string(), ServerProfile::with_base_url("https://other.example".into()));
    let mut gh = ServerProfile::with_base_url("github.com".into());
    gh.backend = BackendKind::Github;
    servers.insert("gh".to_string(), gh);
    Config { schema_version: CONFIG_SCHEMA_VERSION, default_server: None, proxy: None, servers }
}

fn usage(r: Result<String, Error>) -> String {
    match r {
        Err(Error::Usage(m)) => m,
        other => panic!("expected a usage error, got {other:?}"),
    }
}

#[test]
fn login_precheck_trims_and_rejects() {
    let c = login_cfg();
    assert_eq!(login_precheck(&c, "a", "  tok \n").unwrap(), "tok");
    assert_eq!(usage(login_precheck(&c, "zz", "tok")), "unknown server 'zz'");
    assert_eq!(
        usage(login_precheck(&c, "gh", "tok")),
        "the github backend authenticates via gh; run 'gh auth login' instead"
    );
    assert_eq!(usage(login_precheck(&c, "a", " \t ")), "empty token");
}

#[test]
fn duplicate_candidates_are_same_base_others_in_order() {
    let c = login_cfg();
    assert_eq!(duplicate_candidates(&c, "a", "https://op.example"), vec!["b".to_string()]);
    assert_eq!(
        duplicate_candidates(&c, "new", "https://op.example"),
        vec!["a".to_string(), "b".to_string()]
    );
    assert!(duplicate_candidates(&c, "c", "https://other.example").is_empty());
}

#[test]
fn find_duplicate_picks_first_confirmed_match() {
    let cands = vec!["a".to_string(), "b".to_string(), "c".to_string()];
    let ids = vec![None, Some("jdoe".to_string()), Some("jdoe".to_string())];
    assert_eq!(find_duplicate(&cands, &ids, "jdoe").as_deref(), Some("b"));
    assert_eq!(find_duplicate(&cands, &ids, "other"), None);
    match duplicate_error("jdoe", "https://op.example", "b") {
        Error::Usage(m) => assert_eq!(
            m,
            "user 'jdoe' at https://op.example is already authenticated as server 'b'; use --force to add anyway"
        ),
        e => panic!("unexpected {e:?}"),
    }
}

// ---- HAL links ------------------------------------------------------------

#[test]
fn link_id_parses_numeric_tail() {
    let p = json(r#"{ "_links": { "project": { "href": "/api/v3/projects/7" } } }"#);
    assert_eq!(link_id(&p, "project"), Some(7));
}

#[test]
fn link_id_null_for_identifier_tail() {
    let p = json(r#"{ "_links": { "project": { "href": "/api/v3/projects/my-project" } } }"#);
    assert_eq!(link_id(&p, "project"), None);
}

#[test]
fn href_tail_and_pointer_escaping() {
    assert_eq!(href_id("/api/v3/users/42"), Some(42));
    assert_eq!(href_id("17"), Some(17));
    assert_eq!(href_id("/api/v3/users/"), None);
    assert_eq!(href_id("/x/-3"), Some(-3));
    assert_eq!(escape_pointer_token("a/b~c"), "a~1b~0c");
    assert_eq!(link_pointer("work/Package", "href"), "/_links/work~1Package/href");
    assert_eq!(link_id(&json(r#"{ "_links": {} }"#), "project"), None);
}

// ---- work calendar --------------------------------------------------------

fn day(y: i32, m: u32, d: u32) -> i32 {
    day_from_parts(y, m, d).unwrap()
}

#[test]
fn decreed_workday_on_weekend_is_a_workday() {
    // A Saturday declared a working day.
    let saturday = day(2025, 11, 1);
    let cal = HolidayCalendar::from_static(&[], &[(2025, 11, 1)]);
    assert!(cal.is_workday(saturday));
}

#[test]
fn calendar_holidays_and_plain_weekdays() {
    let cal = HolidayCalendar::from_static(&[(2026, 3, 9), (2026, 3, 9), (2026, 2, 30)], &[]);
    assert!(!cal.is_workday(day(2026, 3, 9))); // a listed Monday holiday
    assert!(cal.is_workday(day(2026, 7, 8))); // Wednesday
    assert!(!cal.is_workday(day(2026, 7, 11))); // Saturday
    assert!(!cal.is_workday(day(2026, 7, 12))); // Sunday
    assert_eq!(day_from_parts(2026, 2, 30), None);
}

// ---- release notes --------------------------------------------------------

fn rel(tag: &str) -> GhRelease {
    GhRelease {
        tag_name: tag.into(),
        name: Some(format!("Release {tag}")),
        body: Some(format!("notes for {tag}")),
        published_at: None,
        draft: false,
        prerelease: false,
    }
}

#[test]
fn keeps_only_newer_sorted_desc_and_strips_v() {
    let releases = vec![rel("v0.1.0"), rel("v0.3.0"), rel("0.2.0"), rel("v0.1.0")];
    let notes = newer_release_notes("0.1.0", releases);
    let versions: Vec<&str> = notes.iter().map(|n| n.version.as_str()).collect();
    assert_eq!(versions, ["0.3.0", "0.2.0"]);
    // Body carried through, version normalized without the leading v.
    assert_eq!(notes[0].body, "notes for v0.3.0");
}

#[test]
fn drops_drafts_prereleases_and_unparsable_tags() {
    let mut draft = rel("v0.4.0");
    draft.draft = true;
    let mut pre = rel("v0.5.0");
    pre.prerelease = true;
    let releases = vec![draft, pre, rel("nightly"), rel("v0.2.0")];
    let notes = newer_release_notes("0.1.0", releases);
    let versions: Vec<&str> = notes.iter().map(|n| n.version.as_str()).collect();
    assert_eq!(versions, ["0.2.0"]);
}

#[test]
fn unparsable_current_keeps_all_published() {
    let releases = vec![rel("v0.1.0"), rel("v0.2.0")];
    let notes = newer_release_notes("not-a-version", releases);
    assert_eq!(notes.len(), 2);
}

#[test]
fn release_order_is_semver_and_stable() {
    let mut a = rel("v1.10.0");
    a.body = None;
    let releases = vec![rel("v1.2.0"), a, rel("V1.9.0"), rel("v2.0.0-rc.1"), rel("1.2.0")];
    let notes = newer_release_notes("v1.0.0", releases);
    let versions: Vec<&str> = notes.iter().map(|n| n.version.as_str()).collect();
    assert_eq!(versions, ["2.0.0-rc.1", "1.10.0", "1.9.0", "1.2.0", "1.2.0"]);
    assert_eq!(notes[1].body, "");
    assert_eq!(notes[3].name.as_deref(), Some("Release v1.2.0"));
    assert_eq!(notes[4].name.as_deref(), Some("Release 1.2.0"));
    assert_eq!(strip_v("v1"), "1");
    assert_eq!(strip_v("V1"), "1");
    assert_eq!(strip_v("vv1"), "v1");
}

// ---- tray badge -----------------------------------------------------------

fn px(p: &Pixmap, x: i32, y: i32) -> [u8; 4] {
    let i = ((y * p.width + x) * 4) as usize;
    [p.data[i], p.data[i + 1], p.data[i + 2], p.data[i + 3]]
}

const RED: [u8; 4] = [0xff, 0xd0, 0x39, 0x2b];
const WHITE: [u8; 4] = [0xff; 4];

#[test]
fn badge_draws_circle_and_digit() {
    let mut p = Pixmap { width: 64, height: 64, data: vec![0; 64 * 64 * 4] };
    draw_badge(&mut p, 5);
    // Diameter 36 centred at (45, 45); glyph scale 5 starting at (38, 33).
    assert_eq!(px(&p, 38, 33), WHITE);
    assert_eq!(px(&p, 45, 45), WHITE);
    assert_eq!(px(&p, 43, 38), RED);
    assert_eq!(px(&p, 45, 27), RED);
    assert_eq!(px(&p, 0, 0), [0; 4]);
    assert_eq!(px(&p, 63, 63), [0; 4]);
}

#[test]
fn badge_over_99_and_zero_count_icon() {
    let base = Pixmap { width: 64, height: 64, data: vec![7; 64 * 64 * 4] };
    let same = tray_icon(&base, 0);
    assert_eq!(same.data, base.data);
    let badged = tray_icon(&base, 250);
    assert_ne!(badged.data, base.data);
    assert_eq!(px(&badged, 0, 0), [7; 4]);
    assert_eq!(px(&badged, 45, 27), RED);
}

#[test]
fn argb_conversion_moves_alpha_first() {
    assert_eq!(to_argb(&[1, 2, 3, 4, 5, 6], 3, 2), vec![0xff, 1, 2, 3, 0xff, 4, 5, 6]);
    assert_eq!(to_argb(&[1, 2, 3, 4], 4, 1), vec![4, 1, 2, 3]);
}

// ---- work-package bodies --------------------------------------------------

#[test]
fn create_resolves_project_and_type_then_links_them() {
    let mut f = WpFields::default();
    f.status = Some("New".into());
    f.assignee = Some("me".into());
    f.parent = Some("12".into());
    let plan = resolution_plan(true, &f);
    assert_eq!(plan.len(), 4);
    assert!(plan[0].0 == RefKind::Project && plan[0].1.is_empty());
    assert!(plan[1].0 == RefKind::Type && plan[1].1.is_empty());
    assert!(plan[2].0 == RefKind::Status && plan[2].1 == "New");
    assert!(plan[3].0 == RefKind::Principal && plan[3].1 == "me");
    let ids = ResolvedIds {
        project: Some("3".into()),
        type_: Some("1".into()),
        status: Some("7".into()),
        assignee: Some("5".into()),
    };
    let links = build_links(true, &f, &ids);
    let expect = [
        ("project", "/api/v3/projects/3"),
        ("type", "/api/v3/types/1"),
        ("status", "/api/v3/statuses/7"),
        ("assignee", "/api/v3/users/5"),
        ("parent", "/api/v3/work_packages/12"),
    ];
    assert_eq!(links.len(), expect.len());
    for (l, e) in links.iter().zip(expect.iter()) {
        assert_eq!((l.0.as_str(), l.1.as_str()), *e);
    }
}

#[test]
fn update_links_only_given_fields() {
    let mut f = WpFields::default();
    f.type_ = Some("Bug".into());
    f.parent = Some(String::new());
    let plan = resolution_plan(false, &f);
    assert_eq!(plan.len(), 1);
    assert!(plan[0].0 == RefKind::Type && plan[0].1 == "Bug");
    let ids = ResolvedIds { project: None, type_: Some("2".into()), status: None, assignee: None };
    let links = build_links(false, &f, &ids);
    assert_eq!(links, vec![("type".to_string(), "/api/v3/types/2".to_string())]);
}

// ---- cache ----------------------------------------------------------------

#[test]
fn cache_user_and_resolve_roundtrip_and_expiry() {
    let mut c = Cache::for_server("srv");
    c.put_user(7, Some("Jane".into()), 1000);
    c.put_user(8, None, 1000);
    assert_eq!(c.get_user(7, 1000), Some(Some("Jane".into())));
    assert_eq!(c.get_user(8, 1000), Some(None));
    assert_eq!(c.get_user(9, 1000), None);
    assert_eq!(c.get_user(7, 1000 + CACHE_TTL_SECS + 1), None);
    c.put_resolve("Status", "In Progress", "4", 50);
    assert_eq!(c.get_resolve("Status", "in progress", 60).as_deref(), Some("4"));
    assert_eq!(c.get_resolve("Type", "in progress", 60), None);
}

#[test]
fn cache_schema_roundtrip() {
    let mut c = Cache::for_server("srv");
    let mut f = StrMap::new();
    f.insert("customField1".to_string(), "Team".to_string());
    c.put_schema("/api/v3/schemas/1", f, 10);
    let got = c.get_schema("/api/v3/schemas/1", 20).unwrap();
    assert_eq!(got.get("customField1").map(|s| s.as_str()), Some("Team"));
    assert!(c.get_schema("/api/v3/schemas/2", 20).is_none());
}

// ---- history --------------------------------------------------------------

#[test]
fn history_load_and_merge() {
    assert_eq!(history_key("https://h", "u1"), "https://h#u1");
    let mut m = StrMap::new();
    m.insert("https://h#u1".to_string(), vec![5, 3, 5, 1]);
    assert_eq!(load(&m, "https://h", "u1"), vec![1, 3, 5]);
    assert!(load(&m, "https://h", "u2").is_empty());
    assert_eq!(merge_history(&vec![1, 3], &[3, 2, 9]), vec![1, 2, 3, 9]);
    assert_eq!(dedup_sorted(&vec![4, 4, -1]), vec![-1, 4]);
}

// ---- settings and secrets -------------------------------------------------

#[test]
fn week_start_maps_to_first_day() {
    assert_eq!(WeekStart::Monday.first_day(Some("US")), FirstDay::Monday);
    assert_eq!(WeekStart::Sunday.first_day(None), FirstDay::Sunday);
    assert_eq!(WeekStart::System.first_day(Some("US")), FirstDay::Sunday);
    assert_eq!(WeekStart::System.first_day(Some("RU")), FirstDay::Monday);
    assert_eq!(WeekStart::System.first_day(None), FirstDay::Monday);
    assert!(sunday_first("BR"));
    assert!(!sunday_first("DE"));
}

#[test]
fn secrets_env_path_forces_file_only() {
    let s = Secrets::resolve_with(Some("/tmp/x".into()), "/home/u/secrets".into());
    assert_eq!(s.fallback_path, "/tmp/x");
    assert!(s.file_only);
    let s = Secrets::resolve_with(None, "/home/u/secrets".into());
    assert_eq!(s.fallback_path, "/home/u/secrets");
    assert!(!s.file_only);
}

// ---- references -----------------------------------------------------------

fn el(id: &str, name: &str) -> NamedElement {
    NamedElement { id: Some(id.into()), name: Some(name.into()) }
}

fn api(r: Result<String, Error>) -> String {
    match r {
        Err(Error::Api(m)) => m,
        other => panic!("expected an api error, got {other:?}"),
    }
}

#[test]
fn principal_reference_classes() {
    assert!(matches!(classify_principal("  ME "), Ok(PrincipalRef::Me)));
    assert!(matches!(classify_principal(" 42 "), Ok(PrincipalRef::Id(ref s)) if s == "42"));
    match classify_principal("Jane  van Doe") {
        Ok(PrincipalRef::Search { lower, tokens, probe }) => {
            assert_eq!(lower, "jane  van doe");
            assert_eq!(tokens, vec!["jane", "van", "doe"]);
            assert_eq!(probe, "jane");
        }
        other => panic!("unexpected {other:?}"),
    }
    assert_eq!(
        api(classify_principal("   ").map(|_| String::new())),
        "Principal '' was not found. Pass a numeric user id or 'me'."
    );
    assert_eq!(me_id(Some("3".into())).unwrap(), "3");
    assert_eq!(api(me_id(None)), "Principal 'me' was not found. Pass a numeric user id or 'me'.");
}

#[test]
fn principal_pick_exact_tokens_and_ambiguity() {
    let es = vec![el("1", "Jane Doe"), el("2", "John Doe"), el("3", "Jane Doerr")];
    let toks = |v: &[&str]| v.iter().map(|s| s.to_string()).collect::<Vec<String>>();
    assert_eq!(pick_principal(&es, "Jane Doe", "jane doe", &toks(&["jane", "doe"])).unwrap(), "1");
    assert_eq!(pick_principal(&es, "john", "john", &toks(&["john"])).unwrap(), "2");
    assert_eq!(
        api(pick_principal(&es, "doe", "doe", &toks(&["doe"]))),
        "Principal \"doe\" is ambiguous (3 matches): 1: Jane Doe; 2: John Doe; 3: Jane Doerr. Pass a numeric user id."
    );
    assert_eq!(
        api(pick_principal(&es, "zed", "zed", &toks(&["zed"]))),
        "Principal \"zed\" was not found. Pass a numeric user id or 'me'."
    );
}

#[test]
fn enumeration_pick_by_name() {
    let es = vec![el("1", "New"), el("2", "Closed"), el("3", "In progress")];
    assert_eq!(pick_by_name(&es, "closed", "Status").unwrap(), "2");
    assert_eq!(
        api(pick_by_name(&es, "Open", "Status")),
        "Status \"Open\" was not found. Available: Closed, In progress, New"
    );
    let dup = vec![el("1", "Bug"), el("2", "bug")];
    assert_eq!(api(pick_by_name(&dup, "BUG", "Type")), "Type \"BUG\" is ambiguous. Pass a numeric id.");
    let noid = vec![NamedElement { id: None, name: Some("Task".into()) }];
    assert_eq!(api(pick_by_name(&noid, "task", "Type")), "Type \"task\" has no id");
}

#[test]
fn known_references_skip_lookup() {
    let mut c = Cache::for_server("srv");
    c.put_resolve("Status", "new", "1", 0);
    assert_eq!(resolve_known(&c, "Status", " 12 ", 5).as_deref(), Some("12"));
    assert_eq!(resolve_known(&c, "Status", " New ", 5).as_deref(), Some("1"));
    assert_eq!(resolve_known(&c, "Status", "Done", 5), None);
}

// ---- numbers --------------------------------------------------------------

#[test]
fn parse_i64_accepts_signs_and_rejects_rest() {
    assert_eq!(parse_i64("42"), Some(42));
    assert_eq!(parse_i64("+7"), Some(7));
    assert_eq!(parse_i64("-9223372036854775808"), Some(i64::MIN));
    assert_eq!(parse_i64("9223372036854775808"), None);
    assert_eq!(parse_i64(""), None);
    assert_eq!(parse_i64("-"), None);
    assert_eq!(parse_i64("1a"), None);
}

// ---- time zones -----------------------------------------------------------

use taskstream_core::datetime::Zone;

#[test]
fn resolve_is_lenient() {
    assert_eq!(Zone::resolve(None), Zone::local());
    assert_eq!(Zone::resolve(Some("")), Zone::local());
    assert_eq!(Zone::resolve(Some("Not/AZone")), Zone::local());
    assert_eq!(Zone::resolve(Some("Europe/Moscow")), Zone::parse("Europe/Moscow").unwrap());
    assert_eq!(Zone::resolve(Some("Europe/Moscow")).name(), Some("Europe/Moscow"));
}

#[test]
fn parse_is_strict() {
    assert!(Zone::parse("Europe/Moscow").is_ok());
    assert!(matches!(Zone::parse("nope"), Err(Error::Config(_))));
    match Zone::parse("nope") {
        Err(Error::Config(m)) => assert_eq!(m, "unknown timezone 'nope'"),
        other => panic!("unexpected {other:?}"),
    }
}

#[test]
fn format_datetime_converts_to_named_zone() {
    let z = Zone::parse("Europe/Moscow").unwrap(); // UTC+3, no DST
    // 09:30 UTC -> 12:30 Moscow.
    assert_eq!(z.format_datetime("2026-07-08T09:30:00Z"), "2026-07-08 12:30");
    // An offset input is normalized to the zone: 12:30+03:00 == 09:30 UTC.
    assert_eq!(z.format_datetime("2026-07-08T12:30:00+03:00"), "2026-07-08 12:30");
}

#[test]
fn format_datetime_passes_through_unparseable() {
    let z = Zone::local();
    assert_eq!(z.format_datetime("not-a-date"), "not-a-date");
    assert_eq!(z.format_datetime(""), "");
}

#[test]
fn today_in_named_zone_is_a_valid_date() {
    let _ = Zone::parse("Europe/Moscow").unwrap().today();
    let _ = Zone::local().today();
}

#[test]
fn first_migration_step_trims_every_profile_base_url() {
    let cfg = json(
        r#"{"servers": {"a": {"base_url": "https://h/op//"}, "b": {"token": "t"}, "c": {"base_url": "http://x"}}}"#,
    );
    let fixes = taskstream_core::migrate::base_url_step(&cfg);
    assert_eq!(
        fixes,
        vec![("a".to_string(), "https://h/op".to_string()), ("c".to_string(), "http://x".to_string())]
    );
    assert!(taskstream_core::migrate::base_url_step(&json(r#"{"servers": 3}"#)).is_empty());
}
