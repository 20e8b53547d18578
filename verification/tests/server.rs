use taskstream_core::settings::{tray_labels, Lang};
use taskstream_core::tray::tool_tip_title;
use taskstream_core::commands::server_infos;
use taskstream_core::config::Config;
use taskstream_core::error::Error;
use taskstream_core::server_cmd::{run, ServerCmd, ServerOutcome};
use taskstream_core::time_entries::{has_comment_text, time_filters, unread_to_mark};

fn add(name: &str, url: &str, force: bool) -> ServerCmd {
    ServerCmd::Add {
        name: name.into(),
        url: url.into(),
        backend: "openproject".into(),
        display_name: None,
        proxy: None,
        timeout: 30,
        verify_ssl: true,
        poll_secs: None,
        disabled: false,
        default: false,
        force,
    }
}

fn msg(o: &ServerOutcome) -> &str {
    o.message.as_deref().unwrap_or("")
}

fn usage<T: std::fmt::Debug>(r: Result<T, Error>) -> String {
    match r {
        Err(Error::Usage(m)) => m,
        other => panic!("expected a usage error, got {other:?}"),
    }
}

#[test]
fn add_list_setdefault_remove() {
    let mut cfg = Config::default();
    let o = run(&mut cfg, add("primary", "https://h/openproject", false), None).unwrap();
    assert!(o.save);
    assert!(msg(&o).contains("added server 'primary'"));

    let o = run(&mut cfg, ServerCmd::List, None).unwrap();
    assert!(o.list && !o.save);
    let infos = server_infos(&cfg);
    assert_eq!(infos.len(), 1);
    assert!(infos[0].is_default);

    let o = run(&mut cfg, ServerCmd::Remove { name: "primary".into() }, None).unwrap();
    assert!(msg(&o).contains("removed server 'primary'"));
    assert_eq!(o.delete_token.as_deref(), Some("primary"));
    assert!(cfg.default_server.is_none());
}

#[test]
fn proxy_set_show_and_clear_for_server_and_global() {
    let mut cfg = Config::default();
    run(&mut cfg, add("primary", "https://h/openproject", false), None).unwrap();

    // Per-server override: set, show, then clear (defaults to the default server).
    let px = |p: Option<&str>, clear: bool| ServerCmd::Proxy { server: None, proxy: p.map(|s| s.to_string()), clear };
    let o = run(&mut cfg, px(Some("socks5://p:1"), false), None).unwrap();
    assert!(msg(&o).contains("proxy for 'primary' -> socks5://p:1"));
    let o = run(&mut cfg, px(None, false), None).unwrap();
    assert!(msg(&o).contains("socks5://p:1"));
    assert!(!o.save);
    // An empty value clears the override (inherit global/env).
    let o = run(&mut cfg, px(Some(""), false), None).unwrap();
    assert!(msg(&o).contains("cleared proxy override for 'primary'"));
    let o = run(&mut cfg, px(None, false), None).unwrap();
    assert_eq!(msg(&o), "");

    // Global default: set, show, then clear via --clear.
    let gp = |p: Option<&str>, clear: bool| ServerCmd::GlobalProxy { proxy: p.map(|s| s.to_string()), clear };
    let o = run(&mut cfg, gp(Some("http://g:2"), false), None).unwrap();
    assert!(msg(&o).contains("global proxy -> http://g:2"));
    let o = run(&mut cfg, gp(None, false), None).unwrap();
    assert!(msg(&o).contains("http://g:2"));
    let o = run(&mut cfg, gp(None, true), None).unwrap();
    assert!(msg(&o).contains("cleared global proxy"));
    let o = run(&mut cfg, gp(None, false), None).unwrap();
    assert_eq!(msg(&o), "");
}

#[test]
fn add_rejects_duplicate_name_unless_forced() {
    let mut cfg = Config::default();
    let o = run(&mut cfg, add("primary", "https://h/openproject", false), None).unwrap();
    assert!(msg(&o).contains("added server 'primary'"));

    // A second add with the same name is rejected and does not overwrite.
    let e = usage(run(&mut cfg, add("primary", "https://other/openproject", false), None));
    assert!(e.contains("already exists"));
    assert_eq!(cfg.servers.get("primary").unwrap().base_url, "https://h/openproject");

    // --force replaces it.
    let o = run(&mut cfg, add("primary", "https://other/openproject", true), None).unwrap();
    assert!(msg(&o).contains("replaced server 'primary'"));

    let o = run(&mut cfg, ServerCmd::Show { name: Some("primary".into()) }, None).unwrap();
    let shown = o.show.unwrap();
    assert!(cfg.servers.get(&shown).unwrap().base_url.contains("https://other/openproject"));
}

#[test]
fn rename_moves_default_and_token() {
    let mut cfg = Config::default();
    run(&mut cfg, add("a", "https://h", false), None).unwrap();
    run(&mut cfg, add("b", "https://h2", false), None).unwrap();
    assert_eq!(
        usage(run(&mut cfg, ServerCmd::Rename { old: "zz".into(), new: "b".into() }, None)),
        "unknown server 'zz'"
    );
    assert_eq!(
        usage(run(&mut cfg, ServerCmd::Rename { old: "a".into(), new: "b".into() }, None)),
        "server 'b' already exists"
    );
    let o = run(&mut cfg, ServerCmd::Rename { old: "a".into(), new: "c".into() }, None).unwrap();
    assert_eq!(msg(&o), "renamed server 'a' to 'c'");
    assert_eq!(o.move_token, Some(("a".to_string(), "c".to_string())));
    assert_eq!(cfg.default_server.as_deref(), Some("c"));
    let o = run(&mut cfg, ServerCmd::Rename { old: "c".into(), new: "c".into() }, None).unwrap();
    assert!(!o.save && o.message.is_none());
}

#[test]
fn set_default_status_color_and_errors() {
    let mut cfg = Config::default();
    run(&mut cfg, add("a", "https://h", false), None).unwrap();
    run(&mut cfg, add("b", "https://h2", false), None).unwrap();
    let o = run(&mut cfg, ServerCmd::SetDefault { name: "b".into() }, None).unwrap();
    assert_eq!(msg(&o), "default server is now 'b'");
    assert_eq!(usage(run(&mut cfg, ServerCmd::SetDefault { name: "x".into() }, None)), "unknown server 'x'");

    let sc = |color: Option<&str>, clear: bool| ServerCmd::StatusColor {
        server: None,
        status: "In progress".into(),
        color: color.map(|c| c.to_string()),
        clear,
    };
    let o = run(&mut cfg, sc(Some("warn"), false), None).unwrap();
    assert_eq!(msg(&o), "status 'In progress' on 'b' -> warn");
    assert_eq!(
        usage(run(&mut cfg, sc(Some("pink"), false), None)),
        "unknown color 'pink'; expected danger|warn|success|progress|dimmed"
    );
    let o = run(&mut cfg, sc(Some("warn"), true), None).unwrap();
    assert_eq!(msg(&o), "cleared color for status 'In progress' on 'b'");
    let o = run(&mut cfg, sc(None, false), None).unwrap();
    assert_eq!(msg(&o), "no color set for status 'In progress' on 'b'");
    assert!(!o.save);
    // The environment's selection targets another server.
    let o = run(&mut cfg, sc(Some("danger"), false), Some("a")).unwrap();
    assert_eq!(msg(&o), "status 'In progress' on 'a' -> danger");
    let bad = ServerCmd::Add {
        name: "g".into(),
        url: "github.com".into(),
        backend: "gitlab".into(),
        display_name: None,
        proxy: None,
        timeout: 30,
        verify_ssl: true,
        poll_secs: None,
        disabled: false,
        default: false,
        force: false,
    };
    assert_eq!(usage(run(&mut cfg, bad, None)), "unknown backend 'gitlab'; expected openproject|github");
}

#[test]
fn time_entry_filters_in_fixed_order() {
    let f = time_filters(&Some("3".into()), Some(42), &Some("7".into()), &Some("2026-01-01".into()), &None);
    let got: Vec<(String, String, Vec<String>)> =
        f.into_iter().map(|x| (x.field, x.operator, x.values)).collect();
    assert_eq!(
        got,
        vec![
            ("project".to_string(), "=".to_string(), vec!["3".to_string()]),
            ("workPackage".to_string(), "=".to_string(), vec!["42".to_string()]),
            ("user".to_string(), "=".to_string(), vec!["7".to_string()]),
            ("spentOn".to_string(), "<>d".to_string(), vec!["2026-01-01".to_string(), String::new()]),
        ]
    );
    assert!(time_filters(&None, None, &None, &None, &None).is_empty());
}

#[test]
fn mark_all_read_marks_only_unread_with_ids() {
    let items = vec![(Some(true), Some(1)), (Some(false), Some(2)), (None, Some(3)), (Some(false), None)];
    assert_eq!(unread_to_mark(&items), vec![2, 3]);
    assert!(has_comment_text(&Some("x".into())));
    assert!(!has_comment_text(&Some(String::new())));
    assert!(!has_comment_text(&None));
}

// ---- command-line rules and raw API calls ---------------------------------

use taskstream_core::api_call::{build_request, merge_request_fields, ApiBody, FieldValue};
use taskstream_core::cli::{parse_field, parse_fields, pick_token, require_openproject};
use taskstream_core::config::{BackendKind, ServerProfile};

fn pair(k: &str, v: &str) -> (String, String) {
    (k.to_string(), v.to_string())
}

#[test]
fn require_openproject_allows_openproject() {
    let p = ServerProfile::with_base_url("https://h".into());
    assert!(require_openproject(&p, "comment list").is_ok());
}

#[test]
fn require_openproject_rejects_github_as_usage_error() {
    let mut p = ServerProfile::with_base_url("github.com".into());
    p.backend = BackendKind::Github;
    let err = require_openproject(&p, "comment list").unwrap_err();
    assert_eq!(err.exit_code(), 2);
    match err {
        Error::Usage(m) => assert_eq!(
            m,
            "comment list is not supported by the github backend (read-only: 'wp list', 'notification list')"
        ),
        e => panic!("unexpected {e:?}"),
    }
}

#[test]
fn api_field_without_equals_is_usage_error() {
    assert_eq!(usage(parse_field("name")), "Invalid field 'name'; expected key=value.");
    assert_eq!(parse_field("a=b=c").unwrap(), pair("a", "b=c"));
    assert_eq!(parse_field("=x").unwrap(), pair("", "x"));
    assert_eq!(parse_fields(&vec!["a=1".into(), "b=2".into()]).unwrap(), vec![pair("a", "1"), pair("b", "2")]);
    assert_eq!(usage(parse_fields(&vec!["a=1".into(), "b".into(), "c".into()])), "Invalid field 'b'; expected key=value.");
}

#[test]
fn token_flag_wins_over_stored() {
    assert_eq!(pick_token(Some("f".into()), Some("s".into()), "w").unwrap(), "f");
    assert_eq!(pick_token(None, Some("s".into()), "w").unwrap(), "s");
    match pick_token(None, None, "w") {
        Err(Error::Auth(m)) => assert_eq!(m, "no token for 'w'"),
        other => panic!("unexpected {other:?}"),
    }
}

#[test]
fn get_with_fields_sends_query() {
    let q = build_request("get", &vec![pair("name", "core")], &vec![], None).unwrap();
    assert_eq!(q.method, "GET");
    assert_eq!(q.query, vec![pair("name", "core")]);
    assert!(matches!(q.body, ApiBody::Empty));
}

#[test]
fn post_with_raw_fields_sends_typed_body() {
    let q = build_request("post", &vec![], &vec![pair("count", "3")], None).unwrap();
    assert_eq!(q.method, "POST");
    assert!(q.query.is_empty());
    match q.body {
        ApiBody::Fields(m) => {
            assert_eq!(m.len(), 1);
            assert_eq!(m[0].0, "count");
            match &m[0].1 {
                FieldValue::Json(v) => assert!(v.is_number() && v.as_i64() == Some(3)),
                other => panic!("unexpected {other:?}"),
            }
        }
        other => panic!("unexpected {other:?}"),
    }
}

#[test]
fn input_valid_json_becomes_body() {
    let q = build_request("post", &vec![pair("ignored", "x")], &vec![], Some(r#"{"subject": "hi"}"#)).unwrap();
    match q.body {
        ApiBody::Input(v) => assert_eq!(v, serde_json::from_str::<serde_json::Value>(r#"{"subject": "hi"}"#).unwrap()),
        other => panic!("unexpected {other:?}"),
    }
    assert!(q.query.is_empty());
}

#[test]
fn input_invalid_json_is_usage_error() {
    let err = build_request("post", &vec![], &vec![], Some("not json")).unwrap_err();
    assert_eq!(err.exit_code(), 2);
}

#[test]
fn delete_with_fields_sends_query() {
    let q = build_request("delete", &vec![pair("force", "true")], &vec![], None).unwrap();
    assert_eq!(q.method, "DELETE");
    assert_eq!(q.query, vec![pair("force", "true")]);
}

#[test]
fn typed_fields_overwrite_in_place_and_unparsable_stay_text() {
    let m = merge_request_fields(
        &vec![pair("a", "1"), pair("b", "x"), pair("a", "2")],
        &vec![pair("b", "[1,2]"), pair("c", "not json")],
    );
    let keys: Vec<&str> = m.iter().map(|(k, _)| k.as_str()).collect();
    assert_eq!(keys, ["a", "b", "c"]);
    assert!(matches!(&m[0].1, FieldValue::Text(t) if t == "2"));
    assert!(matches!(&m[1].1, FieldValue::Json(v) if v.is_array()));
    assert!(matches!(&m[2].1, FieldValue::Text(t) if t == "not json"));
    let q = build_request("head", &vec![pair("s", "v")], &vec![pair("n", "\"q\""), pair("k", "true")], None).unwrap();
    assert_eq!(q.query, vec![pair("s", "v"), pair("n", "q"), pair("k", "true")]);
    let q = build_request("patch", &vec![], &vec![], None).unwrap();
    assert!(matches!(q.body, ApiBody::Empty) && q.query.is_empty());
}

// ---- request helpers ------------------------------------------------------

use taskstream_core::client::{api_error, api_error_from, collect_done, resolve_url};
use taskstream_core::cli::gh_ready;
use taskstream_core::github::GhStatus;
use taskstream_core::resolve::{project_id_from, project_path};

fn api_msg(e: Error) -> String {
    match e {
        Error::Api(m) => m,
        other => panic!("expected an api error, got {other:?}"),
    }
}

#[test]
fn api_errors_prefer_the_json_message() {
    assert_eq!(api_msg(api_error(404, r#"{"message":"Not found."}"#.into())), "HTTP 404: Not found.");
    assert_eq!(api_msg(api_error(500, "boom".into())), "HTTP 500: boom");
    assert_eq!(api_msg(api_error(422, r#"{"message": 3}"#.into())), "HTTP 422: {\"message\": 3}");
    assert_eq!(api_msg(api_error_from(401, Some("x".into()), "y".into())), "HTTP 401: x");
}

#[test]
fn collecting_stops_on_empty_page_or_total() {
    assert!(collect_done(0, 5, Some(100)));
    assert!(!collect_done(50, 50, Some(120)));
    assert!(collect_done(20, 120, Some(120)));
    assert!(collect_done(10, 10, None));
}

#[test]
fn foreign_host_absolute_url_is_usage_error() {
    let base = "https://op.example/openproject";
    assert_eq!(resolve_url(base, "work_packages/1").unwrap(), "https://op.example/openproject/api/v3/work_packages/1");
    assert_eq!(
        resolve_url(base, "https://OP.example/openproject/api/v3/x").unwrap(),
        "https://OP.example/openproject/api/v3/x"
    );
    let err = resolve_url(base, "https://evil.example/api/v3/x").unwrap_err();
    assert_eq!(err.exit_code(), 2);
    assert_eq!(usage(Err::<(), Error>(err)), "refusing request to foreign host 'evil.example'");
}

#[test]
fn gh_readiness_and_project_lookups() {
    let mut p = ServerProfile::with_base_url("github.com".into());
    assert!(gh_ready(&p, GhStatus::Missing).is_ok());
    p.backend = BackendKind::Github;
    assert!(gh_ready(&p, GhStatus::Ready).is_ok());
    assert_eq!(
        usage(gh_ready(&p, GhStatus::Unauthenticated)),
        "the github backend needs the GitHub CLI signed in. Run 'gh auth login', then retry."
    );
    assert!(usage(gh_ready(&p, GhStatus::Missing)).contains("not installed"));
    assert_eq!(project_path("  my-proj "), "projects/my-proj");
    assert_eq!(project_id_from(" my-proj ", Some("7".into())).unwrap(), "7");
    assert_eq!(api_msg(project_id_from(" my-proj ", None).unwrap_err()), "Project \"my-proj\" was not found.");
}

#[test]
fn tray_texts() {
    assert_eq!(tray_labels(Lang::Ru, None), ("Показать", "Выход"));
    assert_eq!(tray_labels(Lang::En, Some("ru_RU.UTF-8")), ("Show", "Quit"));
    assert_eq!(tray_labels(Lang::System, Some("RU_ru")), ("Показать", "Выход"));
    assert_eq!(tray_labels(Lang::System, Some("de_DE")), ("Show", "Quit"));
    assert_eq!(tool_tip_title(0), "laba");
    assert_eq!(tool_tip_title(3), "laba — 3 need attention");
}
