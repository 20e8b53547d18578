use taskstream_core::commands::{
    add_server_to_config, any_timelog_capable, normalize_proxy, remove_from_config,
    rename_in_config, server_infos, set_default_in_config, set_server_display_fields_in,
    set_server_enabled_in, set_server_open_content_in_in, set_server_poll_secs_in,
    set_server_status_color_in, set_server_status_filters_in, set_server_timelog_start_in,
    uses_github,
};
use taskstream_core::config::{
    BackendKind, Config, OpenTarget, ServerProfile, StatusColor, StatusFilter,
    CONFIG_SCHEMA_VERSION,
};
use taskstream_core::strmap::StrMap;

fn profile(base: &str, backend: BackendKind) -> ServerProfile {
    let mut p = ServerProfile::with_base_url(base.to_string());
    p.backend = backend;
    p
}

fn cfg() -> Config {
    let mut servers = StrMap::new();
    servers.insert("work".to_string(), profile("https://op.example", BackendKind::OpenProject));
    servers.insert("gh".to_string(), profile("github.com", BackendKind::Github));
    Config {
        schema_version: CONFIG_SCHEMA_VERSION,
        default_server: Some("work".into()),
        proxy: None,
        servers,
    }
}

fn edit_profile(c: &mut Config, name: &str, f: impl FnOnce(&mut ServerProfile)) {
    let mut p = c.servers.remove(name).unwrap();
    f(&mut p);
    c.servers.insert(name.to_string(), p);
}

#[test]
fn server_infos_lists_all_with_backend_and_default() {
    let infos = server_infos(&cfg());
    assert_eq!(infos.len(), 2);
    let work = infos.iter().find(|i| i.name == "work").unwrap();
    assert_eq!(work.backend, "openproject");
    assert!(work.is_default);
    assert_eq!(work.poll_secs, 120);
    assert!(work.enabled);
    assert_eq!(work.display_name, "work");
    let gh = infos.iter().find(|i| i.name == "gh").unwrap();
    assert_eq!(gh.backend, "github");
    assert!(!gh.is_default);
    assert_eq!(gh.poll_secs, 900);
}

#[test]
fn server_infos_reflect_profile_display_and_poll() {
    let mut c = cfg();
    edit_profile(&mut c, "work", |work| {
        work.display_name = Some("Metaprime".into());
        work.poll_secs = Some(300);
    });
    let infos = server_infos(&c);
    let work = infos.iter().find(|i| i.name == "work").unwrap();
    assert_eq!(work.display_name, "Metaprime");
    assert_eq!(work.poll_secs, 300);
    let gh = infos.iter().find(|i| i.name == "gh").unwrap();
    assert_eq!(gh.poll_secs, 900);
}

#[test]
fn server_infos_mark_disabled() {
    let mut c = cfg();
    edit_profile(&mut c, "gh", |gh| gh.enabled = false);
    let infos = server_infos(&c);
    assert!(infos.iter().find(|i| i.name == "work").unwrap().enabled);
    assert!(!infos.iter().find(|i| i.name == "gh").unwrap().enabled);
}

#[test]
fn server_infos_are_in_key_order_with_tokens() {
    let mut c = cfg();
    edit_profile(&mut c, "work", |w| {
        w.status_colors.insert("Blocked".into(), StatusColor::Danger);
    });
    let infos = server_infos(&c);
    assert_eq!(infos[0].name, "gh");
    assert_eq!(infos[0].open_content_in, "browser");
    assert_eq!(infos[1].open_content_in, "app");
    assert_eq!(infos[1].status_colors.get("Blocked").map(|s| s.as_str()), Some("danger"));
    assert!(!infos[1].has_token);
}

#[test]
fn remove_default_reassigns_default_to_remaining() {
    let mut c = cfg();
    remove_from_config(&mut c, "work").unwrap();
    assert!(!c.servers.contains_key("work"));
    assert_eq!(c.default_server.as_deref(), Some("gh"));
}

#[test]
fn remove_non_default_keeps_default() {
    let mut c = cfg();
    remove_from_config(&mut c, "gh").unwrap();
    assert!(!c.servers.contains_key("gh"));
    assert_eq!(c.default_server.as_deref(), Some("work"));
}

#[test]
fn remove_last_server_clears_default() {
    let mut c = cfg();
    remove_from_config(&mut c, "gh").unwrap();
    remove_from_config(&mut c, "work").unwrap();
    assert!(c.servers.is_empty());
    assert_eq!(c.default_server, None);
}

#[test]
fn remove_unknown_server_errors() {
    let mut c = cfg();
    assert!(remove_from_config(&mut c, "nope").is_err());
    assert_eq!(c.servers.len(), 2);
    assert_eq!(c.default_server.as_deref(), Some("work"));
}

#[test]
fn remove_default_hands_over_to_least_key() {
    let mut c = cfg();
    c.servers.insert("alpha".into(), profile("a", BackendKind::OpenProject));
    c.servers.insert("zeta".into(), profile("z", BackendKind::OpenProject));
    remove_from_config(&mut c, "work").unwrap();
    assert_eq!(c.default_server.as_deref(), Some("alpha"));
    assert_eq!(
        remove_from_config(&mut c, "work").unwrap_err(),
        "unknown server 'work'"
    );
}

#[test]
fn any_timelog_capable_true_when_enabled_openproject_present() {
    assert!(any_timelog_capable(&cfg()));
}

#[test]
fn any_timelog_capable_false_for_github_only() {
    let mut c = cfg();
    c.servers.remove("work");
    assert!(!any_timelog_capable(&c));
}

#[test]
fn any_timelog_capable_false_when_only_capable_server_disabled() {
    let mut c = cfg();
    edit_profile(&mut c, "work", |w| w.enabled = false);
    assert!(!any_timelog_capable(&c));
}

#[test]
fn any_timelog_capable_false_for_empty_config() {
    let mut c = cfg();
    c.servers.clear();
    assert!(!any_timelog_capable(&c));
}

#[test]
fn set_default_switches_to_existing_server() {
    let mut c = cfg();
    set_default_in_config(&mut c, "gh").unwrap();
    assert_eq!(c.default_server.as_deref(), Some("gh"));
}

#[test]
fn set_default_unknown_server_errors_and_keeps_current() {
    let mut c = cfg();
    assert!(set_default_in_config(&mut c, "nope").is_err());
    assert_eq!(c.default_server.as_deref(), Some("work"));
}

#[test]
fn set_default_then_resolve_picks_it() {
    let mut c = cfg();
    set_default_in_config(&mut c, "gh").unwrap();
    assert_eq!(c.resolve_server_name(None, None).unwrap(), "gh");
}

#[test]
fn github_use_is_detected() {
    assert!(uses_github(&cfg()));
    let mut c = cfg();
    c.servers.remove("gh");
    assert!(!uses_github(&c));
}

#[test]
fn proxy_inputs_are_trimmed_and_blank_clears() {
    assert_eq!(normalize_proxy(Some("  http://p:1 ".into())).as_deref(), Some("http://p:1"));
    assert_eq!(normalize_proxy(Some("   ".into())), None);
    assert_eq!(normalize_proxy(None), None);
}

#[test]
fn add_server_validates_and_sets_first_default() {
    let mut c = Config::default();
    assert_eq!(
        add_server_to_config(&mut c, "  ", "u", "openproject", None).unwrap_err(),
        "server name is required"
    );
    assert_eq!(
        add_server_to_config(&mut c, "x", "u", "jira", None).unwrap_err(),
        "unknown backend 'jira'"
    );
    add_server_to_config(&mut c, " x ", " https://h ", "github", Some("  ".into())).unwrap();
    assert_eq!(c.default_server.as_deref(), Some("x"));
    let p = c.servers.get("x").unwrap();
    assert_eq!(p.base_url, "https://h");
    assert_eq!(p.backend, BackendKind::Github);
    assert_eq!(p.display_name, None);
    assert_eq!(
        add_server_to_config(&mut c, "x", "u", "github", None).unwrap_err(),
        "server 'x' already exists"
    );
    add_server_to_config(&mut c, "y", "u", "openproject", Some("Why".into())).unwrap();
    assert_eq!(c.default_server.as_deref(), Some("x"));
}

#[test]
fn rename_moves_profile_and_default() {
    let mut c = cfg();
    rename_in_config(&mut c, "work", "office").unwrap();
    assert!(c.servers.contains_key("office"));
    assert!(!c.servers.contains_key("work"));
    assert_eq!(c.default_server.as_deref(), Some("office"));
    assert_eq!(
        rename_in_config(&mut c, "office", "gh").unwrap_err(),
        "server 'gh' already exists"
    );
    assert_eq!(
        rename_in_config(&mut c, "nope", "other").unwrap_err(),
        "unknown server 'nope'"
    );
    rename_in_config(&mut c, "gh", "gh").unwrap();
    assert_eq!(c.servers.len(), 2);
}

#[test]
fn setters_filter_their_inputs() {
    let mut c = cfg();
    set_server_poll_secs_in(&mut c, "work", Some(0)).unwrap();
    assert_eq!(c.servers.get("work").unwrap().poll_secs, None);
    set_server_enabled_in(&mut c, "work", false).unwrap();
    assert!(!c.servers.get("work").unwrap().enabled);
    set_server_timelog_start_in(&mut c, "work", Some("2026-01-01".into())).unwrap();
    let ts = c.servers.get("work").unwrap().timelog_start.clone().unwrap();
    assert_eq!(ts.date, "2026-01-01");
    assert!(!ts.auto);
    set_server_display_fields_in(&mut c, "work", vec![" Rank ".into(), "  ".into()]).unwrap();
    assert_eq!(c.servers.get("work").unwrap().display_fields, vec!["Rank".to_string()]);
    set_server_status_filters_in(
        &mut c,
        "work",
        vec![
            StatusFilter { label: "Active".into(), statuses: vec!["A".into()] },
            StatusFilter { label: " ".into(), statuses: vec![] },
        ],
    )
    .unwrap();
    assert_eq!(c.servers.get("work").unwrap().status_filters.len(), 1);
    assert_eq!(
        set_server_enabled_in(&mut c, "nope", true).unwrap_err(),
        "unknown server 'nope'"
    );
}

#[test]
fn status_color_setter_parses_and_clears() {
    let mut c = cfg();
    set_server_status_color_in(&mut c, "work", "Blocked".into(), Some("danger".into())).unwrap();
    assert_eq!(c.servers.get("work").unwrap().status_color("Blocked"), Some(StatusColor::Danger));
    assert_eq!(
        set_server_status_color_in(&mut c, "work", "Blocked".into(), Some("pink".into()))
            .unwrap_err(),
        "unknown color 'pink'"
    );
    set_server_status_color_in(&mut c, "work", "Blocked".into(), Some(" ".into())).unwrap();
    assert_eq!(c.servers.get("work").unwrap().status_color("Blocked"), None);
}

#[test]
fn open_target_setter_checks_target_first() {
    let mut c = cfg();
    assert_eq!(
        set_server_open_content_in_in(&mut c, "nope", Some("tab")).unwrap_err(),
        "unknown open target 'tab'"
    );
    set_server_open_content_in_in(&mut c, "work", Some("browser")).unwrap();
    assert_eq!(
        c.servers.get("work").unwrap().open_content_in,
        Some(OpenTarget::Browser)
    );
    set_server_open_content_in_in(&mut c, "work", Some("")).unwrap();
    assert_eq!(c.servers.get("work").unwrap().open_content_in, None);
}
