use taskstream_core::config::{
    BackendKind, Config, DetailSupport, OpenTarget, ReadToggle, ServerProfile, StatusColor,
    TimelogSupport, CONFIG_SCHEMA_VERSION,
};
use taskstream_core::error::Error;
use taskstream_core::strmap::StrMap;

fn profile(base: &str) -> ServerProfile {
    ServerProfile::with_base_url(base.to_string())
}

fn cfg_with(names: &[&str], default: Option<&str>) -> Config {
    let mut c = Config::default();
    c.default_server = default.map(str::to_owned);
    for n in names {
        c.servers.insert((*n).to_string(), profile("u"));
    }
    c
}

#[test]
fn status_color_token_roundtrips() {
    for c in [
        StatusColor::Danger,
        StatusColor::Warn,
        StatusColor::Success,
        StatusColor::Progress,
        StatusColor::Dimmed,
    ] {
        assert_eq!(StatusColor::from_token(c.token()), Some(c));
    }
    assert_eq!(StatusColor::from_token("bogus"), None);
}

#[test]
fn backend_capabilities() {
    assert!(BackendKind::OpenProject.supports_timelog());
    assert!(!BackendKind::Github.supports_timelog());
    assert!(BackendKind::OpenProject.supports_time_activities());
    assert!(!BackendKind::Github.supports_time_activities());
    assert!(BackendKind::OpenProject.needs_local_history());
    assert!(!BackendKind::Github.needs_local_history());
    assert!(BackendKind::OpenProject.supports_notifications());
    assert!(BackendKind::Github.supports_notifications());
    assert!(BackendKind::OpenProject.supports_notification_read_toggle());
    assert!(BackendKind::Github.supports_notification_read_toggle());
    assert!(BackendKind::OpenProject.supports_status_filters());
    assert!(!BackendKind::Github.supports_status_filters());
    assert_eq!(BackendKind::OpenProject.default_poll_secs(), 120);
    assert_eq!(BackendKind::Github.default_poll_secs(), 900);
}

#[test]
fn default_open_target_reflects_web_ui_quality() {
    assert_eq!(BackendKind::OpenProject.default_open_target(), OpenTarget::App);
    assert_eq!(BackendKind::Github.default_open_target(), OpenTarget::Browser);
    assert_eq!(OpenTarget::App.token(), "app");
    assert_eq!(OpenTarget::Browser.token(), "browser");
}

#[test]
fn capabilities_are_the_single_source_for_accessors() {
    let op = BackendKind::OpenProject.capabilities();
    assert_eq!(op.notification_read, ReadToggle::TwoWay);
    assert_eq!(op.task_detail, DetailSupport::InApp);
    assert_eq!(op.timelog, TimelogSupport::WithActivities);
    assert!(op.status_filters && op.custom_fields && op.needs_local_history);

    let gh = BackendKind::Github.capabilities();
    assert_eq!(gh.notification_read, ReadToggle::OneWay);
    assert_eq!(gh.task_detail, DetailSupport::Unsupported);
    assert_eq!(gh.timelog, TimelogSupport::Unsupported);
    assert!(!gh.status_filters && !gh.custom_fields && !gh.needs_local_history);

    for b in [BackendKind::OpenProject, BackendKind::Github] {
        let c = b.capabilities();
        assert_eq!(b.supports_timelog(), c.timelog != TimelogSupport::Unsupported);
        assert_eq!(
            b.supports_time_activities(),
            c.timelog == TimelogSupport::WithActivities
        );
        assert_eq!(
            b.supports_notification_read_toggle(),
            c.notification_read != ReadToggle::Unsupported
        );
        assert_eq!(
            b.supports_task_detail(),
            c.task_detail != DetailSupport::Unsupported
        );
        assert_eq!(b.default_poll_secs(), c.default_poll_secs);
        assert_eq!(b.default_open_target(), c.default_open_target);
    }
}

#[test]
fn effective_open_target_falls_back_to_browser_without_detail() {
    let mut op = profile("https://op.example");
    op.backend = BackendKind::OpenProject;
    assert_eq!(op.effective_open_target(), OpenTarget::App);
    let mut gh = profile("https://github.com");
    gh.backend = BackendKind::Github;
    assert_eq!(gh.effective_open_target(), OpenTarget::Browser);
}

#[test]
fn explicit_app_degrades_to_browser_on_github() {
    let mut gh = profile("https://github.com");
    gh.backend = BackendKind::Github;
    gh.open_content_in = Some(OpenTarget::App);
    assert_eq!(gh.effective_open_target(), OpenTarget::Browser);
    let mut op = profile("https://op.example");
    op.open_content_in = Some(OpenTarget::Browser);
    assert_eq!(op.effective_open_target(), OpenTarget::Browser);
}

#[test]
fn flag_beats_default() {
    let c = cfg_with(&["a", "b"], Some("a"));
    assert_eq!(c.resolve_server_name(Some("b"), None).unwrap(), "b");
}

#[test]
fn falls_back_to_default() {
    let c = cfg_with(&["a"], Some("a"));
    assert_eq!(c.resolve_server_name(None, None).unwrap(), "a");
}

#[test]
fn unknown_server_is_usage_error() {
    let c = cfg_with(&["a"], None);
    assert_eq!(c.resolve_server_name(Some("x"), None).unwrap_err().exit_code(), 2);
}

#[test]
fn environment_selection_sits_between_flag_and_default() {
    let c = cfg_with(&["a", "b", "c"], Some("a"));
    assert_eq!(c.resolve_server_name(None, Some("c")).unwrap(), "c");
    assert_eq!(c.resolve_server_name(Some("b"), Some("c")).unwrap(), "b");
}

#[test]
fn resolve_error_messages() {
    let c = cfg_with(&["a"], None);
    assert_eq!(
        c.resolve_server_name(None, None).unwrap_err(),
        Error::Usage(
            "no server selected: pass --server or set a default (server set-default)".into()
        )
    );
    assert_eq!(
        c.resolve_server_name(Some("x"), None).unwrap_err(),
        Error::Usage("unknown server 'x'".into())
    );
}

#[test]
fn backend_defaults_to_openproject_when_absent() {
    let p = profile("u");
    assert_eq!(p.backend, BackendKind::OpenProject);
    assert_eq!(BackendKind::default(), BackendKind::OpenProject);
}

#[test]
fn display_falls_back_to_key() {
    let p = profile("u");
    assert_eq!(p.display("MP"), "MP");
    let mut p = profile("u");
    p.display_name = Some("Metaprime".into());
    assert_eq!(p.display("MP"), "Metaprime");
}

#[test]
fn server_level_fields_default_when_absent() {
    let p = profile("u");
    assert!(p.enabled);
    assert_eq!(p.poll_secs, None);
    assert!(p.timelog_start.is_none());
    assert!(p.status_colors.is_empty());
    assert!(p.status_filters.is_empty());
    assert_eq!(p.effective_poll_secs(), 120);
    assert_eq!(p.timeout, 30);
    assert!(p.verify_ssl);
}

#[test]
fn status_colors_parse_and_look_up() {
    let mut p = profile("u");
    p.status_colors.insert("Blocked".into(), StatusColor::Danger);
    p.status_colors.insert("Done".into(), StatusColor::Dimmed);
    assert_eq!(p.status_color("Blocked"), Some(StatusColor::Danger));
    assert_eq!(p.status_color("Done"), Some(StatusColor::Dimmed));
    assert_eq!(p.status_color("In progress"), None);
}

#[test]
fn effective_poll_prefers_explicit_then_backend_default() {
    let mut p = profile("u");
    p.poll_secs = Some(300);
    assert_eq!(p.effective_poll_secs(), 300);
    p.poll_secs = Some(0);
    assert_eq!(p.effective_poll_secs(), 120);
    let mut g = profile("u");
    g.backend = BackendKind::Github;
    assert_eq!(g.effective_poll_secs(), 900);
}

#[test]
fn default_config_is_current_and_empty() {
    let c = Config::default();
    assert_eq!(c.schema_version, CONFIG_SCHEMA_VERSION);
    assert_eq!(c.schema_version, 2);
    assert!(c.default_server.is_none());
    assert!(c.proxy.is_none());
    assert!(c.servers.is_empty());
}

#[test]
fn strmap_keeps_keys_sorted_and_unique() {
    let mut m: StrMap<i32> = StrMap::new();
    assert_eq!(m.insert("b".into(), 1), None);
    assert_eq!(m.insert("a".into(), 2), None);
    assert_eq!(m.insert("c".into(), 3), None);
    assert_eq!(m.insert("b".into(), 4), Some(1));
    assert_eq!(m.len(), 3);
    assert_eq!(m.key_at(0), "a");
    assert_eq!(m.key_at(1), "b");
    assert_eq!(m.key_at(2), "c");
    assert_eq!(m.get("b"), Some(&4));
    assert_eq!(m.first_key().map(|s| s.as_str()), Some("a"));
    assert_eq!(m.remove("a"), Some(2));
    assert_eq!(m.remove("a"), None);
    assert_eq!(m.first_key().map(|s| s.as_str()), Some("b"));
    assert!(!m.contains_key("a"));
    m.clear();
    assert!(m.is_empty());
}
