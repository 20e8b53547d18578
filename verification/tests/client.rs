use taskstream_core::client::plaintext_scheme;
use taskstream_core::client::retry_base_ms;
use taskstream_core::client::{
    api_url, check_download_limit, guess_content_type, is_custom_field_key, is_retriable,
    normalize_base_url, resolve_proxy, upload_content_type, upload_name, ProxyChoice,
};
use taskstream_core::error::Error;

#[test]
fn override_wins_over_profile_and_global() {
    assert_eq!(
        resolve_proxy(
            Some("http://ovr:1"),
            Some("http://prof:2"),
            Some("http://glob:3")
        ),
        ProxyChoice::Explicit("http://ovr:1".into())
    );
}

#[test]
fn profile_wins_over_global() {
    assert_eq!(
        resolve_proxy(None, Some("socks5://prof:2"), Some("http://glob:3")),
        ProxyChoice::Explicit("socks5://prof:2".into())
    );
}

#[test]
fn global_used_when_no_override_or_profile() {
    assert_eq!(
        resolve_proxy(None, None, Some("http://glob:3")),
        ProxyChoice::Explicit("http://glob:3".into())
    );
}

#[test]
fn nothing_configured_inherits_env() {
    assert_eq!(resolve_proxy(None, None, None), ProxyChoice::Inherit);
}

#[test]
fn direct_sentinels_force_direct_at_each_level() {
    for s in ["direct", "none", "", "DIRECT", "None"] {
        assert_eq!(
            resolve_proxy(Some(s), Some("http://prof:2"), Some("http://glob:3")),
            ProxyChoice::Direct,
            "override {s:?}"
        );
    }
    assert_eq!(
        resolve_proxy(None, Some("direct"), Some("http://glob:3")),
        ProxyChoice::Direct
    );
}

#[test]
fn global_direct_sentinel_forces_direct() {
    assert_eq!(resolve_proxy(None, None, Some("NONE")), ProxyChoice::Direct);
    assert_eq!(
        resolve_proxy(None, None, Some("directly")),
        ProxyChoice::Explicit("directly".into())
    );
}

#[test]
fn api_url_prefixes_plain_path() {
    let base = normalize_base_url("https://host.example/openproject");
    assert_eq!(
        api_url(&base, "work_packages/1"),
        "https://host.example/openproject/api/v3/work_packages/1"
    );
}

#[test]
fn api_url_collapses_deployment_subpath_href() {
    let base = normalize_base_url("https://host.example/openproject");
    assert_eq!(
        api_url(&base, "/openproject/api/v3/work_packages/1"),
        "https://host.example/openproject/api/v3/work_packages/1"
    );
}

#[test]
fn base_url_loses_trailing_slashes() {
    assert_eq!(normalize_base_url("https://h.example/op//"), "https://h.example/op");
    assert_eq!(normalize_base_url("https://h.example/op"), "https://h.example/op");
    assert_eq!(normalize_base_url("///"), "");
}

#[test]
fn retriable_statuses_and_transport_failures() {
    assert!(is_retriable(&Error::Api("HTTP 503: busy".into())));
    assert!(is_retriable(&Error::Api("HTTP 429: slow down".into())));
    assert!(!is_retriable(&Error::Api("HTTP 404: nope".into())));
    assert!(is_retriable(&Error::Api(
        "request https://h/x: operation timed out".into()
    )));
    assert!(!is_retriable(&Error::Api("read body: connection reset".into())));
    assert!(!is_retriable(&Error::Io("HTTP 503".into())));
}

#[test]
fn content_type_guessed_from_extension() {
    assert_eq!(guess_content_type("notes.TXT"), "text/plain");
    assert_eq!(guess_content_type("photo.jpeg"), "image/jpeg");
    assert_eq!(guess_content_type("a.b.pdf"), "application/pdf");
    assert_eq!(
        guess_content_type("report.xlsx"),
        "application/vnd.openxmlformats-officedocument.spreadsheetml.sheet"
    );
    assert_eq!(guess_content_type("README"), "application/octet-stream");
    assert_eq!(guess_content_type("archive.tar.gz"), "application/octet-stream");
}

#[test]
fn custom_field_keys_need_a_digit_suffix() {
    assert!(is_custom_field_key("customField12"));
    assert!(!is_custom_field_key("customField"));
    assert!(!is_custom_field_key("customFieldX"));
    assert!(!is_custom_field_key("subject"));
}

#[test]
fn upload_name_and_type_fall_back() {
    assert_eq!(upload_name(Some("x.png"), Some("y.txt")), "x.png");
    assert_eq!(upload_name(None, Some("y.txt")), "y.txt");
    assert_eq!(upload_name(None, None), "file");
    assert_eq!(upload_content_type(Some("text/csv"), "a.png"), "text/csv");
    assert_eq!(upload_content_type(None, "a.png"), "image/png");
}

#[test]
fn download_limit_is_enforced() {
    assert!(check_download_limit(10, None).is_ok());
    assert!(check_download_limit(10, Some(10)).is_ok());
    assert_eq!(
        check_download_limit(11, Some(10)).unwrap_err(),
        Error::Usage("attachment exceeds max-bytes 10".into())
    );
}

#[test]
fn retry_waits_double_then_cap() {
    assert_eq!(retry_base_ms(0), 200);
    assert_eq!(retry_base_ms(1), 400);
    assert_eq!(retry_base_ms(2), 800);
    assert_eq!(retry_base_ms(4), 3200);
    assert_eq!(retry_base_ms(5), 5000);
    assert_eq!(retry_base_ms(60), 5000);
    assert_eq!(retry_base_ms(u32::MAX), 5000);
}

#[test]
fn plaintext_base_urls_are_flagged_unless_https_or_loopback() {
    assert_eq!(plaintext_scheme("http://op.example/openproject").as_deref(), Some("http"));
    assert_eq!(plaintext_scheme("https://op.example"), None);
    assert_eq!(plaintext_scheme("http://localhost:8080"), None);
    assert_eq!(plaintext_scheme("http://127.0.0.1"), None);
    assert_eq!(plaintext_scheme("not a url"), None);
}
