use taskstream_core::backend::{next_page, paging_query};
use taskstream_core::entities::{NotifKind, TaskKind};
use taskstream_core::error::Error;
use taskstream_core::import::scan_yaml_scalar;

#[test]
fn exit_codes_map_by_variant() {
    assert_eq!(Error::Usage("x".into()).exit_code(), 2);
    assert_eq!(Error::Io("x".into()).exit_code(), 74);
    assert_eq!(Error::Api("x".into()).exit_code(), 70);
}

#[test]
fn remaining_error_variants_exit_70() {
    assert_eq!(Error::Config("x".into()).exit_code(), 70);
    assert_eq!(Error::Auth("x".into()).exit_code(), 70);
    assert_eq!(Error::Internal("x".into()).exit_code(), 70);
}

#[test]
fn scans_url_and_token() {
    let y = "url: \"https://h/openproject\"\ntimeout: 30\ntoken: abc\n";
    assert_eq!(
        scan_yaml_scalar(y, "url").as_deref(),
        Some("https://h/openproject")
    );
    assert_eq!(scan_yaml_scalar(y, "token").as_deref(), Some("abc"));
    assert_eq!(scan_yaml_scalar(y, "missing"), None);
}

#[test]
fn scan_skips_empty_values_and_trims() {
    let y = "  token:   ''  \r\ntoken : 'k1' \nurl:\n";
    assert_eq!(scan_yaml_scalar(y, "token").as_deref(), Some("k1"));
    assert_eq!(scan_yaml_scalar(y, "url"), None);
    assert_eq!(scan_yaml_scalar("", "url"), None);
}

#[test]
fn next_page_stops_when_pages_cover_total() {
    assert_eq!(next_page(1, 50, 50), None);
    assert_eq!(next_page(1, 50, 51), Some(2));
    assert_eq!(next_page(2, 50, 120), Some(3));
    assert_eq!(next_page(3, 50, 120), None);
    assert_eq!(next_page(1, 50, 0), None);
}

#[test]
fn next_page_treats_page_zero_as_first() {
    assert_eq!(next_page(0, 50, 51), Some(1));
    assert_eq!(next_page(0, 50, 50), None);
}

#[test]
fn paging_query_pairs() {
    assert_eq!(
        paging_query(3, Some(20)),
        vec![
            ("offset".to_string(), "3".to_string()),
            ("pageSize".to_string(), "20".to_string())
        ]
    );
    assert_eq!(paging_query(1, None), vec![("offset".to_string(), "1".to_string())]);
}

#[test]
fn open_kinds_round_trip_through_their_raw_label() {
    for tok in ["issue", "pullRequest", "workPackage", "discussion"] {
        let k = TaskKind::from_token(tok);
        assert_eq!(k.as_token(), tok);
    }
    assert!(matches!(NotifKind::from_token("Release"), NotifKind::Other(s) if s == "Release"));
    assert_eq!(NotifKind::Other("Release".into()).as_token(), "Release");
    assert!(matches!(NotifKind::from_token("checkSuite"), NotifKind::CheckSuite));
    assert!(matches!(TaskKind::from_token("workPackage"), TaskKind::WorkPackage));
}

#[test]
fn error_texts_carry_their_kind() {
    assert_eq!(Error::Usage("bad".into()).text(), "bad");
    assert_eq!(Error::Config("x".into()).text(), "config: x");
    assert_eq!(Error::Auth("x".into()).text(), "auth: x");
    assert_eq!(Error::Io("x".into()).text(), "io: x");
    assert_eq!(Error::Api("x".into()).text(), "api: x");
    assert_eq!(Error::Internal("x".into()).text(), "x");
}
