use taskstream_core::client::should_retry;
use taskstream_core::error::Error;
use taskstream_core::resolve::{element_id, named_element};
use taskstream_core::state::{load, save_history};
use taskstream_core::strmap::StrMap;
use taskstream_core::timelog::{build_timeline, compute_at, fmt, parse_date};
use taskstream_core::holidays::HolidayCalendar;

#[test]
fn saves_under_distinct_keys_do_not_mix() {
    let mut m: StrMap<Vec<i64>> = StrMap::new();
    save_history(&mut m, "https://a.example", "1", &[10]);
    save_history(&mut m, "https://b.example", "1", &[20]);
    save_history(&mut m, "https://a.example", "2", &[30]);
    assert_eq!(load(&m, "https://a.example", "1"), vec![10]);
    assert_eq!(load(&m, "https://b.example", "1"), vec![20]);
    assert_eq!(load(&m, "https://a.example", "2"), vec![30]);
    save_history(&mut m, "https://a.example", "1", &[5, 10, 5]);
    assert_eq!(load(&m, "https://a.example", "1"), vec![5, 10]);
    assert_eq!(load(&m, "https://c.example", "1"), Vec::<i64>::new());
}

#[test]
fn retry_only_retriable_errors_while_retries_remain() {
    let busy = Error::Api("HTTP 503: busy".to_string());
    assert!(should_retry(&busy, 0, 2));
    assert!(should_retry(&busy, 1, 2));
    assert!(!should_retry(&busy, 2, 2));
    assert!(!should_retry(&Error::Api("HTTP 404: missing".to_string()), 0, 2));
    assert!(!should_retry(&Error::Usage("bad".to_string()), 0, 2));
}

#[test]
fn element_ids_read_numbers_and_strings() {
    let v: serde_json::Value = serde_json::from_str(r#"{"id": 42, "name": "Ann"}"#).unwrap();
    assert_eq!(element_id(&v).as_deref(), Some("42"));
    let e = named_element(&v);
    assert_eq!(e.id.as_deref(), Some("42"));
    assert_eq!(e.name.as_deref(), Some("Ann"));
    let v: serde_json::Value = serde_json::from_str(r#"{"id": "7"}"#).unwrap();
    assert_eq!(element_id(&v).as_deref(), Some("7"));
    assert_eq!(named_element(&v).name, None);
    let v: serde_json::Value = serde_json::from_str(r#"{"id": true}"#).unwrap();
    assert_eq!(element_id(&v), None);
}

#[test]
fn formatted_day_parses_back_and_starts_a_one_cell_timeline() {
    let cal = HolidayCalendar::from_static(&[], &[]);
    for t in [parse_date("2026-03-09").unwrap(), parse_date("0001-01-01").unwrap(), parse_date("+10000-01-01").unwrap()] {
        assert_eq!(parse_date(&fmt(t)), Some(t));
    }
    let t = parse_date("2026-03-09").unwrap();
    let (_, cells) = compute_at(&cal, &[], &fmt(t), t).unwrap();
    assert_eq!(cells.len(), 1);
    assert_eq!(build_timeline(&cal, &[], t, t).len(), 1);
}
