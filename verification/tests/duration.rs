use taskstream_core::duration::{human_parts, iso_from_minutes, iso_parts};
use taskstream_core::error::Error;

fn num(t: &Option<String>) -> f64 {
    t.as_deref().map(|x| x.parse::<f64>().unwrap()).unwrap_or(0.0)
}

fn hours_of_human(s: &str) -> f64 {
    let (h, m) = human_parts(s).unwrap();
    num(&h) + num(&m) / 60.0
}

fn hours_of_iso(s: &str) -> Option<f64> {
    iso_parts(s).map(|p| num(&p.days) * 24.0 + num(&p.hours) + num(&p.minutes) / 60.0 + num(&p.seconds) / 3600.0)
}

fn approx(a: f64, b: f64) -> bool {
    (a - b).abs() < 1e-9
}

#[test]
fn whole_minutes_format_as_iso() {
    assert_eq!(iso_from_minutes(90), "PT1H30M");
    assert_eq!(iso_from_minutes(0), "PT0M");
    assert_eq!(iso_from_minutes(120), "PT2H");
    assert_eq!(iso_from_minutes(15), "PT15M");
    assert_eq!(iso_from_minutes(1500), "PT25H");
}

#[test]
fn iso_fields_read_back() {
    let p = iso_parts("PT1H30M").unwrap();
    assert_eq!(p.days, None);
    assert_eq!(p.hours.as_deref(), Some("1"));
    assert_eq!(p.minutes.as_deref(), Some("30"));
    assert_eq!(p.seconds, None);
    let q = iso_parts("P1DT2H").unwrap();
    assert_eq!(q.days.as_deref(), Some("1"));
    assert_eq!(q.hours.as_deref(), Some("2"));
    assert!(approx(hours_of_iso("P1DT2H").unwrap(), 26.0));
    assert!(approx(hours_of_iso("PT1H30M").unwrap(), 1.5));
    assert!(approx(hours_of_iso("PT0M").unwrap(), 0.0));
    assert!(approx(hours_of_iso("PT1.5H").unwrap(), 1.5));
    assert!(approx(hours_of_iso("PT90S").unwrap(), 0.025));
    assert!(iso_parts("P").is_some());
    assert!(iso_parts("PT").is_some());
}

#[test]
fn iso_outside_the_grammar_is_none() {
    assert!(iso_parts("garbage").is_none());
    assert!(iso_parts("").is_none());
    assert!(iso_parts("PT1M1H").is_none());
    assert!(iso_parts("PT1H1H").is_none());
    assert!(iso_parts("P1H").is_none());
    assert!(iso_parts("P1D2").is_none());
    assert!(iso_parts("PT1").is_none());
    assert!(iso_parts("PT1.H").is_none());
}

#[test]
fn human_durations_read_hours_and_minutes() {
    assert!(approx(hours_of_human("1h30m"), 1.5));
    assert!(approx(hours_of_human("90m"), 1.5));
    assert!(approx(hours_of_human("1.5h"), 1.5));
    assert!(approx(hours_of_human("2h"), 2.0));
    assert!(approx(hours_of_human("45m"), 0.75));
    assert!(approx(hours_of_human("5h 12m"), 5.2));
    assert!(approx(hours_of_human("1h 30m"), 1.5));
    assert!(approx(hours_of_human(" 90m "), 1.5));
    assert!(approx(hours_of_human("1H30M"), 1.5));
    let (h, m) = human_parts("1h30m").unwrap();
    assert_eq!(h.as_deref(), Some("1"));
    assert_eq!(m.as_deref(), Some("30"));
}

#[test]
fn human_durations_outside_the_grammar_are_usage_errors() {
    for s in ["1h30", "abc", "1m30h", "", "90", "1.h"] {
        match human_parts(s) {
            Err(Error::Usage(m)) => {
                assert_eq!(m, format!("invalid duration: {s:?} (expected e.g. 1h30m, 90m, 1.5h)"))
            }
            other => panic!("expected error for {s:?}, got {other:?}"),
        }
    }
}

#[test]
fn minutes_written_read_back_as_written() {
    for total in [0u64, 15, 59, 60, 61, 90, 120, 1500] {
        let p = iso_parts(&iso_from_minutes(total)).unwrap();
        let h = total / 60;
        let m = total % 60;
        assert_eq!(p.days, None);
        assert_eq!(p.hours, if h > 0 { Some(h.to_string()) } else { None });
        assert_eq!(p.minutes, if m > 0 || h == 0 { Some(m.to_string()) } else { None });
        assert_eq!(p.seconds, None);
    }
}
