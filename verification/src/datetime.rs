//! Calendar dates as day numbers. A date is the number of days since the
//! proleptic-Gregorian 0001-12-31 (so 0001-01-01 is day 1, a Monday), the
//! numbering of chrono's `num_days_from_ce`. Parsing and formatting of
//! `YYYY-MM-DD` text, RFC 3339 timestamps and the local clock are chrono's;
//! weekdays and week starts are computed here.

use vstd::prelude::*;
use crate::error::Error;
use crate::text::concat_str;

verus! {

/// Day number of chrono's earliest date, `NaiveDate::MIN` (-262143-01-01).
pub const MIN_DAY: i32 = -95746129;

/// Day number of chrono's latest date, `NaiveDate::MAX` (262142-12-31).
pub const MAX_DAY: i32 = 95745399;

/// The day number chrono's `%Y-%m-%d` parse gives a text, if it parses.
pub uninterp spec fn ymd_day(s: Seq<char>) -> Option<i32>;

/// The `%Y-%m-%d` text chrono formats a day number as.
pub uninterp spec fn day_ymd(d: i32) -> Seq<char>;

/// The Unix timestamp (seconds) chrono's RFC 3339 parse gives a text, if it
/// parses.
pub uninterp spec fn rfc3339_timestamp(s: Seq<char>) -> Option<i64>;

/// `NaiveDate::parse_from_str(s, "%Y-%m-%d")` then `num_days_from_ce`. The
/// result is named by [`ymd_day`]; a parsed date lies in chrono's range.
#[verifier::external_body]
pub fn parse_ymd(s: &str) -> (r: Option<i32>)
    ensures
        r == ymd_day(s@),
        r matches Some(d) ==> MIN_DAY <= d <= MAX_DAY,
{
    chrono::NaiveDate::parse_from_str(s, "%Y-%m-%d").ok().map(
        |d| chrono::Datelike::num_days_from_ce(&d),
    )
}

/// `NaiveDate::from_num_days_from_ce_opt(d)` formatted with `%Y-%m-%d`. Every
/// day number in chrono's range names a date. The text is named by
/// [`day_ymd`]; parsing it with the same format gives the day back (the year
/// is written with at least four digits, and with its sign outside
/// `0..=9999`, which `%Y` parses back; month and day are two digits).
#[verifier::external_body]
pub fn format_ymd(d: i32) -> (r: String)
    requires
        MIN_DAY <= d <= MAX_DAY,
    ensures
        r@ == day_ymd(d),
        ymd_day(r@) == Some(d),
{
    chrono::NaiveDate::from_num_days_from_ce_opt(d).unwrap().format("%Y-%m-%d").to_string()
}

/// `chrono::Local::now().date_naive()` as a day number: today's date in the
/// machine's time zone. Only its range is stated.
#[verifier::external_body]
pub fn today_local() -> (r: i32)
    ensures
        MIN_DAY <= r <= MAX_DAY,
{
    chrono::Datelike::num_days_from_ce(&chrono::Local::now().date_naive())
}

/// The day number chrono gives the calendar date `y`-`m`-`d`, if it exists.
pub uninterp spec fn parts_day(y: i32, m: u32, d: u32) -> Option<i32>;

/// `NaiveDate::from_ymd_opt(y, m, d)` then `num_days_from_ce`. The result is
/// named by [`parts_day`]; a date that exists lies in chrono's range.
#[verifier::external_body]
pub fn day_from_parts(y: i32, m: u32, d: u32) -> (r: Option<i32>)
    ensures
        r == parts_day(y, m, d),
        r matches Some(x) ==> MIN_DAY <= x <= MAX_DAY,
{
    chrono::NaiveDate::from_ymd_opt(y, m, d).map(|x| chrono::Datelike::num_days_from_ce(&x))
}

/// The instant `ts` (Unix seconds) falls on a day chrono can hold.
pub open spec fn instant_in_range(ts: i64) -> bool {
    MIN_DAY <= ts / 86400 + 719163 <= MAX_DAY
}

/// `DateTime::parse_from_rfc3339(s)` then `timestamp()`. The result is named
/// by [`rfc3339_timestamp`]; a parsed instant lies in chrono's range (a
/// `DateTime` holds a valid UTC date and time).
#[verifier::external_body]
pub fn parse_rfc3339_timestamp(s: &str) -> (r: Option<i64>)
    ensures
        r == rfc3339_timestamp(s@),
        r matches Some(t) ==> instant_in_range(t),
{
    chrono::DateTime::parse_from_rfc3339(s).ok().map(|t| t.timestamp())
}

/// The weekday of a day number, Monday = 0 through Sunday = 6.
pub open spec fn weekday(d: int) -> int {
    (d - 1) % 7
}

/// Saturday or Sunday.
pub open spec fn is_weekend(d: int) -> bool {
    weekday(d) >= 5
}

/// The Monday that opens the week of `d`.
pub open spec fn monday_of(d: int) -> int {
    d - weekday(d)
}

/// The weekday of a day number, Monday = 0 through Sunday = 6.
pub fn weekday_of(d: i32) -> (r: i32)
    ensures
        r == weekday(d as int),
        0 <= r < 7,
{
    if d >= 1 {
        let r = (d - 1) % 7;
        r
    } else {
        let q: i64 = 1 - (d as i64);
        let m: i64 = q % 7;
        let r: i64 = if m == 0 { 0 } else { 7 - m };
        proof {
            assert((d - 1) % 7 == r) by (nonlinear_arith)
                requires
                    q == 1 - d,
                    q >= 1,
                    m == q % 7,
                    r == (if m == 0 { 0 } else { 7 - m }),
            ;
        }
        r as i32
    }
}

/// Whether `chrono-tz` knows an IANA zone name.
pub uninterp spec fn tz_known(name: Seq<char>) -> bool;

/// `name.parse::<chrono_tz::Tz>().is_ok()`. Named by [`tz_known`].
#[verifier::external_body]
fn is_known_tz(name: &str) -> (r: bool)
    ensures
        r == tz_known(name@),
{
    name.parse::<chrono_tz::Tz>().is_ok()
}

/// The `%Y-%m-%d %H:%M` text of the instant `ts` (Unix seconds) in the IANA
/// zone `name`.
pub uninterp spec fn zone_minute_text(ts: i64, name: Seq<char>) -> Seq<char>;

/// The instant `ts` (Unix seconds) as `%Y-%m-%d %H:%M` in the zone `name`, or
/// in the machine's local zone when `name` is `None`. A named zone's text is
/// named by [`zone_minute_text`]; the local zone's depends on the machine and
/// is not stated. A named zone must be known and the instant in chrono's
/// range (`from_timestamp` and the zone parse are unwrapped).
#[verifier::external_body]
fn format_instant(ts: i64, name: Option<&str>) -> (r: String)
    requires
        instant_in_range(ts),
        name matches Some(n) ==> tz_known(n@),
    ensures
        name matches Some(n) ==> r@ == zone_minute_text(ts, n@),
{
    let dt = chrono::DateTime::from_timestamp(ts, 0).unwrap();
    match name {
        Some(n) => dt.with_timezone(&n.parse::<chrono_tz::Tz>().unwrap()).format("%Y-%m-%d %H:%M").to_string(),
        None => dt.with_timezone(&chrono::Local).format("%Y-%m-%d %H:%M").to_string(),
    }
}

/// Today's date in the IANA zone `name` (known), or in the machine's local
/// zone, as a day number. Only its range is stated.
#[verifier::external_body]
fn today_in(name: Option<&str>) -> (r: i32)
    requires
        name matches Some(n) ==> tz_known(n@),
    ensures
        MIN_DAY <= r <= MAX_DAY,
{
    match name {
        Some(n) => chrono::Datelike::num_days_from_ce(
            &chrono::Utc::now().with_timezone(&n.parse::<chrono_tz::Tz>().unwrap()).date_naive(),
        ),
        None => chrono::Datelike::num_days_from_ce(&chrono::Local::now().date_naive()),
    }
}

/// The display and day-boundary time zone: an IANA zone known to
/// `chrono-tz`, or (`None`) the machine's local zone.
#[derive(Debug, PartialEq, Eq)]
pub struct Zone {
    name: Option<String>,
}

impl Zone {
    /// The IANA name, `None` for the local zone.
    pub closed spec fn zone_name(&self) -> Option<Seq<char>> {
        match self.name {
            Some(n) => Some(n@),
            None => None,
        }
    }

    /// A named zone is one `chrono-tz` knows.
    #[verifier::type_invariant]
    closed spec fn known(&self) -> bool {
        self.name matches Some(n) ==> tz_known(n@)
    }

    /// The machine's local zone.
    pub fn local() -> (z: Zone)
        ensures
            z.zone_name() is None,
    {
        Zone { name: None }
    }

    /// The zone's IANA name, `None` for the local zone.
    pub fn name(&self) -> (r: Option<&str>)
        ensures
            match r {
                Some(n) => self.zone_name() == Some(n@) && tz_known(n@),
                None => self.zone_name() is None,
            },
    {
        proof {
            use_type_invariant(self);
        }
        match &self.name {
            Some(n) => Some(n.as_str()),
            None => None,
        }
    }

    /// Resolve an optional IANA name leniently: absent, empty or unknown
    /// names give the local zone.
    pub fn resolve(name: Option<&str>) -> (z: Zone)
        ensures
            match name {
                Some(n) => if n@.len() > 0 && tz_known(n@) {
                    z.zone_name() == Some(n@)
                } else {
                    z.zone_name() is None
                },
                None => z.zone_name() is None,
            },
    {
        match name {
            Some(n) => {
                if n.unicode_len() > 0 && is_known_tz(n) {
                    Zone { name: Some(n.to_string()) }
                } else {
                    Zone::local()
                }
            },
            None => Zone::local(),
        }
    }

    /// Parse an IANA name strictly: an unknown zone is a configuration error.
    pub fn parse(name: &str) -> (r: Result<Zone, Error>)
        ensures
            tz_known(name@) ==> (r matches Ok(z) && z.zone_name() == Some(name@)),
            !tz_known(name@) ==> (r matches Err(Error::Config(m)) && m@ == "unknown timezone '"@ + name@
                + "'"@),
    {
        if is_known_tz(name) {
            Ok(Zone { name: Some(name.to_string()) })
        } else {
            let a = concat_str("unknown timezone '", name);
            Err(Error::Config(concat_str(a.as_str(), "'")))
        }
    }

    /// Today's date in this zone, as a day number.
    pub fn today(&self) -> (r: i32)
        ensures
            MIN_DAY <= r <= MAX_DAY,
    {
        today_in(self.name())
    }

    /// Render an RFC 3339 datetime as `YYYY-MM-DD HH:MM` in this zone; a text
    /// that does not parse comes back unchanged.
    pub fn format_datetime(&self, iso: &str) -> (r: String)
        ensures
            rfc3339_timestamp(iso@) is None ==> r@ == iso@,
            rfc3339_timestamp(iso@) matches Some(ts) ==> (self.zone_name() matches Some(n) ==> r@
                == zone_minute_text(ts, n)),
    {
        match parse_rfc3339_timestamp(iso) {
            None => iso.to_string(),
            Some(ts) => format_instant(ts, self.name()),
        }
    }
}

} // verus!
