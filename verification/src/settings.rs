//! GUI preference choices kept apart from the server profiles.

use vstd::prelude::*;
use crate::strmap::str_eq;

verus! {

/// Current `gui-settings.json` schema version.
pub const SETTINGS_SCHEMA_VERSION: u32 = 1;

/// Color theme; `System` follows the OS.
#[derive(Debug, Clone, Copy, PartialEq, Eq, Structural)]
pub enum Theme {
    System,
    Dark,
    Light,
}

impl Default for Theme {
    fn default() -> (t: Theme)
        ensures
            t == Theme::System,
    {
        Theme::System
    }
}

/// UI language; `System` follows the locale.
#[derive(Debug, Clone, Copy, PartialEq, Eq, Structural)]
pub enum Lang {
    System,
    En,
    Ru,
}

impl Default for Lang {
    fn default() -> (l: Lang)
        ensures
            l == Lang::System,
    {
        Lang::System
    }
}

/// First day of the week; `System` follows the locale.
#[derive(Debug, Clone, Copy, PartialEq, Eq, Structural)]
pub enum WeekStart {
    System,
    Monday,
    Sunday,
}

impl Default for WeekStart {
    fn default() -> (w: WeekStart)
        ensures
            w == WeekStart::System,
    {
        WeekStart::System
    }
}

/// A first day of the week.
#[derive(Debug, Clone, Copy, PartialEq, Eq, Structural)]
pub enum FirstDay {
    Monday,
    Sunday,
}

/// The countries whose weeks start on Sunday.
pub open spec fn is_sunday_first_country(c: Seq<char>) -> bool {
    c == "US"@ || c == "CA"@ || c == "JP"@ || c == "CN"@ || c == "KR"@ || c == "TW"@ || c == "HK"@
        || c == "IN"@ || c == "IL"@ || c == "BR"@ || c == "MX"@ || c == "PH"@ || c == "ZA"@
        || c == "CO"@ || c == "AR"@ || c == "PE"@ || c == "VE"@ || c == "SA"@ || c == "AE"@
        || c == "EG"@ || c == "TH"@ || c == "ID"@
}

/// Whether weeks start on Sunday in the given (uppercase) country.
pub fn sunday_first(country: &str) -> (r: bool)
    ensures
        r == is_sunday_first_country(country@),
{
    str_eq(country, "US") || str_eq(country, "CA") || str_eq(country, "JP") || str_eq(country, "CN")
        || str_eq(country, "KR") || str_eq(country, "TW") || str_eq(country, "HK") || str_eq(
        country,
        "IN",
    ) || str_eq(country, "IL") || str_eq(country, "BR") || str_eq(country, "MX") || str_eq(
        country,
        "PH",
    ) || str_eq(country, "ZA") || str_eq(country, "CO") || str_eq(country, "AR") || str_eq(
        country,
        "PE",
    ) || str_eq(country, "VE") || str_eq(country, "SA") || str_eq(country, "AE") || str_eq(
        country,
        "EG",
    ) || str_eq(country, "TH") || str_eq(country, "ID")
}

impl WeekStart {
    /// The first day of the week, with `System` decided by the locale's
    /// country (read by the caller): Sunday for the Sunday-first countries,
    /// Monday otherwise.
    pub fn first_day(self, locale_country: Option<&str>) -> (r: FirstDay)
        ensures
            self == WeekStart::Monday ==> r == FirstDay::Monday,
            self == WeekStart::Sunday ==> r == FirstDay::Sunday,
            self == WeekStart::System ==> r == (match locale_country {
                Some(c) => if is_sunday_first_country(c@) {
                    FirstDay::Sunday
                } else {
                    FirstDay::Monday
                },
                None => FirstDay::Monday,
            }),
    {
        match self {
            WeekStart::Monday => FirstDay::Monday,
            WeekStart::Sunday => FirstDay::Sunday,
            WeekStart::System => match locale_country {
                Some(c) => if sunday_first(c) {
                    FirstDay::Sunday
                } else {
                    FirstDay::Monday
                },
                None => FirstDay::Monday,
            },
        }
    }
}

/// The tray menu is Russian: chosen so, or left to the system and the
/// locale (`LC_ALL`, else `LANG`, read by the caller) starts with `ru` in any
/// case.
pub open spec fn tray_in_russian(lang: Lang, locale: Option<Seq<char>>) -> bool {
    match lang {
        Lang::Ru => true,
        Lang::En => false,
        Lang::System => match locale {
            Some(l) => {
                let low = crate::cache::unicode_lower(l);
                low.len() >= 2 && low[0] == 'r' && low[1] == 'u'
            },
            None => false,
        },
    }
}

/// The tray menu labels (show, quit) in the interface language.
pub fn tray_labels(lang: Lang, locale: Option<&str>) -> (r: (&'static str, &'static str))
    ensures
        tray_in_russian(lang, match locale {
            Some(l) => Some(l@),
            None => None,
        }) ==> r.0@ == "Показать"@ && r.1@ == "Выход"@,
        !tray_in_russian(lang, match locale {
            Some(l) => Some(l@),
            None => None,
        }) ==> r.0@ == "Show"@ && r.1@ == "Quit"@,
{
    let ru = match lang {
        Lang::Ru => true,
        Lang::En => false,
        Lang::System => match locale {
            Some(l) => {
                let low = crate::text::chars_of(crate::cache::to_lowercase(l).as_str());
                low.len() >= 2 && low[0] == 'r' && low[1] == 'u'
            },
            None => false,
        },
    };
    if ru {
        ("Показать", "Выход")
    } else {
        ("Show", "Quit")
    }
}

} // verus!
