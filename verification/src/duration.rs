//! The grammars of durations: the human form the time commands accept
//! (`1h30m`, `90m`, `1.5h`) and the ISO 8601 form the server speaks
//! (`P1DT2H30M`), read into the decimal texts of their fields, and whole
//! minutes written back as `PT<h>H<m>M`. Turning the texts into fractional
//! hours is the caller's.

use vstd::prelude::*;
use crate::cache::{to_lowercase, unicode_lower};
use crate::config::opt_view;
use crate::error::Error;
use crate::resolve::{debug_text, str_debug};
use crate::text::{chars_of, dec_nat, fmt_u64, is_digit, is_whitespace, is_ws, push_all, slice_vec, string_of};

verus! {

/// The end of the run of ASCII digits of `s` that starts at `i`.
pub open spec fn digits_end(s: Seq<char>, i: int) -> int
    decreases s.len() - i,
{
    if 0 <= i < s.len() && is_digit(s[i]) {
        digits_end(s, i + 1)
    } else {
        i
    }
}

/// The end of the decimal literal `d+(.d+)?` that starts at `i`, if one
/// does; a dot must be followed by a digit.
pub open spec fn number_end(s: Seq<char>, i: int) -> Option<int> {
    let e = digits_end(s, i);
    if e == i {
        None
    } else if e < s.len() && s[e] == '.' {
        let f = digits_end(s, e + 1);
        if f == e + 1 {
            None
        } else {
            Some(f)
        }
    } else {
        Some(e)
    }
}

/// A run of digits starting inside `s` ends inside it, after its start.
pub proof fn lemma_digits_end(s: Seq<char>, i: int)
    requires
        0 <= i <= s.len(),
    ensures
        i <= digits_end(s, i) <= s.len(),
        forall|k: int| i <= k < digits_end(s, i) ==> is_digit(#[trigger] s[k]),
    decreases s.len() - i,
{
    if i < s.len() && is_digit(s[i]) {
        lemma_digits_end(s, i + 1);
    }
}

/// A literal starting inside `s` ends after its start and inside `s`.
pub proof fn lemma_number_end(s: Seq<char>, i: int)
    requires
        0 <= i <= s.len(),
    ensures
        number_end(s, i) matches Some(e) ==> i < e <= s.len(),
{
    lemma_digits_end(s, i);
    let e = digits_end(s, i);
    if e != i && e < s.len() && s[e] == '.' {
        lemma_digits_end(s, e + 1);
    }
}

/// The end of the run of digits of `s` from `i`.
fn scan_digits(s: &Vec<char>, i: usize) -> (e: usize)
    requires
        i <= s@.len(),
    ensures
        e as int == digits_end(s@, i as int),
{
    let mut e = i;
    while e < s.len() && '0' <= s[e] && s[e] <= '9'
        invariant
            i <= e <= s@.len(),
            digits_end(s@, e as int) == digits_end(s@, i as int),
        decreases s@.len() - e,
    {
        e = e + 1;
    }
    e
}

/// The end of the decimal literal of `s` at `i`, if there is one.
fn scan_number(s: &Vec<char>, i: usize) -> (r: Option<usize>)
    requires
        i <= s@.len(),
    ensures
        match number_end(s@, i as int) {
            Some(e) => r == Some(e as usize) && i < e <= s@.len(),
            None => r is None,
        },
{
    proof {
        lemma_number_end(s@, i as int);
        lemma_digits_end(s@, i as int);
    }
    let e = scan_digits(s, i);
    if e == i {
        None
    } else if e < s.len() && s[e] == '.' {
        proof {
            lemma_digits_end(s@, e as int + 1);
        }
        let f = scan_digits(s, e + 1);
        if f == e + 1 {
            None
        } else {
            Some(f)
        }
    } else {
        Some(e)
    }
}

/// `s` has `c` at position `e`.
pub open spec fn char_at(s: Seq<char>, e: Option<int>, c: char) -> bool {
    e matches Some(x) && 0 <= x < s.len() && s[x] == c
}

/// The fields of a human duration, once lowercased and stripped of
/// whitespace: an optional `<n>h`, then an optional `<n>m`, at least one of
/// them, and nothing after. The result is the decimal texts of the hours and
/// the minutes.
pub open spec fn spec_human_parts(s: Seq<char>) -> Option<(Option<Seq<char>>, Option<Seq<char>>)> {
    let he = number_end(s, 0);
    let has_h = char_at(s, he, 'h');
    let i = if has_h { he->0 + 1 } else { 0 };
    let me = number_end(s, i);
    let has_m = char_at(s, me, 'm');
    let j = if has_m { me->0 + 1 } else { i };
    if (!has_h && !has_m) || j != s.len() {
        None
    } else {
        Some((
            if has_h { Some(s.subrange(0, he->0)) } else { None },
            if has_m { Some(s.subrange(i, me->0)) } else { None },
        ))
    }
}

/// A text as the human-duration grammar reads it: lowercased, whitespace
/// dropped (so `5h 12m` and ` 90m ` parse).
pub open spec fn compact(s: Seq<char>) -> Seq<char> {
    unicode_lower(s).filter(|c: char| !is_ws(c))
}

/// The message of a human duration that does not parse.
pub open spec fn invalid_duration_message(dbg: Seq<char>) -> Seq<char> {
    "invalid duration: "@ + dbg + " (expected e.g. 1h30m, 90m, 1.5h)"@
}

/// The decimal texts of the hours and minutes of a human duration (`1h30m`,
/// `90m`, `1.5h`, case and whitespace ignored); a text outside the grammar
/// is a usage error.
pub fn human_parts(s: &str) -> (r: Result<(Option<String>, Option<String>), Error>)
    ensures
        match spec_human_parts(compact(s@)) {
            Some((h, m)) => r matches Ok((a, b)) && opt_view(a) == h && opt_view(b) == m,
            None => r matches Err(Error::Usage(msg)) && msg@ == invalid_duration_message(str_debug(s@)),
        },
{
    let lower = chars_of(to_lowercase(s).as_str());
    let mut v: Vec<char> = Vec::new();
    let mut k: usize = 0;
    while k < lower.len()
        invariant
            k <= lower@.len(),
            v@ == lower@.subrange(0, k as int).filter(|c: char| !is_ws(c)),
        decreases lower@.len() - k,
    {
        proof {
            assert(lower@.subrange(0, k as int + 1).drop_last() == lower@.subrange(0, k as int));
            reveal(Seq::filter);
        }
        if !is_whitespace(lower[k]) {
            v.push(lower[k]);
        }
        k = k + 1;
    }
    proof {
        assert(lower@.subrange(0, lower@.len() as int) == lower@);
        assert(v@ == compact(s@));
    }
    let ghost c = v@;
    let he = scan_number(&v, 0);
    let has_h = match he {
        Some(e) => e < v.len() && v[e] == 'h',
        None => false,
    };
    assert(has_h == char_at(c, number_end(c, 0), 'h'));
    let i: usize = if has_h {
        he.unwrap() + 1
    } else {
        0
    };
    let me = scan_number(&v, i);
    let has_m = match me {
        Some(e) => e < v.len() && v[e] == 'm',
        None => false,
    };
    assert(has_m == char_at(c, number_end(c, i as int), 'm'));
    let j: usize = if has_m {
        me.unwrap() + 1
    } else {
        i
    };
    if (!has_h && !has_m) || j != v.len() {
        let dbg = debug_text(s);
        let mut msg = chars_of("invalid duration: ");
        push_all(&mut msg, &chars_of(dbg.as_str()));
        push_all(&mut msg, &chars_of(" (expected e.g. 1h30m, 90m, 1.5h)"));
        return Err(Error::Usage(string_of(&msg)));
    }
    let h = if has_h {
        Some(string_of(&slice_vec(&v, 0, he.unwrap())))
    } else {
        None
    };
    let m = if has_m {
        Some(string_of(&slice_vec(&v, i, me.unwrap())))
    } else {
        None
    };
    Ok((h, m))
}

/// The rank of an ISO 8601 time unit: `H`, `M`, `S` in that order.
pub open spec fn unit_rank(c: char) -> int {
    if c == 'H' {
        0
    } else if c == 'M' {
        1
    } else if c == 'S' {
        2
    } else {
        -1
    }
}

/// The hour, minute and second texts of the fields of an ISO 8601 time part
/// read from `j`: each a decimal literal and its unit, each unit at most once
/// and in `H`, `M`, `S` order, none ranked below `k`.
pub open spec fn time_fields(v: Seq<char>, j: int, k: int) -> Option<
    (Option<Seq<char>>, Option<Seq<char>>, Option<Seq<char>>),
>
    decreases v.len() - j,
{
    if j < 0 || j >= v.len() {
        Some((None, None, None))
    } else {
        match number_end(v, j) {
            None => None,
            Some(e) => {
                if e <= j || e >= v.len() {
                    None
                } else {
                    let p = unit_rank(v[e]);
                    if p < k || p < 0 {
                        None
                    } else {
                        match time_fields(v, e + 1, p + 1) {
                            None => None,
                            Some(t) => Some(
                                if p == 0 {
                                    (Some(v.subrange(j, e)), t.1, t.2)
                                } else if p == 1 {
                                    (t.0, Some(v.subrange(j, e)), t.2)
                                } else {
                                    (t.0, t.1, Some(v.subrange(j, e)))
                                },
                            ),
                        }
                    }
                }
            },
        }
    }
}

/// The fields of an ISO 8601 duration `P(<n>D)?(T(<n>H)?(<n>M)?(<n>S)?)?`:
/// the decimal texts of its days, hours, minutes and seconds.
pub open spec fn spec_iso_parts(v: Seq<char>) -> Option<
    (Option<Seq<char>>, Option<Seq<char>>, Option<Seq<char>>, Option<Seq<char>>),
> {
    if v.len() == 0 || v[0] != 'P' {
        None
    } else {
        let dn = number_end(v, 1);
        if dn is Some && !char_at(v, dn, 'D') {
            None
        } else {
            let d = if dn is Some { Some(v.subrange(1, dn->0)) } else { None };
            let i = if dn is Some { dn->0 + 1 } else { 1 };
            if i < v.len() && v[i] == 'T' {
                match time_fields(v, i + 1, 0) {
                    None => None,
                    Some(t) => Some((d, t.0, t.1, t.2)),
                }
            } else if i < v.len() {
                None
            } else {
                Some((d, None, None, None))
            }
        }
    }
}

/// The decimal texts of the fields of an ISO 8601 duration.
#[derive(Debug)]
pub struct IsoParts {
    pub days: Option<String>,
    pub hours: Option<String>,
    pub minutes: Option<String>,
    pub seconds: Option<String>,
}

/// The view of the fields of an ISO 8601 duration.
pub open spec fn iso_view(p: IsoParts) -> (
    Option<Seq<char>>,
    Option<Seq<char>>,
    Option<Seq<char>>,
    Option<Seq<char>>,
) {
    (opt_view(p.days), opt_view(p.hours), opt_view(p.minutes), opt_view(p.seconds))
}

/// The rank of a time unit character.
fn rank_of(c: char) -> (r: i8)
    ensures
        r as int == unit_rank(c),
{
    if c == 'H' {
        0
    } else if c == 'M' {
        1
    } else if c == 'S' {
        2
    } else {
        -1
    }
}

/// Read the fields of the time part from `j` on, none ranked below `k`.
fn scan_time_fields(v: &Vec<char>, j: usize, k: i8) -> (r: Option<(Option<String>, Option<String>, Option<String>)>)
    requires
        1 <= j <= v@.len(),
        0 <= k <= 3,
    ensures
        match time_fields(v@, j as int, k as int) {
            Some(t) => r matches Some(x) && opt_view(x.0) == t.0 && opt_view(x.1) == t.1 && opt_view(x.2)
                == t.2,
            None => r is None,
        },
    decreases v@.len() - j,
{
    if j >= v.len() {
        return Some((None, None, None));
    }
    let e = match scan_number(v, j) {
        None => return None,
        Some(e) => e,
    };
    if e >= v.len() {
        return None;
    }
    let p = rank_of(v[e]);
    if p < k || p < 0 {
        return None;
    }
    let rest = scan_time_fields(v, e + 1, p + 1);
    match rest {
        None => None,
        Some(t) => {
            let text = Some(string_of(&slice_vec(v, j, e)));
            if p == 0 {
                Some((text, t.1, t.2))
            } else if p == 1 {
                Some((t.0, text, t.2))
            } else {
                Some((t.0, t.1, text))
            }
        },
    }
}

/// The decimal texts of the days, hours, minutes and seconds of an ISO 8601
/// duration (`PT1H30M`, `P1DT2H`, `PT0M`); `None` for a text outside the
/// grammar, the empty text among them.
pub fn iso_parts(value: &str) -> (r: Option<IsoParts>)
    ensures
        match spec_iso_parts(value@) {
            Some(t) => r matches Some(p) && iso_view(p) == t,
            None => r is None,
        },
{
    let v = chars_of(value);
    if v.len() == 0 || v[0] != 'P' {
        return None;
    }
    let dn = scan_number(&v, 1);
    let days = match dn {
        Some(e) => {
            if !(e < v.len() && v[e] == 'D') {
                return None;
            }
            Some(string_of(&slice_vec(&v, 1, e)))
        },
        None => None,
    };
    let i: usize = match dn {
        Some(e) => e + 1,
        None => 1,
    };
    if i < v.len() && v[i] == 'T' {
        match scan_time_fields(&v, i + 1, 0) {
            None => None,
            Some(t) => Some(IsoParts { days, hours: t.0, minutes: t.1, seconds: t.2 }),
        }
    } else if i < v.len() {
        None
    } else {
        Some(IsoParts { days, hours: None, minutes: None, seconds: None })
    }
}

/// `PT`, then the whole hours with `H` when there are any, then the minutes
/// with `M` when there are any or there are no hours.
pub open spec fn spec_iso_from_minutes(total: nat) -> Seq<char> {
    let h = total / 60;
    let m = total % 60;
    "PT"@ + (if h > 0 { dec_nat(h) + "H"@ } else { Seq::empty() }) + (if m > 0 || h == 0 {
        dec_nat(m) + "M"@
    } else {
        Seq::empty()
    })
}

/// Whole minutes as an ISO 8601 duration: 90 is `PT1H30M`, 120 `PT2H`, 0
/// `PT0M`.
pub fn iso_from_minutes(total: u64) -> (r: String)
    ensures
        r@ == spec_iso_from_minutes(total as nat),
{
    let h = total / 60;
    let m = total % 60;
    let mut v = chars_of("PT");
    if h > 0 {
        push_all(&mut v, &fmt_u64(h));
        v.push('H');
    }
    if m > 0 || h == 0 {
        push_all(&mut v, &fmt_u64(m));
        v.push('M');
    }
    proof {
        reveal_strlit("PT");
        reveal_strlit("H");
        reveal_strlit("M");
        assert(v@ =~= spec_iso_from_minutes(total as nat));
    }
    string_of(&v)
}

/// The decimal digits of a natural number are a nonempty run of digits.
proof fn lemma_dec_nat_digits(n: nat)
    ensures
        dec_nat(n).len() > 0,
        forall|k: int| 0 <= k < dec_nat(n).len() ==> is_digit(#[trigger] dec_nat(n)[k]),
    decreases n,
{
    if n >= 10 {
        lemma_dec_nat_digits(n / 10);
    }
}

/// A run of `len` digits from `i`, followed by the end or a non-digit, ends
/// at `i + len`.
proof fn lemma_digit_run(s: Seq<char>, i: int, len: int)
    requires
        0 <= i,
        0 <= len,
        i + len <= s.len(),
        forall|k: int| i <= k < i + len ==> is_digit(#[trigger] s[k]),
        i + len == s.len() || !is_digit(s[i + len]),
    ensures
        digits_end(s, i) == i + len,
    decreases len,
{
    if len > 0 {
        lemma_digit_run(s, i + 1, len - 1);
    }
}

/// `s` holds the digits `d` at `i`, followed by the unit `u`.
proof fn lemma_field_at(s: Seq<char>, i: int, d: Seq<char>, u: char)
    requires
        0 <= i,
        d.len() > 0,
        forall|k: int| 0 <= k < d.len() ==> is_digit(#[trigger] d[k]),
        i + d.len() < s.len(),
        s.subrange(i, i + d.len()) == d,
        s[i + d.len()] == u,
        !is_digit(u),
        u != '.',
    ensures
        number_end(s, i) == Some(i + d.len()),
{
    assert forall|k: int| i <= k < i + d.len() implies is_digit(#[trigger] s[k]) by {
        assert(s[k] == s.subrange(i, i + d.len())[k - i]);
    }
    lemma_digit_run(s, i, d.len() as int);
}

/// The fields whole minutes are written with.
pub open spec fn minutes_fields(total: nat) -> (
    Option<Seq<char>>,
    Option<Seq<char>>,
    Option<Seq<char>>,
    Option<Seq<char>>,
) {
    let h = total / 60;
    let m = total % 60;
    (
        None,
        if h > 0 { Some(dec_nat(h)) } else { None },
        if m > 0 || h == 0 { Some(dec_nat(m)) } else { None },
        None,
    )
}

/// Reading back a duration written from whole minutes gives the whole hours
/// and the remaining minutes it was written with: the hours a time entry is
/// sent with are the hours it is read back as.
pub proof fn law_minutes_read_back(total: nat)
    ensures
        spec_iso_parts(spec_iso_from_minutes(total)) == Some(minutes_fields(total)),
{
    let h = total / 60;
    let m = total % 60;
    let dh = dec_nat(h);
    let dm = dec_nat(m);
    lemma_dec_nat_digits(h);
    lemma_dec_nat_digits(m);
    reveal_strlit("PT");
    reveal_strlit("H");
    reveal_strlit("M");
    let hp: Seq<char> = if h > 0 { dh + "H"@ } else { Seq::empty() };
    let mp: Seq<char> = if m > 0 || h == 0 { dm + "M"@ } else { Seq::empty() };
    let s = spec_iso_from_minutes(total);
    let lh: int = dh.len() as int;
    let lm: int = dm.len() as int;
    assert(s == "PT"@ + hp + mp);
    assert(s[0] == 'P');
    assert(s[1] == 'T');
    assert(digits_end(s, 1) == 1);
    assert(number_end(s, 1) is None);
    let j: int = 2 + hp.len() as int;
    if mp.len() > 0 {
        assert(s.subrange(j, j + lm) =~= dm);
        assert(s[j + lm] == 'M');
        lemma_field_at(s, j, dm, 'M');
        assert(unit_rank(s[j + lm]) == 1);
        assert(j + lm + 1 == s.len());
        assert(time_fields(s, j + lm + 1, 2) == Some((None::<Seq<char>>, None::<Seq<char>>, None::<Seq<char>>)));
        assert(s.subrange(j, j + lm) == dm);
    } else {
        assert(j == s.len());
    }
    let tm = time_fields(s, j, if h > 0 { 1 } else { 0 });
    assert(tm == Some((None::<Seq<char>>, if mp.len() > 0 { Some(dm) } else { None }, None::<Seq<char>>)));
    if h > 0 {
        assert(s.subrange(2, 2 + lh) =~= dh);
        assert(s[2 + lh] == 'H');
        lemma_field_at(s, 2, dh, 'H');
        assert(unit_rank(s[2 + lh]) == 0);
        assert(2 + lh + 1 == j);
        assert(time_fields(s, 2, 0) == Some((Some(dh), if mp.len() > 0 { Some(dm) } else { None }, None::<Seq<char>>)));
    }
    assert(time_fields(s, 2, 0) == Some((if h > 0 { Some(dh) } else { None }, if mp.len() > 0 { Some(dm) } else { None }, None::<Seq<char>>)));
}

} // verus!
