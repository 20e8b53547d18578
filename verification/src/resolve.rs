//! Turning human references into the ids the API expects: a principal given
//! as `me`, a numeric id or a name matched by its words, and enumeration
//! entries (statuses, types, activities) given by id or case-insensitive name.
//! The lookups themselves are the caller's; what is asked and how the answer
//! is chosen from the candidates is decided here.

use vstd::prelude::*;
use crate::cache::{to_lowercase, unicode_lower, Cache, spec_get_resolve, resolve_key};
use crate::error::Error;
use crate::github::{join, join_with, views};
use crate::strmap::{compare_str, seq_lt, str_eq, KeyOrder};
use crate::text::{
    chars_of, concat_str, contains, is_digit, is_whitespace, is_ws, seq_contains, string_of, trim,
    trim_ws, trim_start_ws, slice_vec, push_all, fmt_u64, dec_nat,
};

verus! {

/// The text `format!("{:?}", s)` gives a string: quoted, with escapes.
pub uninterp spec fn str_debug(s: Seq<char>) -> Seq<char>;

/// `format!("{s:?}")`. The text is named by [`str_debug`].
#[verifier::external_body]
pub(crate) fn debug_text(s: &str) -> (r: String)
    ensures
        r@ == str_debug(s@),
{
    format!("{s:?}")
}

/// Non-empty and all ASCII digits.
pub open spec fn spec_is_ascii_digits(s: Seq<char>) -> bool {
    s.len() > 0 && forall|i: int| 0 <= i < s.len() ==> is_digit(#[trigger] s[i])
}

/// Whether `s` is a non-empty run of ASCII digits.
pub fn is_ascii_digits(s: &str) -> (r: bool)
    ensures
        r == spec_is_ascii_digits(s@),
{
    let v = chars_of(s);
    if v.len() == 0 {
        return false;
    }
    let mut i: usize = 0;
    while i < v.len()
        invariant
            i <= v@.len(),
            v@ == s@,
            forall|j: int| 0 <= j < i ==> is_digit(#[trigger] v@[j]),
        decreases v.len() - i,
    {
        if !('0' <= v[i] && v[i] <= '9') {
            assert(!is_digit(v@[i as int]));
            return false;
        }
        i = i + 1;
    }
    true
}

/// The length of the leading run of non-whitespace characters.
pub open spec fn word_len(s: Seq<char>) -> nat
    decreases s.len(),
{
    if s.len() > 0 && !is_ws(s[0]) {
        1 + word_len(s.drop_first())
    } else {
        0
    }
}

pub proof fn lemma_word_len(s: Seq<char>)
    ensures
        word_len(s) <= s.len(),
        forall|i: int| 0 <= i < word_len(s) ==> !is_ws(#[trigger] s[i]),
        word_len(s) < s.len() ==> is_ws(s[word_len(s) as int]),
    decreases s.len(),
{
    if s.len() > 0 && !is_ws(s[0]) {
        lemma_word_len(s.drop_first());
        assert forall|i: int| 0 <= i < word_len(s) implies !is_ws(#[trigger] s[i]) by {
            if i > 0 {
                assert(s[i] == s.drop_first()[i - 1]);
            }
        }
    }
}

pub proof fn lemma_trim_start_len(s: Seq<char>)
    ensures
        trim_start_ws(s).len() <= s.len(),
        trim_start_ws(s).len() > 0 ==> !is_ws(trim_start_ws(s)[0]),
        trim_start_ws(s) == s.subrange(s.len() - trim_start_ws(s).len(), s.len() as int),
    decreases s.len(),
{
    if s.len() > 0 && is_ws(s[0]) {
        lemma_trim_start_len(s.drop_first());
        let t = trim_start_ws(s.drop_first());
        assert(s.drop_first().subrange(s.len() - 1 - t.len(), s.len() - 1) =~= s.subrange(
            s.len() - t.len(),
            s.len() as int,
        ));
    } else {
        assert(s.subrange(0, s.len() as int) =~= s);
    }
}

/// The whitespace-separated words of `s`, as `str::split_whitespace`.
pub open spec fn ws_tokens(s: Seq<char>) -> Seq<Seq<char>>
    decreases s.len(),
{
    let t = trim_start_ws(s);
    proof {
        lemma_trim_start_len(s);
    }
    if t.len() == 0 || t.len() > s.len() {
        Seq::empty()
    } else {
        let w = word_len(t);
        proof {
            lemma_word_len(t);
        }
        if w == 0 {
            Seq::empty()
        } else {
            seq![t.subrange(0, w as int)] + ws_tokens(t.subrange(w as int, t.len() as int))
        }
    }
}

/// The words of `s`.
pub fn split_whitespace(s: &Vec<char>) -> (r: Vec<String>)
    ensures
        views(r@) == ws_tokens(s@),
{
    let mut out: Vec<String> = Vec::new();
    let n = s.len();
    let mut pos: usize = 0;
    assert(s@.subrange(0, n as int) =~= s@);
    loop
        invariant
            n == s@.len(),
            pos <= n,
            ws_tokens(s@) == views(out@) + ws_tokens(s@.subrange(pos as int, n as int)),
        decreases n - pos,
    {
        let ghost rest = s@.subrange(pos as int, n as int);
        let mut i: usize = pos;
        while i < n && is_whitespace(s[i])
            invariant
                pos <= i <= n,
                n == s@.len(),
                trim_start_ws(rest) == trim_start_ws(s@.subrange(i as int, n as int)),
            decreases n - i,
        {
            proof {
                let w = s@.subrange(i as int, n as int);
                assert(w.drop_first() =~= s@.subrange(i + 1, n as int));
            }
            i = i + 1;
        }
        let ghost t = s@.subrange(i as int, n as int);
        proof {
            if t.len() > 0 {
                assert(t[0] == s@[i as int]);
            }
            assert(trim_start_ws(t) == t);
            lemma_trim_start_len(rest);
        }
        if i == n {
            proof {
                assert(t.len() == 0);
                assert(ws_tokens(rest) =~= Seq::<Seq<char>>::empty());
                assert(views(out@) + Seq::<Seq<char>>::empty() =~= views(out@));
            }
            return out;
        }
        let mut j: usize = i;
        while j < n && !is_whitespace(s[j])
            invariant
                i <= j <= n,
                n == s@.len(),
                forall|q: int| i <= q < j ==> !is_ws(#[trigger] s@[q]),
            decreases n - j,
        {
            j = j + 1;
        }
        proof {
            lemma_word_len(t);
            let w = word_len(t);
            assert forall|q: int| 0 <= q < j - i implies !is_ws(#[trigger] t[q]) by {
                assert(t[q] == s@[i + q]);
            }
            if w < j - i {
                assert(is_ws(t[w as int]));
                assert(!is_ws(t[w as int]));
            }
            if j < n && w > j - i {
                assert(t[j - i] == s@[j as int]);
                assert(!is_ws(t[j - i]));
            }
            assert(w == j - i);
            assert(t.subrange(0, w as int) =~= s@.subrange(i as int, j as int));
            assert(t.subrange(w as int, t.len() as int) =~= s@.subrange(j as int, n as int));
        }
        let word = string_of(&slice_vec(s, i, j));
        let ghost before = views(out@);
        out.push(word);
        proof {
            assert(views(out@) =~= before.push(s@.subrange(i as int, j as int)));
        }
        pos = j;
    }
}

/// The UTF-8 length of one character.
pub open spec fn utf8_width(c: char) -> int {
    if (c as u32) < 0x80 {
        1
    } else if (c as u32) < 0x800 {
        2
    } else if (c as u32) < 0x10000 {
        3
    } else {
        4
    }
}

/// The UTF-8 length of a text, as `str::len`.
pub open spec fn utf8_len(s: Seq<char>) -> int
    decreases s.len(),
{
    if s.len() == 0 {
        0
    } else {
        utf8_len(s.drop_last()) + utf8_width(s.last())
    }
}

pub(crate) fn utf8_len_of(s: &str) -> (r: u128)
    ensures
        r == utf8_len(s@),
{
    let v = chars_of(s);
    let mut n: u128 = 0;
    let mut i: usize = 0;
    while i < v.len()
        invariant
            i <= v@.len(),
            v@ == s@,
            n == utf8_len(v@.subrange(0, i as int)),
            n <= 4 * i,
            i <= usize::MAX,
        decreases v.len() - i,
    {
        let c = v[i];
        let w: u128 = if (c as u32) < 0x80 {
            1
        } else if (c as u32) < 0x800 {
            2
        } else if (c as u32) < 0x10000 {
            3
        } else {
            4
        };
        proof {
            assert(v@.subrange(0, i + 1).drop_last() =~= v@.subrange(0, i as int));
        }
        n = n + w;
        i = i + 1;
    }
    assert(v@.subrange(0, v@.len() as int) =~= v@);
    n
}

/// The word a name search probes with: the last of the longest words (by
/// UTF-8 length), as `max_by_key` picks it.
pub open spec fn is_probe(tokens: Seq<Seq<char>>, k: int) -> bool {
    &&& 0 <= k < tokens.len()
    &&& forall|j: int| 0 <= j < tokens.len() ==> utf8_len(#[trigger] tokens[j]) <= utf8_len(tokens[k])
    &&& forall|j: int| k < j < tokens.len() ==> utf8_len(#[trigger] tokens[j]) < utf8_len(tokens[k])
}

/// How a principal reference is to be resolved.
#[derive(Debug)]
pub enum PrincipalRef {
    /// The current user.
    Me,
    /// A numeric id, used as given.
    Id(String),
    /// A name search: the lowercased reference, its words, and the probe word
    /// sent to the server.
    Search { lower: String, tokens: Vec<String>, probe: String },
}

/// `p` searches for the lowercased reference `lower`: its words, and the
/// probe among them.
pub open spec fn is_search_for(p: PrincipalRef, lower_ref: Seq<char>) -> bool {
    match p {
        PrincipalRef::Search { lower, tokens, probe } => {
            &&& lower@ == lower_ref
            &&& views(tokens@) == ws_tokens(lower_ref)
            &&& exists|k: int| #[trigger] is_probe(views(tokens@), k) && probe@ == views(tokens@)[k]
        },
        _ => false,
    }
}

/// The message when a principal cannot be found.
pub open spec fn principal_not_found(dbg: Seq<char>) -> Seq<char> {
    "Principal "@ + dbg + " was not found. Pass a numeric user id or 'me'."@
}

/// Classify a principal reference (trimmed): `me` in any case is the current
/// user, a run of digits an id; otherwise its lowercase words are searched,
/// and a reference without words is not found.
pub fn classify_principal(ref_: &str) -> (r: Result<PrincipalRef, Error>)
    ensures
        unicode_lower(trim_ws(ref_@)) == "me"@ ==> r matches Ok(PrincipalRef::Me),
        unicode_lower(trim_ws(ref_@)) != "me"@ && spec_is_ascii_digits(trim_ws(ref_@)) ==> (
        r matches Ok(PrincipalRef::Id(id)) && id@ == trim_ws(ref_@)),
        unicode_lower(trim_ws(ref_@)) != "me"@ && !spec_is_ascii_digits(trim_ws(ref_@)) && ws_tokens(
            unicode_lower(trim_ws(ref_@)),
        ).len() == 0 ==> (r matches Err(Error::Api(m)) && m@ == principal_not_found("''"@)),
        unicode_lower(trim_ws(ref_@)) != "me"@ && !spec_is_ascii_digits(trim_ws(ref_@)) && ws_tokens(
            unicode_lower(trim_ws(ref_@)),
        ).len() > 0 ==> (r matches Ok(p) && is_search_for(p, unicode_lower(trim_ws(ref_@)))),
{
    let t = string_of(&trim(&chars_of(ref_)));
    let lower = to_lowercase(t.as_str());
    if str_eq(lower.as_str(), "me") {
        return Ok(PrincipalRef::Me);
    }
    if is_ascii_digits(t.as_str()) {
        return Ok(PrincipalRef::Id(t));
    }
    let tokens = split_whitespace(&chars_of(lower.as_str()));
    if tokens.len() == 0 {
        let a = concat_str("Principal ", "''");
        return Err(Error::Api(concat_str(a.as_str(), " was not found. Pass a numeric user id or 'me'.")));
    }
    let mut best: usize = 0;
    let mut best_len: u128 = utf8_len_of(tokens[0].as_str());
    let mut k: usize = 1;
    while k < tokens.len()
        invariant
            1 <= k <= tokens@.len(),
            best < k,
            best_len == utf8_len(views(tokens@)[best as int]),
            forall|j: int| 0 <= j < k ==> utf8_len(#[trigger] views(tokens@)[j]) <= best_len,
            forall|j: int| best < j < k ==> utf8_len(#[trigger] views(tokens@)[j]) < best_len,
        decreases tokens.len() - k,
    {
        let l = utf8_len_of(tokens[k].as_str());
        if l >= best_len {
            best = k;
            best_len = l;
        }
        k = k + 1;
    }
    let probe = tokens[best].clone();
    assert(is_probe(views(tokens@), best as int));
    assert(probe@ == views(tokens@)[best as int]);
    assert(exists|k: int| #[trigger] is_probe(views(tokens@), k) && probe@ == views(tokens@)[k]);
    assert(lower@ == unicode_lower(trim_ws(ref_@)));
    assert(views(tokens@) == ws_tokens(unicode_lower(trim_ws(ref_@))));
    let p = PrincipalRef::Search { lower, tokens, probe };
    assert(is_search_for(p, unicode_lower(trim_ws(ref_@))));
    Ok(p)
}

/// The current user's id, from the `id` of `users/me`.
pub fn me_id(id: Option<String>) -> (r: Result<String, Error>)
    ensures
        id is Some ==> (r matches Ok(x) && Some(x@) == crate::config::opt_view(id)),
        id is None ==> (r matches Err(Error::Api(m)) && m@ == principal_not_found("'me'"@)),
{
    match id {
        Some(i) => Ok(i),
        None => {
            let a = concat_str("Principal ", "'me'");
            Err(Error::Api(concat_str(a.as_str(), " was not found. Pass a numeric user id or 'me'.")))
        },
    }
}

/// The `id` and `name` of one element of a lookup.
#[derive(Debug, Clone)]
pub struct NamedElement {
    pub id: Option<String>,
    pub name: Option<String>,
}

/// The `id` of a lookup element as text: a number's JSON text or a string's
/// contents; `None` for any other value or a missing id.
pub fn element_id(v: &serde_json::Value) -> (r: Option<String>)
    ensures
        crate::json::opt_seq_of(r) == crate::json::json_at_id_text(*v, "/id"@),
{
    crate::json::json_id_text(v, "/id")
}

/// A lookup element: its `id` read by [`element_id`] and its string `name`.
pub fn named_element(v: &serde_json::Value) -> (e: NamedElement)
    ensures
        crate::json::opt_seq_of(e.id) == crate::json::json_at_id_text(*v, "/id"@),
        crate::json::opt_seq_of(e.name) == crate::json::json_at_str(*v, "/name"@),
{
    NamedElement { id: element_id(v), name: crate::json::json_str(v, "/name") }
}

/// The element's name, lowercased, when it has one.
pub open spec fn lower_name(e: NamedElement) -> Option<Seq<char>> {
    match e.name {
        Some(n) => Some(unicode_lower(n@)),
        None => None,
    }
}

/// The element's lowercase name is exactly `lower`.
pub open spec fn is_exact(e: NamedElement, lower: Seq<char>) -> bool {
    lower_name(e) == Some(lower)
}

/// The element's lowercase name contains every word.
pub open spec fn has_all_tokens(e: NamedElement, tokens: Seq<Seq<char>>) -> bool {
    match lower_name(e) {
        Some(n) => forall|i: int| 0 <= i < tokens.len() ==> seq_contains(n, #[trigger] tokens[i]),
        None => false,
    }
}

/// The candidates of a name search: the exact matches when there are any,
/// else the elements whose names hold every word.
pub open spec fn principal_candidates(
    es: Seq<NamedElement>,
    lower: Seq<char>,
    tokens: Seq<Seq<char>>,
) -> Seq<NamedElement> {
    let exact = es.filter(|e: NamedElement| is_exact(e, lower));
    if exact.len() > 0 {
        exact
    } else {
        es.filter(|e: NamedElement| has_all_tokens(e, tokens))
    }
}

/// One line of the ambiguity report: `<id>: <name>`.
pub open spec fn candidate_line(e: NamedElement) -> Seq<char> {
    (match e.id {
        Some(i) => i@,
        None => Seq::empty(),
    }) + ": "@ + (match e.name {
        Some(n) => n@,
        None => Seq::empty(),
    })
}

/// The answer to a name search over the candidates.
pub open spec fn spec_pick_principal(cands: Seq<NamedElement>, dbg: Seq<char>) -> Result<
    Seq<char>,
    Seq<char>,
> {
    if cands.len() == 1 {
        match cands[0].id {
            Some(i) => Ok(i@),
            None => Err("Principal "@ + dbg + " has no id"@),
        }
    } else if cands.len() == 0 {
        Err(principal_not_found(dbg))
    } else {
        Err(
            "Principal "@ + dbg + " is ambiguous ("@ + dec_nat(cands.len()) + " matches): "@
                + join_with(cands.map_values(|e: NamedElement| candidate_line(e)), "; "@)
                + ". Pass a numeric user id."@,
        )
    }
}

fn lower_name_of(e: &NamedElement) -> (r: Option<String>)
    ensures
        crate::config::opt_view(r) == lower_name(*e),
{
    match &e.name {
        Some(n) => Some(to_lowercase(n.as_str())),
        None => None,
    }
}

fn all_tokens_in(name: &String, tokens: &Vec<String>) -> (r: bool)
    ensures
        r == forall|i: int| 0 <= i < tokens@.len() ==> seq_contains(name@, #[trigger] views(tokens@)[i]),
{
    let nc = chars_of(name.as_str());
    let mut i: usize = 0;
    while i < tokens.len()
        invariant
            i <= tokens@.len(),
            nc@ == name@,
            forall|j: int| 0 <= j < i ==> seq_contains(name@, #[trigger] views(tokens@)[j]),
        decreases tokens.len() - i,
    {
        if !contains(&nc, &chars_of(tokens[i].as_str())) {
            assert(!seq_contains(name@, views(tokens@)[i as int]));
            return false;
        }
        i = i + 1;
    }
    true
}

fn line_of(e: &NamedElement) -> (r: String)
    ensures
        r@ == candidate_line(*e),
{
    let mut v: Vec<char> = match &e.id {
        Some(i) => chars_of(i.as_str()),
        None => Vec::new(),
    };
    push_all(&mut v, &chars_of(": "));
    match &e.name {
        Some(n) => push_all(&mut v, &chars_of(n.as_str())),
        None => {},
    }
    string_of(&v)
}

/// Choose the principal a name search means: the single candidate's id; no
/// candidate is "not found", several are "ambiguous" with each `id: name`.
pub fn pick_principal(
    elements: &Vec<NamedElement>,
    ref_: &str,
    lower: &str,
    tokens: &Vec<String>,
) -> (r: Result<String, Error>)
    ensures
        match spec_pick_principal(principal_candidates(elements@, lower@, views(tokens@)), str_debug(ref_@)) {
            Ok(id) => r matches Ok(x) && x@ == id,
            Err(m) => r matches Err(Error::Api(e)) && e@ == m,
        },
{
    let ghost es = elements@;
    let mut exact: Vec<NamedElement> = Vec::new();
    let mut by_tokens: Vec<NamedElement> = Vec::new();
    let mut i: usize = 0;
    while i < elements.len()
        invariant
            i <= elements@.len(),
            es == elements@,
            exact@ == es.subrange(0, i as int).filter(|e: NamedElement| is_exact(e, lower@)),
            by_tokens@ == es.subrange(0, i as int).filter(
                |e: NamedElement| has_all_tokens(e, views(tokens@)),
            ),
        decreases elements.len() - i,
    {
        let e = &elements[i];
        let ln = lower_name_of(e);
        let (ex, tk) = match &ln {
            Some(n) => (str_eq(n.as_str(), lower), all_tokens_in(n, tokens)),
            None => (false, false),
        };
        proof {
            assert(es.subrange(0, i + 1).drop_last() =~= es.subrange(0, i as int));
            reveal(Seq::filter);
        }
        if ex {
            exact.push(e.clone_element());
        }
        if tk {
            by_tokens.push(e.clone_element());
        }
        i = i + 1;
    }
    assert(es.subrange(0, es.len() as int) =~= es);
    let cands = if exact.len() > 0 {
        exact
    } else {
        by_tokens
    };
    let dbg = debug_text(ref_);
    if cands.len() == 1 {
        match &cands[0].id {
            Some(id) => Ok(id.clone()),
            None => {
                let a = concat_str("Principal ", dbg.as_str());
                Err(Error::Api(concat_str(a.as_str(), " has no id")))
            },
        }
    } else if cands.len() == 0 {
        let a = concat_str("Principal ", dbg.as_str());
        Err(Error::Api(concat_str(a.as_str(), " was not found. Pass a numeric user id or 'me'.")))
    } else {
        let mut lines: Vec<String> = Vec::new();
        let mut k: usize = 0;
        while k < cands.len()
            invariant
                k <= cands@.len(),
                lines@.len() == k,
                forall|j: int| 0 <= j < k ==> (#[trigger] lines@[j])@ == candidate_line(cands@[j]),
            decreases cands.len() - k,
        {
            lines.push(line_of(&cands[k]));
            k = k + 1;
        }
        assert(views(lines@) =~= cands@.map_values(|e: NamedElement| candidate_line(e)));
        let mut v = chars_of("Principal ");
        push_all(&mut v, &chars_of(dbg.as_str()));
        push_all(&mut v, &chars_of(" is ambiguous ("));
        push_all(&mut v, &fmt_u64(cands.len() as u64));
        push_all(&mut v, &chars_of(" matches): "));
        push_all(&mut v, &chars_of(join(&lines, "; ").as_str()));
        push_all(&mut v, &chars_of(". Pass a numeric user id."));
        Err(Error::Api(string_of(&v)))
    }
}

impl NamedElement {
    /// A copy of the element.
    pub fn clone_element(&self) -> (r: NamedElement)
        ensures
            r == *self,
    {
        NamedElement {
            id: match &self.id {
                Some(i) => Some(i.clone()),
                None => None,
            },
            name: match &self.name {
                Some(n) => Some(n.clone()),
                None => None,
            },
        }
    }
}

/// Texts in non-decreasing code-point order.
pub open spec fn texts_sorted(s: Seq<Seq<char>>) -> bool {
    forall|i: int, j: int| 0 <= i < j < s.len() ==> !seq_lt(#[trigger] s[j], #[trigger] s[i])
}

/// Sort texts ascending (code-point order), keeping duplicates.
pub fn sort_texts(v: Vec<String>) -> (r: Vec<String>)
    ensures
        texts_sorted(views(r@)),
        views(r@).to_multiset() == views(v@).to_multiset(),
{
    broadcast use vstd::seq_lib::group_to_multiset_ensures;
    let ghost all = views(v@);
    let mut rest = v;
    let mut out: Vec<String> = Vec::new();
    let mut i: usize = 0;
    assert(all.len() == rest.len());
    while rest.len() > 0
        invariant
            i + rest@.len() == all.len(),
            all.len() <= usize::MAX,
            views(rest@) == all.subrange(i as int, all.len() as int),
            texts_sorted(views(out@)),
            views(out@).to_multiset() == all.subrange(0, i as int).to_multiset(),
        decreases rest.len(),
    {
        let ghost old_rest = rest@;
        let x = rest.remove(0);
        proof {
            assert(views(old_rest)[0] == old_rest[0]@);
            assert(all.subrange(i as int, all.len() as int)[0] == all[i as int]);
            assert(x@ == all[i as int]);
            assert(rest@ =~= old_rest.subrange(1, old_rest.len() as int));
            assert forall|k: int| 0 <= k < views(rest@).len() implies views(rest@)[k] == all.subrange(
                i + 1,
                all.len() as int,
            )[k] by {
                assert(views(rest@)[k] == rest@[k]@);
                assert(rest@[k] == old_rest[k + 1]);
                assert(views(old_rest)[k + 1] == old_rest[k + 1]@);
                assert(all.subrange(i as int, all.len() as int)[k + 1] == all[i + 1 + k]);
            }
            assert(views(rest@) =~= all.subrange(i + 1, all.len() as int));
        }
        let mut p: usize = 0;
        while p < out.len() && compare_str(out[p].as_str(), x.as_str()) != KeyOrder::Greater
            invariant
                p <= out@.len(),
                forall|q: int| 0 <= q < p ==> !seq_lt(x@, #[trigger] views(out@)[q]),
            decreases out.len() - p,
        {
            p = p + 1;
        }
        let ghost old_v = views(out@);
        out.insert(p, x);
        proof {
            assert(views(out@) =~= old_v.insert(p as int, x@));
            vstd::seq_lib::to_multiset_insert(old_v, p as int, x@);
            let nxt = all.subrange(0, i + 1);
            assert(nxt =~= all.subrange(0, i as int).push(x@));
            vstd::seq_lib::to_multiset_build(all.subrange(0, i as int), x@);
            let nv = views(out@);
            assert forall|a: int, b: int| 0 <= a < b < nv.len() implies !seq_lt(#[trigger] nv[b], #[trigger] nv[a]) by {
                if a < p && b < p {
                    assert(nv[a] == old_v[a] && nv[b] == old_v[b]);
                } else if a < p && b == p {
                    assert(nv[a] == old_v[a]);
                } else if a < p {
                    assert(nv[a] == old_v[a] && nv[b] == old_v[b - 1]);
                } else if a == p {
                    assert(nv[b] == old_v[b - 1]);
                    crate::strmap::lemma_lt_total(x@, old_v[p as int]);
                    if b - 1 > p {
                        crate::strmap::lemma_lt_total(old_v[p as int], old_v[b - 1]);
                        if seq_lt(old_v[b - 1], x@) {
                            if seq_lt(x@, old_v[p as int]) {
                                crate::strmap::lemma_lt_trans(old_v[b - 1], x@, old_v[p as int]);
                            }
                        }
                    } else {
                        if seq_lt(old_v[p as int], x@) {
                            if seq_lt(x@, old_v[p as int]) {
                                crate::strmap::lemma_lt_asym(x@, old_v[p as int]);
                            }
                        }
                    }
                } else {
                    assert(nv[a] == old_v[a - 1] && nv[b] == old_v[b - 1]);
                }
            }
        }
        i = i + 1;
    }
    assert(all.subrange(0, i as int) =~= all);
    out
}

/// The present names of a list of elements, in order.
pub open spec fn present_names(es: Seq<NamedElement>) -> Seq<Seq<char>>
    decreases es.len(),
{
    if es.len() == 0 {
        Seq::empty()
    } else {
        present_names(es.drop_last()) + match es.last().name {
            Some(n) => seq![n@],
            None => Seq::empty(),
        }
    }
}

/// The answer to an enumeration lookup by name.
pub open spec fn spec_pick_by_name(
    es: Seq<NamedElement>,
    lower: Seq<char>,
    kind: Seq<char>,
    dbg: Seq<char>,
    sorted_names: Seq<Seq<char>>,
) -> Result<Seq<char>, Seq<char>> {
    let matches = es.filter(|e: NamedElement| is_exact(e, lower));
    if matches.len() == 0 {
        Err(kind + " "@ + dbg + " was not found. Available: "@ + join_with(sorted_names, ", "@))
    } else if matches.len() == 1 {
        match matches[0].id {
            Some(i) => Ok(i@),
            None => Err(kind + " "@ + dbg + " has no id"@),
        }
    } else {
        Err(kind + " "@ + dbg + " is ambiguous. Pass a numeric id."@)
    }
}

/// Choose the enumeration entry a (trimmed) name means, case ignored: the
/// single match's id; no match lists the available names in sorted order;
/// several matches are ambiguous.
pub fn pick_by_name(elements: &Vec<NamedElement>, ref_: &str, kind: &str) -> (r: Result<String, Error>)
    ensures
        exists|sorted: Seq<Seq<char>>|
            texts_sorted(sorted) && sorted.to_multiset() == present_names(elements@).to_multiset()
                && match spec_pick_by_name(elements@, unicode_lower(ref_@), kind@, str_debug(ref_@), sorted) {
                Ok(id) => r matches Ok(x) && x@ == id,
                Err(m) => r matches Err(Error::Api(e)) && e@ == m,
            },
{
    let lower = to_lowercase(ref_);
    let ghost es = elements@;
    let mut matches: Vec<NamedElement> = Vec::new();
    let mut names: Vec<String> = Vec::new();
    let mut i: usize = 0;
    while i < elements.len()
        invariant
            i <= elements@.len(),
            es == elements@,
            matches@ == es.subrange(0, i as int).filter(|e: NamedElement| is_exact(e, lower@)),
            views(names@) == present_names(es.subrange(0, i as int)),
        decreases elements.len() - i,
    {
        let e = &elements[i];
        let ln = lower_name_of(e);
        let ex = match &ln {
            Some(n) => str_eq(n.as_str(), lower.as_str()),
            None => false,
        };
        proof {
            assert(es.subrange(0, i + 1).drop_last() =~= es.subrange(0, i as int));
            reveal(Seq::filter);
        }
        if ex {
            matches.push(e.clone_element());
        }
        let ghost before = views(names@);
        match &e.name {
            Some(n) => {
                names.push(n.clone());
                proof {
                    assert(views(names@) =~= before + seq![n@]);
                }
            },
            None => {
                proof {
                    assert(views(names@) =~= before + Seq::<Seq<char>>::empty());
                }
            },
        }
        i = i + 1;
    }
    assert(es.subrange(0, es.len() as int) =~= es);
    let dbg = debug_text(ref_);
    let sorted = sort_texts(names);
    let ghost sv = views(sorted@);
    if matches.len() == 0 {
        let mut v = chars_of(kind);
        v.push(' ');
        push_all(&mut v, &chars_of(dbg.as_str()));
        push_all(&mut v, &chars_of(" was not found. Available: "));
        push_all(&mut v, &chars_of(join(&sorted, ", ").as_str()));
        proof {
            reveal_strlit(" ");
        }
        Err(Error::Api(string_of(&v)))
    } else if matches.len() == 1 {
        match &matches[0].id {
            Some(id) => Ok(id.clone()),
            None => {
                let mut v = chars_of(kind);
                v.push(' ');
                push_all(&mut v, &chars_of(dbg.as_str()));
                push_all(&mut v, &chars_of(" has no id"));
                proof {
                    reveal_strlit(" ");
                }
                Err(Error::Api(string_of(&v)))
            },
        }
    } else {
        let mut v = chars_of(kind);
        v.push(' ');
        push_all(&mut v, &chars_of(dbg.as_str()));
        push_all(&mut v, &chars_of(" is ambiguous. Pass a numeric id."));
        proof {
            reveal_strlit(" ");
        }
        Err(Error::Api(string_of(&v)))
    }
}

/// An enumeration reference that needs no lookup: a run of digits (trimmed)
/// is the id itself; otherwise a fresh cached id for the name, if any.
pub fn resolve_known(cache: &Cache, kind: &str, ref_: &str, now: u64) -> (r: Option<String>)
    ensures
        spec_is_ascii_digits(trim_ws(ref_@)) ==> (r matches Some(x) && x@ == trim_ws(ref_@)),
        !spec_is_ascii_digits(trim_ws(ref_@)) ==> crate::cache::opt_text(r) == spec_get_resolve(
            *cache,
            kind@,
            trim_ws(ref_@),
            now,
        ),
{
    let t = string_of(&trim(&chars_of(ref_)));
    if is_ascii_digits(t.as_str()) {
        return Some(t);
    }
    cache.get_resolve(kind, t.as_str(), now)
}

/// The request path of a project lookup: `projects/<ref>` with the reference
/// trimmed (the endpoint takes an id or an identifier).
pub fn project_path(ref_: &str) -> (r: String)
    ensures
        r@ == "projects/"@ + trim_ws(ref_@),
{
    let t = string_of(&trim(&chars_of(ref_)));
    concat_str("projects/", t.as_str())
}

/// The message when a project lookup finds no id.
pub open spec fn project_not_found(dbg: Seq<char>) -> Seq<char> {
    "Project "@ + dbg + " was not found."@
}

/// The project id a lookup answered (the payload's `id` as text), or "not
/// found" naming the trimmed reference.
pub fn project_id_from(ref_: &str, id: Option<String>) -> (r: Result<String, Error>)
    ensures
        match id {
            Some(i) => r matches Ok(x) && x@ == i@,
            None => r matches Err(Error::Api(m)) && m@ == project_not_found(str_debug(trim_ws(ref_@))),
        },
{
    match id {
        Some(i) => Ok(i),
        None => {
            let t = string_of(&trim(&chars_of(ref_)));
            let d = debug_text(t.as_str());
            let a = concat_str("Project ", d.as_str());
            Err(Error::Api(concat_str(a.as_str(), " was not found.")))
        },
    }
}

} // verus!
