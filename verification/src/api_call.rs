//! The raw API passthrough (`api` command): how string fields, typed fields
//! and an input document become the query or body of the request. The
//! request itself is sent by the caller.

use vstd::prelude::*;
use crate::error::Error;
use crate::strmap::str_eq;

verus! {

/// The text `str::to_uppercase` (Unicode uppercase mapping) gives.
pub uninterp spec fn unicode_upper(s: Seq<char>) -> Seq<char>;

/// `str::to_uppercase`. The result is named by [`unicode_upper`].
#[verifier::external_body]
fn to_uppercase(s: &str) -> (r: String)
    ensures
        r@ == unicode_upper(s@),
{
    s.to_uppercase()
}

/// Whether a text is a JSON document `serde_json::from_str` accepts.
pub uninterp spec fn json_parses(s: Seq<char>) -> bool;

/// The value `serde_json::from_str` parses a JSON text into.
pub uninterp spec fn json_value_of(s: Seq<char>) -> serde_json::Value;

/// `serde_json::from_str` into a `Value`; `None` on a parse error. Whether it
/// parses is named by [`json_parses`], the value it gives by [`json_value_of`].
#[verifier::external_body]
pub(crate) fn json_from_str(s: &str) -> (r: Option<serde_json::Value>)
    ensures
        r is Some == json_parses(s@),
        r matches Some(v) ==> v == json_value_of(s@),
{
    serde_json::from_str::<serde_json::Value>(s).ok()
}

/// The query text of a JSON value: a string's contents, any other value's
/// JSON text (`Display` for `serde_json::Value`).
pub uninterp spec fn json_query_of(v: serde_json::Value) -> Seq<char>;

/// A value as query text, named by [`json_query_of`].
#[verifier::external_body]
fn json_query_text(v: &serde_json::Value) -> (r: String)
    ensures
        r@ == json_query_of(*v),
{
    match v {
        serde_json::Value::String(s) => s.clone(),
        other => other.to_string(),
    }
}

/// A request field: a string field's text, or a typed field's parsed JSON.
#[derive(Debug)]
pub enum FieldValue {
    Text(String),
    Json(serde_json::Value),
}

/// Where a merged field's value comes from: a string field's text, or a
/// typed field's raw text (parsed as JSON when it parses, else kept as text).
pub enum FieldSource {
    Text(Seq<char>),
    Raw(Seq<char>),
}

/// `v` is the value a field from `src` holds.
pub open spec fn holds(v: FieldValue, src: FieldSource) -> bool {
    match src {
        FieldSource::Text(t) => v matches FieldValue::Text(s) && s@ == t,
        FieldSource::Raw(t) => if json_parses(t) {
            v matches FieldValue::Json(x) && x == json_value_of(t)
        } else {
            v matches FieldValue::Text(s) && s@ == t
        },
    }
}

/// The position of `k` among the keys of `m`, if present.
pub open spec fn key_pos(m: Seq<(Seq<char>, FieldSource)>, k: Seq<char>) -> Option<int>
    decreases m.len(),
{
    if m.len() == 0 {
        None
    } else if m.last().0 == k {
        Some(m.len() - 1)
    } else {
        key_pos(m.drop_last(), k)
    }
}

/// Insert into an ordered map: an existing key keeps its place and takes the
/// new value; a new key goes last.
pub open spec fn put(m: Seq<(Seq<char>, FieldSource)>, k: Seq<char>, v: FieldSource) -> Seq<(Seq<char>, FieldSource)> {
    match key_pos(m, k) {
        Some(i) => m.update(i, (k, v)),
        None => m.push((k, v)),
    }
}

/// The merged fields after inserting, in order, the string fields and then
/// the typed fields (a typed field overwrites a same-named one).
pub open spec fn merge_fields(
    fields: Seq<(Seq<char>, Seq<char>)>,
    raw: Seq<(Seq<char>, Seq<char>)>,
) -> Seq<(Seq<char>, FieldSource)>
    decreases raw.len(),
{
    if raw.len() == 0 {
        merge_text(fields)
    } else {
        put(merge_fields(fields, raw.drop_last()), raw.last().0, FieldSource::Raw(raw.last().1))
    }
}

/// The string fields alone, merged.
pub open spec fn merge_text(fields: Seq<(Seq<char>, Seq<char>)>) -> Seq<(Seq<char>, FieldSource)>
    decreases fields.len(),
{
    if fields.len() == 0 {
        Seq::empty()
    } else {
        put(merge_text(fields.drop_last()), fields.last().0, FieldSource::Text(fields.last().1))
    }
}

/// `m` holds the merged fields `want`.
pub open spec fn holds_all(m: Seq<(String, FieldValue)>, want: Seq<(Seq<char>, FieldSource)>) -> bool {
    m.len() == want.len() && forall|i: int| 0 <= i < m.len() ==> (#[trigger] m[i]).0@ == want[i].0 && holds(
        m[i].1,
        want[i].1,
    )
}

proof fn lemma_key_pos(m: Seq<(Seq<char>, FieldSource)>, k: Seq<char>)
    ensures
        match key_pos(m, k) {
            Some(i) => 0 <= i < m.len() && m[i].0 == k,
            None => forall|j: int| 0 <= j < m.len() ==> (#[trigger] m[j]).0 != k,
        },
    decreases m.len(),
{
    if m.len() > 0 {
        lemma_key_pos(m.drop_last(), k);
        if m.last().0 != k {
            assert forall|j: int| 0 <= j < m.len() - 1 implies m[j] == m.drop_last()[j] by {}
        }
    }
}

fn find_key(m: &Vec<(String, FieldValue)>, k: &str, Ghost(want): Ghost<Seq<(Seq<char>, FieldSource)>>) -> (r: Option<usize>)
    requires
        holds_all(m@, want),
    ensures
        match r {
            Some(i) => key_pos(want, k@) == Some(i as int) && i < m@.len(),
            None => key_pos(want, k@) is None,
        },
{
    let mut i: usize = m.len();
    proof {
        assert(want.take(want.len() as int) =~= want);
    }
    while i > 0
        invariant
            i <= m@.len(),
            holds_all(m@, want),
            key_pos(want, k@) == key_pos(want.take(i as int), k@),
        decreases i,
    {
        proof {
            assert(want.take(i as int).drop_last() =~= want.take(i - 1));
        }
        if str_eq(m[i - 1].0.as_str(), k) {
            return Some(i - 1);
        }
        i = i - 1;
    }
    None
}

fn put_field(m: &mut Vec<(String, FieldValue)>, k: String, v: FieldValue, Ghost(want): Ghost<Seq<(Seq<char>, FieldSource)>>, Ghost(src): Ghost<FieldSource>)
    requires
        holds_all(old(m)@, want),
        holds(v, src),
    ensures
        holds_all(final(m)@, put(want, k@, src)),
{
    let ghost kv = k@;
    proof {
        lemma_key_pos(want, kv);
    }
    match find_key(m, k.as_str(), Ghost(want)) {
        Some(i) => {
            m.set(i, (k, v));
            proof {
                assert forall|j: int| 0 <= j < m@.len() implies (#[trigger] m@[j]).0@ == put(want, kv, src)[j].0
                    && holds(m@[j].1, put(want, kv, src)[j].1) by {
                    if j != i {
                        assert(m@[j] == old(m)@[j]);
                    }
                }
            }
        },
        None => {
            m.push((k, v));
            proof {
                assert forall|j: int| 0 <= j < m@.len() implies (#[trigger] m@[j]).0@ == put(want, kv, src)[j].0
                    && holds(m@[j].1, put(want, kv, src)[j].1) by {
                    if j < old(m)@.len() {
                        assert(m@[j] == old(m)@[j]);
                    }
                }
            }
        },
    }
}

/// The merged fields of a raw call, in first-insertion order.
pub fn merge_request_fields(fields: &Vec<(String, String)>, raw_fields: &Vec<(String, String)>) -> (r: Vec<(String, FieldValue)>)
    ensures
        holds_all(r@, merge_fields(crate::cli::fields_view(fields@), crate::cli::fields_view(raw_fields@))),
{
    let ghost fv = crate::cli::fields_view(fields@);
    let ghost rv = crate::cli::fields_view(raw_fields@);
    let mut m: Vec<(String, FieldValue)> = Vec::new();
    let mut i: usize = 0;
    while i < fields.len()
        invariant
            i <= fields@.len(),
            fv == crate::cli::fields_view(fields@),
            holds_all(m@, merge_text(fv.take(i as int))),
        decreases fields.len() - i,
    {
        let (k, v) = &fields[i];
        proof {
            assert(fv.take(i + 1).drop_last() =~= fv.take(i as int));
            assert(fv.take(i + 1).last() == (k@, v@));
        }
        put_field(&mut m, k.clone(), FieldValue::Text(v.clone()), Ghost(merge_text(fv.take(i as int))), Ghost(FieldSource::Text(v@)));
        i = i + 1;
    }
    proof {
        assert(fv.take(fv.len() as int) =~= fv);
        assert(merge_fields(fv, rv.take(0)) == merge_text(fv));
    }
    let mut j: usize = 0;
    while j < raw_fields.len()
        invariant
            j <= raw_fields@.len(),
            fv == crate::cli::fields_view(fields@),
            rv == crate::cli::fields_view(raw_fields@),
            holds_all(m@, merge_fields(fv, rv.take(j as int))),
        decreases raw_fields.len() - j,
    {
        let (k, v) = &raw_fields[j];
        proof {
            assert(rv.take(j + 1).drop_last() =~= rv.take(j as int));
            assert(rv.take(j + 1).last() == (k@, v@));
        }
        let val = match json_from_str(v.as_str()) {
            Some(x) => FieldValue::Json(x),
            None => FieldValue::Text(v.clone()),
        };
        put_field(&mut m, k.clone(), val, Ghost(merge_fields(fv, rv.take(j as int))), Ghost(FieldSource::Raw(v@)));
        j = j + 1;
    }
    proof {
        assert(rv.take(rv.len() as int) =~= rv);
    }
    m
}

/// `item` is the query pair of the merged field `(k, src)`: its key, and the
/// field's text (a typed field that parsed goes as its value's query text).
pub open spec fn is_query_item(item: (String, String), k: Seq<char>, src: FieldSource) -> bool {
    item.0@ == k && match src {
        FieldSource::Text(t) => item.1@ == t,
        FieldSource::Raw(t) => item.1@ == if json_parses(t) {
            json_query_of(json_value_of(t))
        } else {
            t
        },
    }
}

/// Methods whose fields go into the query: `GET`, `HEAD`, `DELETE`.
pub open spec fn is_bodiless(upper: Seq<char>) -> bool {
    upper == "GET"@ || upper == "HEAD"@ || upper == "DELETE"@
}

/// The body of a raw call.
#[derive(Debug)]
pub enum ApiBody {
    /// No body.
    Empty,
    /// The `--input` document.
    Input(serde_json::Value),
    /// The merged fields, as one JSON object in their order.
    Fields(Vec<(String, FieldValue)>),
}

/// A raw call ready to send: the uppercased method, the query and the body.
#[derive(Debug)]
pub struct ApiRequest {
    pub method: String,
    pub query: Vec<(String, String)>,
    pub body: ApiBody,
}

/// Build a raw call. An `--input` document is the body (the fields are then
/// ignored) and must be JSON. Otherwise the merged fields go into the query for
/// `GET`/`HEAD`/`DELETE` (in their order, a typed value as its text) and into
/// the body for any other method; no fields means neither.
pub fn build_request(
    method: &str,
    fields: &Vec<(String, String)>,
    raw_fields: &Vec<(String, String)>,
    input: Option<&str>,
) -> (r: Result<ApiRequest, Error>)
    ensures
        ({
            let merged = merge_fields(crate::cli::fields_view(fields@), crate::cli::fields_view(raw_fields@));
            match input {
                Some(t) => if json_parses(t@) {
                    r matches Ok(q) && q.method@ == unicode_upper(method@) && q.query@.len() == 0
                        && q.body == ApiBody::Input(json_value_of(t@))
                } else {
                    r matches Err(Error::Usage(m)) && m@ == "--input is not valid JSON"@
                },
                None => r matches Ok(q) && q.method@ == unicode_upper(method@) && if merged.len() == 0 {
                    q.query@.len() == 0 && q.body is Empty
                } else if is_bodiless(unicode_upper(method@)) {
                    &&& q.body is Empty
                    &&& q.query@.len() == merged.len()
                    &&& forall|i: int|
                        0 <= i < merged.len() ==> is_query_item(#[trigger] q.query@[i], merged[i].0, merged[i].1)
                } else {
                    q.query@.len() == 0 && (q.body matches ApiBody::Fields(m) && holds_all(m@, merged))
                },
            }
        }),
{
    let upper = to_uppercase(method);
    let bodiless = str_eq(upper.as_str(), "GET") || str_eq(upper.as_str(), "HEAD") || str_eq(
        upper.as_str(),
        "DELETE",
    );
    if let Some(text) = input {
        return match json_from_str(text) {
            Some(v) => Ok(ApiRequest { method: upper, query: Vec::new(), body: ApiBody::Input(v) }),
            None => Err(Error::Usage("--input is not valid JSON".to_string())),
        };
    }
    let m = merge_request_fields(fields, raw_fields);
    if m.len() == 0 {
        return Ok(ApiRequest { method: upper, query: Vec::new(), body: ApiBody::Empty });
    }
    if bodiless {
        let ghost want = merge_fields(crate::cli::fields_view(fields@), crate::cli::fields_view(raw_fields@));
        let mut query: Vec<(String, String)> = Vec::new();
        let mut i: usize = 0;
        while i < m.len()
            invariant
                i <= m@.len(),
                holds_all(m@, want),
                query@.len() == i,
                forall|k: int| 0 <= k < i ==> is_query_item(#[trigger] query@[k], want[k].0, want[k].1),
            decreases m.len() - i,
        {
            let (k, v) = &m[i];
            let s = match v {
                FieldValue::Text(t) => t.clone(),
                FieldValue::Json(x) => json_query_text(x),
            };
            query.push((k.clone(), s));
            i = i + 1;
        }
        return Ok(ApiRequest { method: upper, query, body: ApiBody::Empty });
    }
    Ok(ApiRequest { method: upper, query: Vec::new(), body: ApiBody::Fields(m) })
}

} // verus!
