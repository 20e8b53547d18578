//! Flattening OpenProject HAL payloads: each listed field of a resource read
//! from the payload's members and `_links`, and the custom fields of a work
//! package with the names its schema gives them. What a lookup finds in a
//! payload is named in [`crate::json`]; the flattened values are stated over
//! those names.

use vstd::prelude::*;
use crate::client::{is_custom_field_key, spec_is_custom_field_key};
use crate::github::views;
use crate::json::{
    json_array, json_at_array, json_at_bool, json_at_str, json_bool, json_clone, json_get, json_get_of,
    json_is_null, json_null_of, json_str,
};
use crate::normalize::{column_view, columns, columns_view, link_id, link_pointer_spec, spec_columns, spec_href_id, Resource, Source};
use crate::output::{entries_view, json_entries, json_members};
use crate::strmap::StrMap;

verus! {

/// One flattened field's value.
#[derive(Debug)]
pub enum Cell {
    /// `null`.
    Null,
    /// A JSON value as the payload holds it.
    Json(serde_json::Value),
    /// A numeric id.
    Id(i64),
    /// An ISO 8601 duration text, for the caller to read as hours.
    Duration(String),
    /// A flag.
    Flag(bool),
    /// A list of JSON values.
    List(Vec<serde_json::Value>),
}

/// A formattable value's `raw` text, the value itself when it has none.
pub open spec fn text_of(v: serde_json::Value) -> serde_json::Value {
    match json_get_of(v, "raw"@) {
        Some(r) => r,
        None => v,
    }
}

/// The `raw` texts of the items that are objects, in order.
pub open spec fn details_of(items: Seq<serde_json::Value>) -> Seq<serde_json::Value>
    decreases items.len(),
{
    if items.len() == 0 {
        Seq::empty()
    } else {
        let prev = details_of(items.drop_last());
        if json_members(items.last()) is Some {
            prev.push(text_of(items.last()))
        } else {
            prev
        }
    }
}

/// The member `field` of the link `name` of a payload.
pub open spec fn link_member(p: serde_json::Value, name: Seq<char>, field: Seq<char>) -> Option<serde_json::Value> {
    match json_get_of(p, "_links"@) {
        Some(l) => match json_get_of(l, name) {
            Some(k) => json_get_of(k, field),
            None => None,
        },
        None => None,
    }
}

/// The numeric id at the tail of the `href` of the link `name`.
pub open spec fn spec_link_id(p: serde_json::Value, name: Seq<char>) -> Option<i64> {
    match json_at_str(p, link_pointer_spec(name, "href"@)) {
        Some(h) => spec_href_id(h),
        None => None,
    }
}

/// `c` is the value found, `null` when nothing was.
pub open spec fn is_found_cell(c: Cell, found: Option<serde_json::Value>) -> bool {
    match found {
        Some(v) => c == Cell::Json(v),
        None => c is Null,
    }
}

/// `c` is the field read from `from` of payload `p` the way `s` says.
pub open spec fn is_cell(c: Cell, p: serde_json::Value, s: Source, from: Seq<char>) -> bool {
    match s {
        Source::Member => is_found_cell(c, json_get_of(p, from)),
        Source::LinkTitle => is_found_cell(c, link_member(p, from, "title"@)),
        Source::LinkHref => is_found_cell(c, link_member(p, from, "href"@)),
        Source::LinkId => match spec_link_id(p, from) {
            Some(n) => c == Cell::Id(n),
            None => c is Null,
        },
        Source::Raw => match json_get_of(p, from) {
            Some(v) => c == Cell::Json(text_of(v)),
            None => c is Null,
        },
        Source::Details => match json_get_of(p, from) {
            Some(v) => is_details_cell(c, v),
            None => c is Null,
        },
        Source::Hours => match json_get_of(p, from) {
            Some(v) => match json_at_str(v, ""@) {
                Some(t) => (c matches Cell::Duration(d) && d@ == t),
                None => c is Null,
            },
            None => c is Null,
        },
        Source::Flag => c == Cell::Flag(
            match json_get_of(p, from) {
                Some(v) => match json_at_bool(v, ""@) {
                    Some(b) => b,
                    None => false,
                },
                None => false,
            },
        ),
    }
}

/// `c` is the details of the array `v`: the `raw` texts of its object items,
/// `null` when there are none or `v` is not an array.
pub open spec fn is_details_cell(c: Cell, v: serde_json::Value) -> bool {
    match json_at_array(v, ""@) {
        Some(items) => if details_of(items).len() == 0 {
            c is Null
        } else {
            (c matches Cell::List(l) && l@ == details_of(items))
        },
        None => c is Null,
    }
}

/// A formattable value's `raw` text, the value itself when it has none.
fn text_value(v: serde_json::Value) -> (r: serde_json::Value)
    ensures
        r == text_of(v),
{
    match json_get(&v, "raw") {
        Some(x) => x,
        None => v,
    }
}

/// The details of an activity's `details` member.
fn details_cell(v: &serde_json::Value) -> (c: Cell)
    ensures
        is_details_cell(c, *v),
{
    match json_array(v, "") {
        Some(items) => {
            let mut out: Vec<serde_json::Value> = Vec::new();
            let mut i: usize = 0;
            while i < items.len()
                invariant
                    i <= items@.len(),
                    out@ == details_of(items@.take(i as int)),
                decreases items.len() - i,
            {
                proof {
                    assert(items@.take(i + 1).drop_last() =~= items@.take(i as int));
                }
                let is_object = match json_entries(&items[i]) {
                    Some(_) => true,
                    None => false,
                };
                if is_object {
                    out.push(text_value(json_clone(&items[i])));
                }
                i = i + 1;
            }
            proof {
                assert(items@.take(items@.len() as int) =~= items@);
            }
            if out.len() == 0 {
                Cell::Null
            } else {
                Cell::List(out)
            }
        },
        None => Cell::Null,
    }
}

/// The member `field` of the link `name` of a payload.
fn link_member_value(p: &serde_json::Value, name: &str, field: &str) -> (r: Option<serde_json::Value>)
    ensures
        r == link_member(*p, name@, field@),
{
    match json_get(p, "_links") {
        Some(l) => match json_get(&l, name) {
            Some(k) => json_get(&k, field),
            None => None,
        },
        None => None,
    }
}

/// Read one field of a payload.
pub fn cell_of(p: &serde_json::Value, source: Source, from: &str) -> (c: Cell)
    ensures
        is_cell(c, *p, source, from@),
{
    match source {
        Source::Member => match json_get(p, from) {
            Some(v) => Cell::Json(v),
            None => Cell::Null,
        },
        Source::LinkTitle => match link_member_value(p, from, "title") {
            Some(v) => Cell::Json(v),
            None => Cell::Null,
        },
        Source::LinkHref => match link_member_value(p, from, "href") {
            Some(v) => Cell::Json(v),
            None => Cell::Null,
        },
        Source::LinkId => match link_id(p, from) {
            Some(n) => Cell::Id(n),
            None => Cell::Null,
        },
        Source::Raw => match json_get(p, from) {
            Some(v) => Cell::Json(text_value(v)),
            None => Cell::Null,
        },
        Source::Details => match json_get(p, from) {
            Some(v) => details_cell(&v),
            None => Cell::Null,
        },
        Source::Hours => match json_get(p, from) {
            Some(v) => match json_str(&v, "") {
                Some(t) => Cell::Duration(t),
                None => Cell::Null,
            },
            None => Cell::Null,
        },
        Source::Flag => {
            let b = match json_get(p, from) {
                Some(v) => match json_bool(&v, "") {
                    Some(b) => b,
                    None => false,
                },
                None => false,
            };
            Cell::Flag(b)
        },
    }
}

/// Flatten a HAL payload into the fields [`columns`] lists for `r`, in their
/// order, each read from the payload as its source says.
pub fn flatten(p: &serde_json::Value, r: Resource) -> (out: Vec<(String, Cell)>)
    ensures
        out@.len() == spec_columns(r).len(),
        forall|i: int|
            0 <= i < out@.len() ==> (#[trigger] out@[i]).0@ == spec_columns(r)[i].0 && is_cell(
                out@[i].1,
                *p,
                spec_columns(r)[i].1,
                spec_columns(r)[i].2,
            ),
{
    let cols = columns(r);
    let mut out: Vec<(String, Cell)> = Vec::new();
    let mut i: usize = 0;
    while i < cols.len()
        invariant
            i <= cols@.len(),
            columns_view(cols@) == spec_columns(r),
            out@.len() == i,
            forall|k: int|
                0 <= k < i ==> (#[trigger] out@[k]).0@ == spec_columns(r)[k].0 && is_cell(
                    out@[k].1,
                    *p,
                    spec_columns(r)[k].1,
                    spec_columns(r)[k].2,
                ),
        decreases cols.len() - i,
    {
        let c = cols[i];
        proof {
            assert(columns_view(cols@)[i as int] == column_view(cols@[i as int]));
        }
        let cell = cell_of(p, c.source, c.from);
        out.push((c.key.to_string(), cell));
        i = i + 1;
    }
    out
}

/// A custom field's value: a payload member as it is, or the titles of the
/// items a link lists.
#[derive(Debug)]
pub enum CfValue {
    Json(serde_json::Value),
    Titles(Vec<String>),
}

/// The view of a custom field's value.
pub enum CfView {
    Json(serde_json::Value),
    Titles(Seq<Seq<char>>),
}

/// The view of a custom field's value.
pub open spec fn cf_view(c: CfValue) -> CfView {
    match c {
        CfValue::Json(v) => CfView::Json(v),
        CfValue::Titles(t) => CfView::Titles(views(t@)),
    }
}

/// The views of a list of custom fields.
pub open spec fn cf_list_view(r: Seq<(String, CfValue)>) -> Seq<(Seq<char>, CfView)> {
    r.map_values(|e: (String, CfValue)| (e.0@, cf_view(e.1)))
}

/// A member holds a custom field's value when it is a scalar other than
/// `null` and the empty string.
pub open spec fn cf_present(v: serde_json::Value) -> bool {
    &&& !json_null_of(v)
    &&& json_at_array(v, ""@) is None
    &&& json_members(v) is None
    &&& match json_at_str(v, ""@) {
        Some(s) => s.len() > 0,
        None => true,
    }
}

/// The custom fields among the members `es` of a payload, in order.
pub open spec fn member_fields(es: Seq<(Seq<char>, serde_json::Value)>) -> Seq<(Seq<char>, CfView)>
    decreases es.len(),
{
    if es.len() == 0 {
        Seq::empty()
    } else {
        let prev = member_fields(es.drop_last());
        let (k, v) = es.last();
        if spec_is_custom_field_key(k) && cf_present(v) {
            prev.push((k, CfView::Json(v)))
        } else {
            prev
        }
    }
}

/// The string `title`s of the items, in order.
pub open spec fn titles_of(items: Seq<serde_json::Value>) -> Seq<Seq<char>>
    decreases items.len(),
{
    if items.len() == 0 {
        Seq::empty()
    } else {
        let prev = titles_of(items.drop_last());
        match json_get_of(items.last(), "title"@) {
            Some(t) => match json_at_str(t, ""@) {
                Some(s) => prev.push(s),
                None => prev,
            },
            None => prev,
        }
    }
}

/// The custom field value a link gives: the titles of a list of links, the
/// `title` of a single link unless it is missing or `null`.
pub open spec fn link_field(v: serde_json::Value) -> Option<CfView> {
    match json_at_array(v, ""@) {
        Some(items) => Some(CfView::Titles(titles_of(items))),
        None => if json_members(v) is Some {
            match json_get_of(v, "title"@) {
                Some(t) => if json_null_of(t) {
                    None
                } else {
                    Some(CfView::Json(t))
                },
                None => None,
            }
        } else {
            None
        },
    }
}

/// The custom fields among the links `es` of a payload, in order.
pub open spec fn link_fields(es: Seq<(Seq<char>, serde_json::Value)>) -> Seq<(Seq<char>, CfView)>
    decreases es.len(),
{
    if es.len() == 0 {
        Seq::empty()
    } else {
        let prev = link_fields(es.drop_last());
        let (k, v) = es.last();
        match link_field(v) {
            Some(f) => if spec_is_custom_field_key(k) {
                prev.push((k, f))
            } else {
                prev
            },
            None => prev,
        }
    }
}

/// The custom fields of a work package payload: those among its members,
/// then those among its links, each in payload order.
pub open spec fn spec_raw_custom_fields(p: serde_json::Value) -> Seq<(Seq<char>, CfView)> {
    (match json_members(p) {
        Some(es) => member_fields(es),
        None => Seq::empty(),
    }) + match json_get_of(p, "_links"@) {
        Some(l) => match json_members(l) {
            Some(es) => link_fields(es),
            None => Seq::empty(),
        },
        None => Seq::empty(),
    }
}

/// Whether a member holds a custom field's value.
fn is_present(v: &serde_json::Value) -> (b: bool)
    ensures
        b == cf_present(*v),
{
    if json_is_null(v) {
        return false;
    }
    let is_array = match json_array(v, "") {
        Some(_) => true,
        None => false,
    };
    if is_array {
        return false;
    }
    let is_object = match json_entries(v) {
        Some(_) => true,
        None => false,
    };
    if is_object {
        return false;
    }
    match json_str(v, "") {
        Some(s) => s.unicode_len() > 0,
        None => true,
    }
}

/// The string `title`s of a list of links.
fn titles(items: &Vec<serde_json::Value>) -> (r: Vec<String>)
    ensures
        views(r@) == titles_of(items@),
{
    let mut out: Vec<String> = Vec::new();
    let mut i: usize = 0;
    while i < items.len()
        invariant
            i <= items@.len(),
            views(out@) == titles_of(items@.take(i as int)),
        decreases items.len() - i,
    {
        proof {
            assert(items@.take(i + 1).drop_last() =~= items@.take(i as int));
        }
        match json_get(&items[i], "title") {
            Some(t) => match json_str(&t, "") {
                Some(s) => {
                    let ghost before = out@;
                    out.push(s);
                    proof {
                        assert(views(out@) =~= views(before).push(s@));
                    }
                },
                None => {},
            },
            None => {},
        }
        i = i + 1;
    }
    proof {
        assert(items@.take(items@.len() as int) =~= items@);
    }
    out
}

/// The custom field value a link gives, if any.
fn link_value(v: &serde_json::Value) -> (r: Option<CfValue>)
    ensures
        match r {
            Some(c) => link_field(*v) == Some(cf_view(c)),
            None => link_field(*v) is None,
        },
{
    match json_array(v, "") {
        Some(items) => Some(CfValue::Titles(titles(&items))),
        None => {
            let is_object = match json_entries(v) {
                Some(_) => true,
                None => false,
            };
            if !is_object {
                return None;
            }
            match json_get(v, "title") {
                Some(t) => if json_is_null(&t) {
                    None
                } else {
                    Some(CfValue::Json(t))
                },
                None => None,
            }
        },
    }
}

/// The custom fields of a work package payload (`customField<digits>`
/// members holding a scalar other than `null` or `""`, then such links
/// holding a title or a list of titles), in payload order.
pub fn raw_custom_fields(p: &serde_json::Value) -> (r: Vec<(String, CfValue)>)
    ensures
        cf_list_view(r@) == spec_raw_custom_fields(*p),
{
    let mut out: Vec<(String, CfValue)> = Vec::new();
    let ghost members: Seq<(Seq<char>, CfView)> = Seq::empty();
    match json_entries(p) {
        Some(es) => {
            let ghost ev = entries_view(es@);
            let mut i: usize = 0;
            while i < es.len()
                invariant
                    i <= es@.len(),
                    ev == entries_view(es@),
                    cf_list_view(out@) == member_fields(ev.take(i as int)),
                decreases es.len() - i,
            {
                proof {
                    assert(ev.take(i + 1).drop_last() =~= ev.take(i as int));
                    assert(ev.take(i + 1).last() == (es@[i as int].0@, es@[i as int].1));
                }
                let ghost before = out@;
                let (k, v) = &es[i];
                if is_custom_field_key(k.as_str()) && is_present(v) {
                    out.push((k.clone(), CfValue::Json(json_clone(v))));
                    proof {
                        assert(cf_list_view(out@) =~= cf_list_view(before).push((k@, CfView::Json(*v))));
                    }
                }
                i = i + 1;
            }
            proof {
                assert(ev.take(ev.len() as int) =~= ev);
                members = member_fields(ev);
            }
        },
        None => {},
    }
    assert(cf_list_view(out@) == members);
    let ghost links: Seq<(Seq<char>, CfView)> = Seq::empty();
    match json_get(p, "_links") {
        Some(l) => match json_entries(&l) {
            Some(es) => {
                let ghost ev = entries_view(es@);
                let mut i: usize = 0;
                while i < es.len()
                    invariant
                        i <= es@.len(),
                        ev == entries_view(es@),
                        cf_list_view(out@) == members + link_fields(ev.take(i as int)),
                    decreases es.len() - i,
                {
                    proof {
                        assert(ev.take(i + 1).drop_last() =~= ev.take(i as int));
                        assert(ev.take(i + 1).last() == (es@[i as int].0@, es@[i as int].1));
                    }
                    let ghost before = out@;
                    let (k, v) = &es[i];
                    if is_custom_field_key(k.as_str()) {
                        match link_value(v) {
                            Some(c) => {
                                let ghost cv = cf_view(c);
                                out.push((k.clone(), c));
                                proof {
                                    assert(cf_list_view(out@) =~= cf_list_view(before).push((k@, cv)));
                                }
                            },
                            None => {},
                        }
                    }
                    i = i + 1;
                }
                proof {
                    assert(ev.take(ev.len() as int) =~= ev);
                    links = link_fields(ev);
                }
            },
            None => {},
        },
        None => {},
    }
    proof {
        assert(members + links =~= spec_raw_custom_fields(*p));
    }
    out
}

/// The names a work package schema gives its custom fields: each
/// `customField<digits>` member with a string `name`, in member order (a
/// later member wins).
pub open spec fn names_of(es: Seq<(Seq<char>, serde_json::Value)>) -> Map<Seq<char>, Seq<char>>
    decreases es.len(),
{
    if es.len() == 0 {
        Map::empty()
    } else {
        let prev = names_of(es.drop_last());
        let (k, v) = es.last();
        if spec_is_custom_field_key(k) {
            match json_get_of(v, "name"@) {
                Some(n) => match json_at_str(n, ""@) {
                    Some(s) => prev.insert(k, s),
                    None => prev,
                },
                None => prev,
            }
        } else {
            prev
        }
    }
}

/// The custom field names of a schema; none when it is not an object.
pub open spec fn spec_custom_field_names(schema: serde_json::Value) -> Map<Seq<char>, Seq<char>> {
    match json_members(schema) {
        Some(es) => names_of(es),
        None => Map::empty(),
    }
}

/// `m` holds the names `want`.
pub open spec fn names_match(m: Map<Seq<char>, String>, want: Map<Seq<char>, Seq<char>>) -> bool {
    &&& m.dom() == want.dom()
    &&& forall|k: Seq<char>| #[trigger] m.dom().contains(k) ==> m[k]@ == want[k]
}

/// The custom field names a work package schema gives.
pub fn custom_field_names(schema: &serde_json::Value) -> (r: StrMap<String>)
    ensures
        names_match(r@, spec_custom_field_names(*schema)),
{
    let mut m: StrMap<String> = StrMap::new();
    match json_entries(schema) {
        Some(es) => {
            let ghost ev = entries_view(es@);
            let mut i: usize = 0;
            while i < es.len()
                invariant
                    i <= es@.len(),
                    ev == entries_view(es@),
                    names_match(m@, names_of(ev.take(i as int))),
                decreases es.len() - i,
            {
                proof {
                    assert(ev.take(i + 1).drop_last() =~= ev.take(i as int));
                    assert(ev.take(i + 1).last() == (es@[i as int].0@, es@[i as int].1));
                }
                let (k, v) = &es[i];
                if is_custom_field_key(k.as_str()) {
                    match json_get(v, "name") {
                        Some(n) => match json_str(&n, "") {
                            Some(s) => {
                                let ghost sv = s@;
                                let ghost want = names_of(ev.take(i as int));
                                m.insert(k.clone(), s);
                                proof {
                                    assert(m@.dom() =~= want.insert(k@, sv).dom());
                                }
                            },
                            None => {},
                        },
                        None => {},
                    }
                }
                i = i + 1;
            }
            proof {
                assert(ev.take(ev.len() as int) =~= ev);
            }
        },
        None => {},
    }
    m
}

} // verus!
