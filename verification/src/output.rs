//! Human-readable rendering of a JSON result (`--human`): an array of objects
//! becomes a tab-separated table whose columns are the keys in first-seen
//! order, another array one cell per line, an object one `key: value` line per
//! member with the values aligned, and anything else its one-line cell. A cell
//! is empty for `null`, the text of a string, and the compact JSON of any
//! other value; an empty array reads `(no results)`.

use vstd::prelude::*;
use crate::github::{join, join_with, views};
use crate::json::{json_array, json_at_array};
use crate::resolve::{utf8_len, utf8_len_of};
use crate::text::{chars_of, string_of, push_all};

verus! {

/// A JSON value as one cell sees it.
#[derive(Debug)]
pub enum JsonScalar {
    Null,
    Bool(bool),
    /// A string's contents.
    Str(String),
    /// A number's JSON text.
    Num(String),
    /// An array's or object's compact JSON text.
    Compound(String),
}

/// The one-line cell of a JSON value: empty for `null`, `true`/`false`, a
/// string's contents, and the JSON text `to_string` writes for a number, an
/// array or an object.
pub uninterp spec fn json_cell(v: serde_json::Value) -> Seq<char>;

/// The members of a JSON object in their order; `None` for any other value.
pub uninterp spec fn json_members(v: serde_json::Value) -> Option<Seq<(Seq<char>, serde_json::Value)>>;

/// Which kind of JSON value `v` is, with its text. One arm per variant of
/// `serde_json::Value`; numbers and compound values as `to_string` writes
/// them. The cell it stands for is named by [`json_cell`].
#[verifier::external_body]
fn json_kind(v: &serde_json::Value) -> (r: JsonScalar)
    ensures
        spec_scalar(r) == json_cell(*v),
{
    match v {
        serde_json::Value::Null => JsonScalar::Null,
        serde_json::Value::Bool(b) => JsonScalar::Bool(*b),
        serde_json::Value::String(s) => JsonScalar::Str(s.clone()),
        serde_json::Value::Number(n) => JsonScalar::Num(n.to_string()),
        other => JsonScalar::Compound(other.to_string()),
    }
}

/// The members of a JSON object in their order, cloned (a clone of a `Value`
/// is the same document); `None` for any other value. What it finds is named
/// by [`json_members`].
#[verifier::external_body]
pub(crate) fn json_entries(v: &serde_json::Value) -> (r: Option<Vec<(String, serde_json::Value)>>)
    ensures
        match r {
            Some(es) => json_members(*v) == Some(entries_view(es@)),
            None => json_members(*v) is None,
        },
{
    v.as_object().map(|m| m.iter().map(|(k, x)| (k.clone(), x.clone())).collect())
}

/// The view of the members of an object.
pub open spec fn entries_view(es: Seq<(String, serde_json::Value)>) -> Seq<(Seq<char>, serde_json::Value)> {
    es.map_values(|e: (String, serde_json::Value)| (e.0@, e.1))
}

/// The members of an object with each value as its cell.
pub open spec fn member_cells_of(es: Seq<(Seq<char>, serde_json::Value)>) -> Seq<(Seq<char>, Seq<char>)> {
    es.map_values(|e: (Seq<char>, serde_json::Value)| (e.0, json_cell(e.1)))
}

/// The view of an element's optional members.
pub open spec fn opt_members_view(f: Option<Vec<(String, String)>>) -> Option<Seq<(Seq<char>, Seq<char>)>> {
    match f {
        Some(m) => Some(members_view(m@)),
        None => None,
    }
}

/// `d` is the shape of the JSON result `v`: for an array, each element's
/// cell and (for an object) its members with their cells; for an object,
/// its members with their cells; otherwise the value's cell.
pub open spec fn is_doc_of(v: serde_json::Value, d: HumanDoc) -> bool {
    match json_at_array(v, ""@) {
        Some(items) => d matches HumanDoc::Array(out) && out@.len() == items.len() && forall|i: int|
            0 <= i < items.len() ==> (#[trigger] out@[i]).cell@ == json_cell(items[i]) && opt_members_view(
                out@[i].fields,
            ) == match json_members(items[i]) {
                Some(es) => Some(member_cells_of(es)),
                None => None,
            },
        None => match json_members(v) {
            Some(es) => d matches HumanDoc::Object(m) && members_view(m@) == member_cells_of(es),
            None => d matches HumanDoc::Scalar(c) && c@ == json_cell(v),
        },
    }
}

/// The one-line cell of a value.
pub open spec fn spec_scalar(s: JsonScalar) -> Seq<char> {
    match s {
        JsonScalar::Null => Seq::empty(),
        JsonScalar::Bool(b) => if b {
            "true"@
        } else {
            "false"@
        },
        JsonScalar::Str(t) => t@,
        JsonScalar::Num(t) => t@,
        JsonScalar::Compound(t) => t@,
    }
}

/// Render a value as a one-line cell.
pub fn scalar(s: &JsonScalar) -> (r: String)
    ensures
        r@ == spec_scalar(*s),
{
    match s {
        JsonScalar::Null => String::new(),
        JsonScalar::Bool(b) => if *b {
            "true".to_string()
        } else {
            "false".to_string()
        },
        JsonScalar::Str(t) => t.clone(),
        JsonScalar::Num(t) => t.clone(),
        JsonScalar::Compound(t) => t.clone(),
    }
}

/// One element of an array result: its members (key and cell) when it is an
/// object, and its own cell.
#[derive(Debug)]
pub struct HumanItem {
    pub fields: Option<Vec<(String, String)>>,
    pub cell: String,
}

/// The shape of a result, as the rendering reads it.
#[derive(Debug)]
pub enum HumanDoc {
    Array(Vec<HumanItem>),
    Object(Vec<(String, String)>),
    Scalar(String),
}

/// The view of a list of members.
pub open spec fn members_view(m: Seq<(String, String)>) -> Seq<(Seq<char>, Seq<char>)> {
    m.map_values(|e: (String, String)| (e.0@, e.1@))
}

/// The keys of the objects, each once, in first-seen order.
pub open spec fn columns(objs: Seq<Seq<(Seq<char>, Seq<char>)>>) -> Seq<Seq<char>>
    decreases objs.len(),
{
    if objs.len() == 0 {
        Seq::empty()
    } else {
        add_keys(columns(objs.drop_last()), objs.last())
    }
}

/// `cols` extended by the keys of `m` it lacks, in `m`'s order.
pub open spec fn add_keys(cols: Seq<Seq<char>>, m: Seq<(Seq<char>, Seq<char>)>) -> Seq<Seq<char>>
    decreases m.len(),
{
    if m.len() == 0 {
        cols
    } else {
        let c = add_keys(cols, m.drop_last());
        if c.contains(m.last().0) {
            c
        } else {
            c.push(m.last().0)
        }
    }
}

/// The cell of column `col` in an object: its first member's cell under that
/// key, empty when it has none.
pub open spec fn lookup(m: Seq<(Seq<char>, Seq<char>)>, col: Seq<char>) -> Seq<char>
    decreases m.len(),
{
    if m.len() == 0 {
        Seq::empty()
    } else if m[0].0 == col {
        m[0].1
    } else {
        lookup(m.drop_first(), col)
    }
}

/// One table row: the object's cells under `cols`, tab-separated.
pub open spec fn table_row(cols: Seq<Seq<char>>, m: Seq<(Seq<char>, Seq<char>)>) -> Seq<char> {
    join_with(cols.map_values(|c: Seq<char>| lookup(m, c)), "\t"@)
}

/// The widest key, in UTF-8 bytes, plus one (0 without members).
pub open spec fn key_width(m: Seq<(Seq<char>, Seq<char>)>) -> int
    decreases m.len(),
{
    if m.len() == 0 {
        0
    } else {
        let w = key_width(m.drop_last());
        let k = utf8_len(m.last().0) + 1;
        if k > w {
            k
        } else {
            w
        }
    }
}

/// `s` padded with spaces to `w` characters (as `{:<w$}`).
pub open spec fn pad(s: Seq<char>, w: int) -> Seq<char> {
    if s.len() >= w {
        s
    } else {
        s + Seq::new((w - s.len()) as nat, |_i: int| ' ')
    }
}

/// One aligned line of an object: `key:` padded to the width, a space, the
/// cell.
pub open spec fn object_line(e: (Seq<char>, Seq<char>), w: int) -> Seq<char> {
    pad(e.0 + ":"@, w) + " "@ + e.1
}

/// The objects of the items, when every item is one.
pub open spec fn item_fields(items: Seq<HumanItem>) -> Seq<Seq<(Seq<char>, Seq<char>)>> {
    items.map_values(|it: HumanItem| match it.fields {
        Some(f) => members_view(f@),
        None => Seq::empty(),
    })
}

/// Every item is an object.
pub open spec fn all_objects(items: Seq<HumanItem>) -> bool {
    forall|i: int| 0 <= i < items.len() ==> (#[trigger] items[i]).fields is Some
}

/// The rendering of a result.
pub open spec fn spec_render(doc: HumanDoc) -> Seq<char> {
    match doc {
        HumanDoc::Scalar(s) => s@,
        HumanDoc::Object(m) => {
            let ms = members_view(m@);
            join_with(ms.map_values(|e: (Seq<char>, Seq<char>)| object_line(e, key_width(ms))), "\n"@)
        },
        HumanDoc::Array(items) => if items@.len() == 0 {
            "(no results)"@
        } else if all_objects(items@) {
            let objs = item_fields(items@);
            let cols = columns(objs);
            join_with(
                seq![join_with(cols, "\t"@)] + objs.map_values(|m: Seq<(Seq<char>, Seq<char>)>| table_row(cols, m)),
                "\n"@,
            )
        } else {
            join_with(items@.map_values(|it: HumanItem| it.cell@), "\n"@)
        },
    }
}

fn contains_text(v: &Vec<String>, x: &String) -> (r: bool)
    ensures
        r == views(v@).contains(x@),
{
    let mut i: usize = 0;
    while i < v.len()
        invariant
            i <= v@.len(),
            forall|j: int| 0 <= j < i ==> v@[j]@ != x@,
        decreases v.len() - i,
    {
        if crate::strmap::str_eq(v[i].as_str(), x.as_str()) {
            proof {
                assert(views(v@)[i as int] == x@);
            }
            return true;
        }
        i = i + 1;
    }
    proof {
        if views(v@).contains(x@) {
            let k = choose|k: int| 0 <= k < views(v@).len() && views(v@)[k] == x@;
            assert(v@[k]@ == x@);
        }
    }
    false
}

fn add_keys_of(cols: &mut Vec<String>, m: &Vec<(String, String)>)
    ensures
        views(final(cols)@) == add_keys(views(old(cols)@), members_view(m@)),
{
    let ghost start = views(cols@);
    let mut i: usize = 0;
    while i < m.len()
        invariant
            i <= m@.len(),
            views(cols@) == add_keys(start, members_view(m@).take(i as int)),
        decreases m.len() - i,
    {
        proof {
            assert(members_view(m@).take(i + 1).drop_last() =~= members_view(m@).take(i as int));
            assert(members_view(m@).take(i + 1).last() == (m@[i as int].0@, m@[i as int].1@));
        }
        let k = &m[i].0;
        if !contains_text(cols, k) {
            let ghost before = views(cols@);
            cols.push(k.clone());
            proof {
                assert(views(cols@) =~= before.push(k@));
            }
        }
        i = i + 1;
    }
    proof {
        assert(members_view(m@).take(m@.len() as int) =~= members_view(m@));
    }
}

fn fields_or_empty(it: &HumanItem) -> (r: &Vec<(String, String)>)
    requires
        it.fields is Some,
    ensures
        Some(*r) == it.fields,
{
    match &it.fields {
        Some(f) => f,
        None => {
            assert(false);
            &it.fields.as_ref().unwrap()
        },
    }
}

/// The table columns of object items, in first-seen order.
fn columns_of(items: &Vec<HumanItem>) -> (r: Vec<String>)
    requires
        all_objects(items@),
    ensures
        views(r@) == columns(item_fields(items@)),
{
    let mut cols: Vec<String> = Vec::new();
    let mut i: usize = 0;
    proof {
        assert(views(cols@) =~= Seq::<Seq<char>>::empty());
    }
    while i < items.len()
        invariant
            i <= items@.len(),
            all_objects(items@),
            views(cols@) == columns(item_fields(items@).take(i as int)),
        decreases items.len() - i,
    {
        proof {
            assert(item_fields(items@).take(i + 1).drop_last() =~= item_fields(items@).take(i as int));
            assert(items@[i as int].fields is Some);
        }
        let f = fields_or_empty(&items[i]);
        proof {
            assert(item_fields(items@).take(i + 1).last() == members_view(f@));
        }
        add_keys_of(&mut cols, f);
        i = i + 1;
    }
    proof {
        assert(item_fields(items@).take(items@.len() as int) =~= item_fields(items@));
    }
    cols
}

fn lookup_cell(m: &Vec<(String, String)>, col: &String) -> (r: String)
    ensures
        r@ == lookup(members_view(m@), col@),
{
    let mut i: usize = 0;
    proof {
        assert(members_view(m@).subrange(0, m@.len() as int) =~= members_view(m@));
    }
    while i < m.len()
        invariant
            i <= m@.len(),
            lookup(members_view(m@), col@) == lookup(members_view(m@).subrange(i as int, m@.len() as int), col@),
        decreases m.len() - i,
    {
        proof {
            let t = members_view(m@).subrange(i as int, m@.len() as int);
            assert(t.drop_first() =~= members_view(m@).subrange(i + 1, m@.len() as int));
            assert(t[0] == (m@[i as int].0@, m@[i as int].1@));
        }
        if crate::strmap::str_eq(m[i].0.as_str(), col.as_str()) {
            return m[i].1.clone();
        }
        i = i + 1;
    }
    String::new()
}

fn row_of(cols: &Vec<String>, m: &Vec<(String, String)>) -> (r: String)
    ensures
        r@ == table_row(views(cols@), members_view(m@)),
{
    let mut cells: Vec<String> = Vec::new();
    let mut i: usize = 0;
    while i < cols.len()
        invariant
            i <= cols@.len(),
            views(cells@) == views(cols@).take(i as int).map_values(|c: Seq<char>| lookup(members_view(m@), c)),
        decreases cols.len() - i,
    {
        let c = lookup_cell(m, &cols[i]);
        let ghost old_cells = cells@;
        proof {
            assert(views(old_cells).len() == i);
            assert(old_cells.len() == i);
        }
        cells.push(c);
        proof {
            let want = views(cols@).take(i + 1).map_values(|c: Seq<char>| lookup(members_view(m@), c));
            let prev = views(cols@).take(i as int).map_values(|c: Seq<char>| lookup(members_view(m@), c));
            assert(cells@ == old_cells.push(c));
            assert forall|j: int| 0 <= j < i + 1 implies views(cells@)[j] == want[j] by {
                if j < i {
                    assert(cells@[j] == old_cells[j]);
                    assert(views(old_cells)[j] == prev[j]);
                }
            }
            assert(views(cells@) =~= want);
        }
        i = i + 1;
    }
    proof {
        assert(views(cols@).take(cols@.len() as int) =~= views(cols@));
    }
    join(&cells, "\t")
}

proof fn lemma_utf8_len_bound(s: Seq<char>)
    ensures
        0 <= utf8_len(s) <= 4 * s.len(),
    decreases s.len(),
{
    if s.len() > 0 {
        lemma_utf8_len_bound(s.drop_last());
    }
}

fn width_of(m: &Vec<(String, String)>) -> (r: u128)
    ensures
        r == key_width(members_view(m@)),
{
    let mut w: u128 = 0;
    let mut i: usize = 0;
    while i < m.len()
        invariant
            i <= m@.len(),
            w == key_width(members_view(m@).take(i as int)),
            w <= 4 * (usize::MAX as int) + 1,
        decreases m.len() - i,
    {
        proof {
            assert(members_view(m@).take(i + 1).drop_last() =~= members_view(m@).take(i as int));
            assert(members_view(m@).take(i + 1).last() == (m@[i as int].0@, m@[i as int].1@));
        }
        let n = m[i].0.as_str().unicode_len();
        let u = utf8_len_of(m[i].0.as_str());
        proof {
            lemma_utf8_len_bound(m@[i as int].0@);
        }
        let k = u + 1;
        if k > w {
            w = k;
        }
        i = i + 1;
    }
    proof {
        assert(members_view(m@).take(m@.len() as int) =~= members_view(m@));
    }
    w
}

fn pad_to(s: &Vec<char>, w: u128) -> (r: Vec<char>)
    ensures
        r@ == pad(s@, w as int),
{
    let mut out = s.clone();
    assert(out@ == s@);
    if (s.len() as u128) < w {
        let mut k: u128 = s.len() as u128;
        while k < w
            invariant
                s@.len() <= k <= w,
                out@ == s@ + Seq::new((k - s@.len()) as nat, |_i: int| ' '),
            decreases w - k,
        {
            let ghost before = out@;
            out.push(' ');
            proof {
                assert(out@ =~= s@ + Seq::new((k + 1 - s@.len()) as nat, |_i: int| ' '));
            }
            k = k + 1;
        }
    } else {
        proof {
            assert(s@.len() >= w);
        }
    }
    out
}

fn object_line_of(e: &(String, String), w: u128) -> (r: String)
    ensures
        r@ == object_line((e.0@, e.1@), w as int),
{
    let mut k = chars_of(e.0.as_str());
    k.push(':');
    let mut line = pad_to(&k, w);
    line.push(' ');
    push_all(&mut line, &chars_of(e.1.as_str()));
    proof {
        reveal_strlit(":");
        reveal_strlit(" ");
        assert(k@ =~= e.0@ + ":"@);
        assert(line@ =~= object_line((e.0@, e.1@), w as int));
    }
    string_of(&line)
}

fn cells_of(items: &Vec<HumanItem>) -> (r: Vec<String>)
    ensures
        views(r@) == items@.map_values(|it: HumanItem| it.cell@),
{
    let mut out: Vec<String> = Vec::new();
    let mut i: usize = 0;
    while i < items.len()
        invariant
            i <= items@.len(),
            views(out@) == items@.take(i as int).map_values(|it: HumanItem| it.cell@),
        decreases items.len() - i,
    {
        let ghost old_out = out@;
        proof {
            assert(old_out.len() == views(old_out).len());
        }
        out.push(items[i].cell.clone());
        proof {
            let want = items@.take(i + 1).map_values(|it: HumanItem| it.cell@);
            assert forall|j: int| 0 <= j < i + 1 implies views(out@)[j] == want[j] by {
                if j < i {
                    assert(out@[j] == old_out[j]);
                    assert(views(old_out)[j] == items@.take(i as int).map_values(|it: HumanItem| it.cell@)[j]);
                }
            }
            assert(views(out@) =~= want);
        }
        i = i + 1;
    }
    proof {
        assert(items@.take(items@.len() as int) =~= items@);
    }
    out
}

/// Render a result for `--human`.
pub fn render(doc: &HumanDoc) -> (r: String)
    ensures
        r@ == spec_render(*doc),
{
    match doc {
        HumanDoc::Scalar(s) => s.clone(),
        HumanDoc::Object(m) => {
            let w = width_of(m);
            let ghost ms = members_view(m@);
            let mut lines: Vec<String> = Vec::new();
            let mut i: usize = 0;
            while i < m.len()
                invariant
                    i <= m@.len(),
                    ms == members_view(m@),
                    w == key_width(ms),
                    views(lines@) == ms.take(i as int).map_values(|e: (Seq<char>, Seq<char>)| object_line(e, w as int)),
                decreases m.len() - i,
            {
                let ghost old_lines = lines@;
                proof {
                    assert(old_lines.len() == views(old_lines).len());
                }
                lines.push(object_line_of(&m[i], w));
                proof {
                    let want = ms.take(i + 1).map_values(|e: (Seq<char>, Seq<char>)| object_line(e, w as int));
                    assert forall|j: int| 0 <= j < i + 1 implies views(lines@)[j] == want[j] by {
                        if j < i {
                            assert(lines@[j] == old_lines[j]);
                            assert(views(old_lines)[j] == ms.take(i as int).map_values(
                                |e: (Seq<char>, Seq<char>)| object_line(e, w as int),
                            )[j]);
                        }
                    }
                    assert(views(lines@) =~= want);
                }
                i = i + 1;
            }
            proof {
                assert(ms.take(m@.len() as int) =~= ms);
            }
            join(&lines, "\n")
        },
        HumanDoc::Array(items) => {
            if items.len() == 0 {
                return "(no results)".to_string();
            }
            let mut all = true;
            let mut i: usize = 0;
            while i < items.len()
                invariant
                    i <= items@.len(),
                    all == forall|j: int| 0 <= j < i ==> (#[trigger] items@[j]).fields is Some,
                decreases items.len() - i,
            {
                if items[i].fields.is_none() {
                    all = false;
                }
                i = i + 1;
            }
            if !all {
                return join(&cells_of(items), "\n");
            }
            let cols = columns_of(items);
            let ghost objs = item_fields(items@);
            let mut lines: Vec<String> = Vec::new();
            lines.push(join(&cols, "\t"));
            let mut k: usize = 0;
            while k < items.len()
                invariant
                    k <= items@.len(),
                    all_objects(items@),
                    objs == item_fields(items@),
                    views(cols@) == columns(objs),
                    views(lines@) == seq![join_with(views(cols@), "\t"@)] + objs.take(k as int).map_values(
                        |mm: Seq<(Seq<char>, Seq<char>)>| table_row(views(cols@), mm),
                    ),
                decreases items.len() - k,
            {
                let f = fields_or_empty(&items[k]);
                let row = row_of(&cols, f);
                let ghost old_lines = lines@;
                proof {
                    assert(old_lines.len() == views(old_lines).len());
                    assert(objs[k as int] == members_view(f@));
                }
                lines.push(row);
                proof {
                    let want = seq![join_with(views(cols@), "\t"@)] + objs.take(k + 1).map_values(
                        |mm: Seq<(Seq<char>, Seq<char>)>| table_row(views(cols@), mm),
                    );
                    let prev = seq![join_with(views(cols@), "\t"@)] + objs.take(k as int).map_values(
                        |mm: Seq<(Seq<char>, Seq<char>)>| table_row(views(cols@), mm),
                    );
                    assert forall|j: int| 0 <= j < k + 2 implies views(lines@)[j] == want[j] by {
                        if j < k + 1 {
                            assert(lines@[j] == old_lines[j]);
                            assert(views(old_lines)[j] == prev[j]);
                        }
                    }
                    assert(views(lines@) =~= want);
                }
                k = k + 1;
            }
            proof {
                assert(objs.take(items@.len() as int) =~= objs);
            }
            join(&lines, "\n")
        },
    }
}

/// The shape of a JSON result: each array element's members and cell, an
/// object's members, or the value's cell.
pub fn human_doc(value: &serde_json::Value) -> (r: HumanDoc)
    ensures
        is_doc_of(*value, r),
{
    match json_array(value, "") {
        Some(items) => {
            let mut out: Vec<HumanItem> = Vec::new();
            let mut i: usize = 0;
            while i < items.len()
                invariant
                    i <= items@.len(),
                    out@.len() == i,
                    json_at_array(*value, ""@) == Some(items@),
                    forall|k: int|
                        0 <= k < i ==> (#[trigger] out@[k]).cell@ == json_cell(items@[k]) && opt_members_view(
                            out@[k].fields,
                        ) == match json_members(items@[k]) {
                            Some(es) => Some(member_cells_of(es)),
                            None => None,
                        },
                decreases items.len() - i,
            {
                let cell = scalar(&json_kind(&items[i]));
                let fields = match json_entries(&items[i]) {
                    Some(es) => Some(member_cells(&es)),
                    None => None,
                };
                out.push(HumanItem { fields, cell });
                i = i + 1;
            }
            HumanDoc::Array(out)
        },
        None => match json_entries(value) {
            Some(es) => HumanDoc::Object(member_cells(&es)),
            None => HumanDoc::Scalar(scalar(&json_kind(value))),
        },
    }
}

fn member_cells(es: &Vec<(String, serde_json::Value)>) -> (r: Vec<(String, String)>)
    ensures
        r@.len() == es@.len(),
        forall|i: int| 0 <= i < es@.len() ==> (#[trigger] r@[i]).0@ == es@[i].0@,
        members_view(r@) == member_cells_of(entries_view(es@)),
{
    let mut out: Vec<(String, String)> = Vec::new();
    let mut i: usize = 0;
    while i < es.len()
        invariant
            i <= es@.len(),
            out@.len() == i,
            forall|j: int| 0 <= j < i ==> (#[trigger] out@[j]).0@ == es@[j].0@,
            members_view(out@) =~= member_cells_of(entries_view(es@.subrange(0, i as int))),
        decreases es.len() - i,
    {
        out.push((es[i].0.clone(), scalar(&json_kind(&es[i].1))));
        proof {
            assert(member_cells_of(entries_view(es@.subrange(0, i as int + 1))) =~= member_cells_of(
                entries_view(es@.subrange(0, i as int)),
            ).push((es@[i as int].0@, json_cell(es@[i as int].1))));
        }
        i = i + 1;
    }
    proof {
        assert(es@.subrange(0, es@.len() as int) =~= es@);
    }
    out
}

/// Render a JSON result as human-friendly text.
pub fn to_human(value: &serde_json::Value) -> (r: String)
    ensures
        exists|d: HumanDoc| #[trigger] is_doc_of(*value, d) && r@ == spec_render(d),
{
    let d = human_doc(value);
    let r = render(&d);
    assert(is_doc_of(*value, d));
    r
}

} // verus!
