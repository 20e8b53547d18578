//! Work-package listing: the filter array a list request sends, and the plan
//! that merges in work packages the user was previously assigned to
//! (`include_past`): which history ids are past-only, how they are batched into
//! id filters, how the merged list is ordered and cut to the limit.

use vstd::prelude::*;
use crate::error::Error;
use crate::strmap::{compare_str, seq_lt, KeyOrder};
use crate::text::{chars_of, string_of, push_all, fmt_i64, dec_int};
use crate::github::views;
use crate::config::opt_view;
use crate::json::{json_at_i64, json_at_str, json_clone, json_get, json_get_of, json_i64, json_str};

verus! {

/// Parameters of a work-package list.
#[derive(Debug, Clone)]
pub struct WpListParams {
    pub project: Option<String>,
    pub status: Option<String>,
    pub type_: Option<String>,
    pub assignee: Option<String>,
    pub subject: Option<String>,
    pub open: bool,
    pub include_past: bool,
    pub offset: i64,
    pub limit: Option<i64>,
}

impl Default for WpListParams {
    fn default() -> (p: WpListParams)
        ensures
            p.project is None && p.status is None && p.type_ is None && p.assignee is None
                && p.subject is None && !p.open && !p.include_past && p.offset == 0
                && p.limit is None,
    {
        WpListParams {
            project: None,
            status: None,
            type_: None,
            assignee: None,
            subject: None,
            open: false,
            include_past: false,
            offset: 0,
            limit: None,
        }
    }
}

/// Mutable fields of a work package, for create and update.
#[derive(Debug, Clone)]
pub struct WpFields {
    pub subject: Option<String>,
    pub description: Option<String>,
    pub start_date: Option<String>,
    pub due_date: Option<String>,
    pub done_ratio: Option<i64>,
    pub project: Option<String>,
    pub type_: Option<String>,
    pub status: Option<String>,
    pub assignee: Option<String>,
    pub parent: Option<String>,
}

impl Default for WpFields {
    fn default() -> (f: WpFields)
        ensures
            f.subject is None && f.description is None && f.start_date is None && f.due_date is None
                && f.done_ratio is None && f.project is None && f.type_ is None && f.status is None
                && f.assignee is None && f.parent is None,
    {
        WpFields {
            subject: None,
            description: None,
            start_date: None,
            due_date: None,
            done_ratio: None,
            project: None,
            type_: None,
            status: None,
            assignee: None,
            parent: None,
        }
    }
}

/// One API filter: `{field: {"operator": operator, "values": values}}`.
#[derive(Debug, Clone)]
pub struct WpFilter {
    pub field: String,
    pub operator: String,
    pub values: Vec<String>,
}

/// The view of a filter.
pub open spec fn filter_model(f: WpFilter) -> (Seq<char>, Seq<char>, Seq<Seq<char>>) {
    (f.field@, f.operator@, views(f.values@))
}

/// The filters of a list, in their fixed order: project, status, open,
/// type, assignee, subject (each only when given).
pub open spec fn spec_filters(
    project_id: Option<Seq<char>>,
    status_id: Option<Seq<char>>,
    open: bool,
    type_id: Option<Seq<char>>,
    assignee_id: Option<Seq<char>>,
    subject: Option<Seq<char>>,
) -> Seq<(Seq<char>, Seq<char>, Seq<Seq<char>>)> {
    (match project_id {
        Some(p) => seq![("project_id"@, "="@, seq![p])],
        None => Seq::empty(),
    }) + (match status_id {
        Some(s) => seq![("status_id"@, "="@, seq![s])],
        None => Seq::empty(),
    }) + (if open {
        seq![("status_id"@, "o"@, Seq::<Seq<char>>::empty())]
    } else {
        Seq::empty()
    }) + (match type_id {
        Some(t) => seq![("type"@, "="@, seq![t])],
        None => Seq::empty(),
    }) + (match assignee_id {
        Some(a) => seq![("assignee"@, "="@, seq![a])],
        None => Seq::empty(),
    }) + (match subject {
        Some(s) => seq![("subject"@, "~"@, seq![s])],
        None => Seq::empty(),
    })
}

/// The `--open` flag adds the filter on open statuses, `status_id` with
/// operator `o` and no values, and nothing else does: every other filter
/// carries exactly one value.
pub proof fn law_open_flag_filters_open_statuses(
    project_id: Option<Seq<char>>,
    status_id: Option<Seq<char>>,
    open: bool,
    type_id: Option<Seq<char>>,
    assignee_id: Option<Seq<char>>,
    subject: Option<Seq<char>>,
)
    ensures
        spec_filters(project_id, status_id, open, type_id, assignee_id, subject).contains(
            ("status_id"@, "o"@, Seq::<Seq<char>>::empty()),
        ) <==> open,
        forall|k: int|
            0 <= k < spec_filters(project_id, status_id, open, type_id, assignee_id, subject).len()
                ==> (#[trigger] spec_filters(project_id, status_id, open, type_id, assignee_id, subject)[k]).2.len()
                == 0 ==> spec_filters(project_id, status_id, open, type_id, assignee_id, subject)[k] == (
                "status_id"@,
                "o"@,
                Seq::<Seq<char>>::empty(),
            ),
{
    let f = spec_filters(project_id, status_id, open, type_id, assignee_id, subject);
    let a = match project_id {
        Some(p) => seq![("project_id"@, "="@, seq![p])],
        None => Seq::<(Seq<char>, Seq<char>, Seq<Seq<char>>)>::empty(),
    };
    let b = match status_id {
        Some(x) => seq![("status_id"@, "="@, seq![x])],
        None => Seq::<(Seq<char>, Seq<char>, Seq<Seq<char>>)>::empty(),
    };
    let o = if open {
        seq![("status_id"@, "o"@, Seq::<Seq<char>>::empty())]
    } else {
        Seq::<(Seq<char>, Seq<char>, Seq<Seq<char>>)>::empty()
    };
    let c = match type_id {
        Some(t) => seq![("type"@, "="@, seq![t])],
        None => Seq::<(Seq<char>, Seq<char>, Seq<Seq<char>>)>::empty(),
    };
    let d = match assignee_id {
        Some(x) => seq![("assignee"@, "="@, seq![x])],
        None => Seq::<(Seq<char>, Seq<char>, Seq<Seq<char>>)>::empty(),
    };
    let e = match subject {
        Some(x) => seq![("subject"@, "~"@, seq![x])],
        None => Seq::<(Seq<char>, Seq<char>, Seq<Seq<char>>)>::empty(),
    };
    assert(f == a + b + o + c + d + e);
    let ab = a + b;
    assert forall|k: int| 0 <= k < f.len() && (#[trigger] f[k]).2.len() == 0 implies f[k] == (
        "status_id"@,
        "o"@,
        Seq::<Seq<char>>::empty(),
    ) by {
        assert(f[k].2.len() == 0);
        if k < ab.len() {
            assert(f[k] == ab[k]);
            if k < a.len() {
                assert(ab[k] == a[k]);
            } else {
                assert(ab[k] == b[k - a.len()]);
            }
        } else if k < ab.len() + o.len() {
            assert(f[k] == o[k - ab.len()]);
        } else {
            let rest = c + d + e;
            assert(f =~= (ab + o) + rest);
            assert(f[k] == rest[k - ab.len() - o.len()]);
            let j = k - ab.len() - o.len();
            if j < c.len() {
                assert(rest[j] == c[j]);
            } else if j < c.len() + d.len() {
                assert(rest[j] == d[j - c.len()]);
            } else {
                assert(rest[j] == e[j - c.len() - d.len()]);
            }
        }
    }
    if open {
        assert(f[ab.len() as int] == ("status_id"@, "o"@, Seq::<Seq<char>>::empty()));
    }
    if f.contains(("status_id"@, "o"@, Seq::<Seq<char>>::empty())) {
        let k = choose|k: int| 0 <= k < f.len() && f[k] == ("status_id"@, "o"@, Seq::<Seq<char>>::empty());
        assert(f[k].2.len() == 0);
        if !open {
            assert(o.len() == 0);
            assert(f[k] == ("status_id"@, "o"@, Seq::<Seq<char>>::empty()));
        }
    }
}

/// Each reference given to a list is sent as an equality filter on its
/// field with its id, and a subject as a `~` (contains) filter.
pub proof fn law_given_references_are_filtered(
    project_id: Option<Seq<char>>,
    status_id: Option<Seq<char>>,
    open: bool,
    type_id: Option<Seq<char>>,
    assignee_id: Option<Seq<char>>,
    subject: Option<Seq<char>>,
)
    ensures
        project_id matches Some(p) ==> spec_filters(project_id, status_id, open, type_id, assignee_id, subject).contains(
            ("project_id"@, "="@, seq![p]),
        ),
        status_id matches Some(x) ==> spec_filters(project_id, status_id, open, type_id, assignee_id, subject).contains(
            ("status_id"@, "="@, seq![x]),
        ),
        type_id matches Some(t) ==> spec_filters(project_id, status_id, open, type_id, assignee_id, subject).contains(
            ("type"@, "="@, seq![t]),
        ),
        assignee_id matches Some(a) ==> spec_filters(project_id, status_id, open, type_id, assignee_id, subject).contains(
            ("assignee"@, "="@, seq![a]),
        ),
        subject matches Some(x) ==> spec_filters(project_id, status_id, open, type_id, assignee_id, subject).contains(
            ("subject"@, "~"@, seq![x]),
        ),
{
    let f = spec_filters(project_id, status_id, open, type_id, assignee_id, subject);
    let na: int = if project_id is Some { 1 } else { 0 };
    let nb: int = if status_id is Some { 1 } else { 0 };
    let no: int = if open { 1 } else { 0 };
    let nc: int = if type_id is Some { 1 } else { 0 };
    let nd: int = if assignee_id is Some { 1 } else { 0 };
    if let Some(p) = project_id {
        assert(f[0] == ("project_id"@, "="@, seq![p]));
    }
    if let Some(x) = status_id {
        assert(f[na] == ("status_id"@, "="@, seq![x]));
    }
    if let Some(t) = type_id {
        assert(f[na + nb + no] == ("type"@, "="@, seq![t]));
    }
    if let Some(a) = assignee_id {
        assert(f[na + nb + no + nc] == ("assignee"@, "="@, seq![a]));
    }
    if let Some(x) = subject {
        assert(f[na + nb + no + nc + nd] == ("subject"@, "~"@, seq![x]));
    }
}

/// The models of a list of filters.
pub open spec fn filters_model(v: Seq<WpFilter>) -> Seq<(Seq<char>, Seq<char>, Seq<Seq<char>>)> {
    v.map_values(|f: WpFilter| filter_model(f))
}

pub(crate) fn filter1(field: &str, op: &str, value: &String) -> (f: WpFilter)
    ensures
        filter_model(f) == (field@, op@, seq![value@]),
{
    let mut values: Vec<String> = Vec::new();
    values.push(value.clone());
    let f = WpFilter { field: field.to_string(), operator: op.to_string(), values };
    assert(views(f.values@) =~= seq![value@]);
    f
}

pub(crate) fn push_filter(v: &mut Vec<WpFilter>, f: WpFilter)
    ensures
        filters_model(final(v)@) == filters_model(old(v)@).push(filter_model(f)),
{
    v.push(f);
    assert(filters_model(v@) =~= filters_model(old(v)@).push(filter_model(f)));
}

/// Assemble the filter array in its fixed order.
pub fn make_filters(
    project_id: &Option<String>,
    status_id: &Option<String>,
    open: bool,
    type_id: &Option<String>,
    assignee_id: &Option<String>,
    subject: &Option<String>,
) -> (r: Vec<WpFilter>)
    ensures
        filters_model(r@) == spec_filters(
            opt_view(*project_id),
            opt_view(*status_id),
            open,
            opt_view(*type_id),
            opt_view(*assignee_id),
            opt_view(*subject),
        ),
{
    let mut f: Vec<WpFilter> = Vec::new();
    let ghost mut want: Seq<(Seq<char>, Seq<char>, Seq<Seq<char>>)> = Seq::empty();
    assert(filters_model(f@) =~= want);
    match project_id {
        Some(p) => {
            push_filter(&mut f, filter1("project_id", "=", p));
        },
        None => {},
    }
    let ghost a = filters_model(f@);
    match status_id {
        Some(s) => {
            push_filter(&mut f, filter1("status_id", "=", s));
        },
        None => {},
    }
    let ghost b = filters_model(f@);
    if open {
        let g = WpFilter { field: "status_id".to_string(), operator: "o".to_string(), values: Vec::new() };
        assert(views(g.values@) =~= Seq::<Seq<char>>::empty());
        push_filter(&mut f, g);
    }
    let ghost c = filters_model(f@);
    match type_id {
        Some(t) => {
            push_filter(&mut f, filter1("type", "=", t));
        },
        None => {},
    }
    let ghost d = filters_model(f@);
    match assignee_id {
        Some(x) => {
            push_filter(&mut f, filter1("assignee", "=", x));
        },
        None => {},
    }
    let ghost e = filters_model(f@);
    match subject {
        Some(s) => {
            push_filter(&mut f, filter1("subject", "~", s));
        },
        None => {},
    }
    assert(filters_model(f@) =~= spec_filters(
        opt_view(*project_id),
        opt_view(*status_id),
        open,
        opt_view(*type_id),
        opt_view(*assignee_id),
        opt_view(*subject),
    ));
    f
}

/// The assignee an `include_past` list is for; the flag needs one.
pub fn include_past_assignee(params: &WpListParams) -> (r: Result<&String, Error>)
    ensures
        match params.assignee {
            Some(a) => r matches Ok(x) && x@ == a@,
            None => r matches Err(Error::Usage(m)) && m@ == "--include-past requires --assignee"@,
        },
{
    match &params.assignee {
        Some(a) => Ok(a),
        None => Err(Error::Usage("--include-past requires --assignee".to_string())),
    }
}

/// The ids of `history` that are not among `current`, in history order.
pub fn past_only(history: &Vec<i64>, current: &Vec<i64>) -> (r: Vec<i64>)
    ensures
        r@ == history@.filter(|id: i64| !current@.contains(id)),
{
    let mut r: Vec<i64> = Vec::new();
    let mut i: usize = 0;
    while i < history.len()
        invariant
            i <= history@.len(),
            r@ == history@.subrange(0, i as int).filter(|id: i64| !current@.contains(id)),
        decreases history.len() - i,
    {
        let id = history[i];
        let mut found = false;
        let mut j: usize = 0;
        while j < current.len()
            invariant
                j <= current@.len(),
                found == exists|k: int| 0 <= k < j && current@[k] == id,
            decreases current.len() - j,
        {
            if current[j] == id {
                found = true;
            }
            j = j + 1;
        }
        proof {
            assert(history@.subrange(0, i + 1).drop_last() =~= history@.subrange(0, i as int));
            reveal(Seq::filter);
            if found {
                let k = choose|k: int| 0 <= k < current@.len() && current@[k] == id;
                assert(current@.contains(id));
            }
        }
        if !found {
            r.push(id);
        }
        i = i + 1;
    }
    assert(history@.subrange(0, history@.len() as int) =~= history@);
    r
}

/// `ids` cut into consecutive batches of `size`, the last one possibly short.
pub open spec fn spec_chunks(ids: Seq<i64>, size: int) -> Seq<Seq<i64>>
    decreases ids.len(),
{
    if ids.len() == 0 || size <= 0 {
        Seq::empty()
    } else if ids.len() <= size {
        seq![ids]
    } else {
        seq![ids.subrange(0, size)] + spec_chunks(ids.subrange(size, ids.len() as int), size)
    }
}

/// The decimal texts of a batch of ids, the values of an id filter.
pub open spec fn id_texts(ids: Seq<i64>) -> Seq<Seq<char>> {
    ids.map_values(|id: i64| dec_int(id as int))
}

/// The id filters that fetch past-only work packages: one `id = [...]`
/// filter per batch of `size` ids.
pub fn id_filters(ids: &Vec<i64>, size: usize) -> (r: Vec<WpFilter>)
    requires
        size > 0,
    ensures
        r@.len() == spec_chunks(ids@, size as int).len(),
        forall|k: int|
            0 <= k < r@.len() ==> filter_model(#[trigger] r@[k]) == ("id"@, "="@, id_texts(
                spec_chunks(ids@, size as int)[k],
            )),
{
    let mut r: Vec<WpFilter> = Vec::new();
    let mut start: usize = 0;
    let ghost mut rest = ids@;
    while start < ids.len()
        invariant
            size > 0,
            start <= ids@.len(),
            rest == ids@.subrange(start as int, ids@.len() as int),
            forall|k: int|
                0 <= k < r@.len() ==> filter_model(#[trigger] r@[k]) == ("id"@, "="@, id_texts(
                    spec_chunks(ids@, size as int)[k],
                )),
            spec_chunks(ids@, size as int) =~= spec_chunks(ids@, size as int).subrange(0, r@.len() as int)
                + spec_chunks(rest, size as int),
            r@.len() <= spec_chunks(ids@, size as int).len(),
        decreases ids.len() - start,
    {
        let end: usize = if ids.len() - start <= size {
            ids.len()
        } else {
            start + size
        };
        let mut values: Vec<String> = Vec::new();
        let mut i: usize = start;
        while i < end
            invariant
                start <= i <= end <= ids@.len(),
                views(values@) == id_texts(ids@.subrange(start as int, i as int)),
            decreases end - i,
        {
            values.push(string_of(&fmt_i64(ids[i])));
            proof {
                assert(id_texts(ids@.subrange(start as int, i + 1)) =~= id_texts(
                    ids@.subrange(start as int, i as int),
                ).push(dec_int(ids@[i as int] as int)));
            }
            i = i + 1;
        }
        let ghost chunk = ids@.subrange(start as int, end as int);
        let ghost nrest = ids@.subrange(end as int, ids@.len() as int);
        proof {
            if rest.len() <= size {
                assert(chunk =~= rest);
                assert(spec_chunks(rest, size as int) =~= seq![chunk]);
                assert(nrest.len() == 0);
                assert(spec_chunks(nrest, size as int) =~= Seq::<Seq<i64>>::empty());
            } else {
                assert(rest.subrange(0, size as int) =~= chunk);
                assert(rest.subrange(size as int, rest.len() as int) =~= nrest);
            }
            assert(spec_chunks(rest, size as int) =~= seq![chunk] + spec_chunks(nrest, size as int));
        }
        let ghost before = r@.len();
        r.push(WpFilter { field: "id".to_string(), operator: "=".to_string(), values });
        proof {
            let all = spec_chunks(ids@, size as int);
            assert(all[before as int] == chunk);
            assert(all =~= all.subrange(0, r@.len() as int) + spec_chunks(nrest, size as int));
        }
        proof {
            rest = nrest;
        }
        start = end;
    }
    proof {
        assert(rest.len() == 0);
        assert(spec_chunks(rest, size as int) =~= Seq::<Seq<i64>>::empty());
    }
    r
}

/// `keys[perm[0]], keys[perm[1]], ...` is the stable descending order of
/// `keys`: a permutation of the positions, keys non-increasing, equal keys in
/// their input order.
pub open spec fn is_stable_desc(keys: Seq<Seq<char>>, perm: Seq<int>) -> bool {
    &&& perm.len() == keys.len()
    &&& forall|k: int| 0 <= k < perm.len() ==> 0 <= #[trigger] perm[k] < keys.len()
    &&& forall|k: int, l: int| 0 <= k < l < perm.len() ==> #[trigger] perm[k] != #[trigger] perm[l]
    &&& forall|k: int, l: int|
        0 <= k < l < perm.len() ==> !seq_lt(keys[#[trigger] perm[k]], keys[#[trigger] perm[l]])
    &&& forall|k: int, l: int|
        0 <= k < l < perm.len() && keys[#[trigger] perm[k]] == keys[#[trigger] perm[l]] ==> perm[k]
            < perm[l]
}

/// The order in which merged work packages are shown: by their `updatedAt`
/// text, newest first, ties in their input order. Position `k` of the
/// result is the index of the item shown `k`-th.
pub fn order_by_updated_desc(keys: &Vec<String>) -> (r: Vec<usize>)
    ensures
        is_stable_desc(views(keys@), r@.map_values(|i: usize| i as int)),
{
    let ghost ks = views(keys@);
    let mut out: Vec<usize> = Vec::new();
    let mut i: usize = 0;
    while i < keys.len()
        invariant
            i <= keys@.len(),
            ks == views(keys@),
            out@.len() == i,
            forall|k: int| 0 <= k < i ==> 0 <= #[trigger] out@[k] < i,
            forall|k: int, l: int| 0 <= k < l < i ==> #[trigger] out@[k] != #[trigger] out@[l],
            forall|k: int, l: int|
                0 <= k < l < i ==> !seq_lt(ks[#[trigger] out@[k] as int], ks[#[trigger] out@[l] as int]),
            forall|k: int, l: int|
                0 <= k < l < i && ks[#[trigger] out@[k] as int] == ks[#[trigger] out@[l] as int] ==> out@[k]
                    < out@[l],
        decreases keys.len() - i,
    {
        let mut p: usize = 0;
        while p < out.len() && compare_str(keys[out[p]].as_str(), keys[i].as_str()) != KeyOrder::Less
            invariant
                p <= out@.len(),
                i < keys@.len(),
                ks == views(keys@),
                forall|k: int| 0 <= k < out@.len() ==> 0 <= #[trigger] out@[k] < i,
                forall|q: int| 0 <= q < p ==> !seq_lt(#[trigger] ks[out@[q] as int], ks[i as int]),
            decreases out.len() - p,
        {
            p = p + 1;
        }
        let ghost old_out = out@;
        out.insert(p, i);
        proof {
            crate::strmap::lemma_lt_irrefl(ks[i as int]);
            assert forall|k: int| 0 <= k < i + 1 implies 0 <= #[trigger] out@[k] < i + 1 by {
                if k < p {
                    assert(out@[k] == old_out[k]);
                } else if k > p {
                    assert(out@[k] == old_out[k - 1]);
                }
            }
            assert forall|k: int, l: int| 0 <= k < l < i + 1 implies #[trigger] out@[k]
                != #[trigger] out@[l] by {
                if k < p && l < p {
                    assert(out@[k] == old_out[k] && out@[l] == old_out[l]);
                } else if k < p && l == p {
                    assert(out@[k] == old_out[k]);
                } else if k < p {
                    assert(out@[k] == old_out[k] && out@[l] == old_out[l - 1]);
                } else if k == p {
                    assert(out@[l] == old_out[l - 1]);
                } else {
                    assert(out@[k] == old_out[k - 1] && out@[l] == old_out[l - 1]);
                }
            }
            assert forall|k: int, l: int| 0 <= k < l < i + 1 implies !seq_lt(
                ks[#[trigger] out@[k] as int],
                ks[#[trigger] out@[l] as int],
            ) && (ks[out@[k] as int] == ks[out@[l] as int] ==> out@[k] < out@[l]) by {
                if k < p && l < p {
                    assert(out@[k] == old_out[k] && out@[l] == old_out[l]);
                } else if k < p && l == p {
                    assert(out@[k] == old_out[k]);
                } else if k < p {
                    assert(out@[k] == old_out[k] && out@[l] == old_out[l - 1]);
                } else if k == p {
                    assert(out@[l] == old_out[l - 1]);
                    assert(seq_lt(ks[old_out[p as int] as int], ks[i as int]));
                    if l - 1 > p {
                        assert(!seq_lt(ks[old_out[p as int] as int], ks[old_out[l - 1] as int]));
                        crate::strmap::lemma_lt_total(ks[old_out[p as int] as int], ks[old_out[l - 1] as int]);
                        if seq_lt(ks[i as int], ks[old_out[l - 1] as int]) {
                            crate::strmap::lemma_lt_trans(ks[old_out[p as int] as int], ks[i as int], ks[old_out[l - 1] as int]);
                        }
                        if ks[i as int] == ks[old_out[l - 1] as int] {
                            crate::strmap::lemma_lt_asym(ks[old_out[p as int] as int], ks[i as int]);
                            crate::strmap::lemma_lt_irrefl(ks[i as int]);
                            if ks[old_out[l - 1] as int] == ks[old_out[p as int] as int] {
                            } else {
                                crate::strmap::lemma_lt_trans(ks[old_out[l - 1] as int], ks[old_out[p as int] as int], ks[i as int]);
                            }
                        }
                    } else {
                        crate::strmap::lemma_lt_asym(ks[old_out[p as int] as int], ks[i as int]);
                        crate::strmap::lemma_lt_irrefl(ks[i as int]);
                    }
                } else {
                    assert(out@[k] == old_out[k - 1] && out@[l] == old_out[l - 1]);
                }
            }
        }
        i = i + 1;
    }
    assert(ks =~= views(keys@));
    proof {
        let pm = out@.map_values(|i: usize| i as int);
        assert forall|k: int| 0 <= k < pm.len() implies #[trigger] pm[k] == out@[k] as int by {}
    }
    out
}

/// How many of `len` merged items a limit keeps: a non-negative limit below
/// the count cuts the list to it.
pub fn limited_len(len: usize, limit: Option<i64>) -> (r: usize)
    ensures
        r == match limit {
            Some(l) => if l >= 0 && len > l {
                l as int
            } else {
                len as int
            },
            None => len as int,
        },
{
    match limit {
        Some(l) => {
            if l >= 0 && (len as u128) > (l as u128) {
                l as usize
            } else {
                len
            }
        },
        None => len,
    }
}

/// An API href: `/api/v3/<kind>/<ref>`.
pub fn href(kind: &str, ref_: &str) -> (r: String)
    ensures
        r@ == "/api/v3/"@ + kind@ + "/"@ + ref_@,
{
    let mut v = chars_of("/api/v3/");
    push_all(&mut v, &chars_of(kind));
    v.push('/');
    push_all(&mut v, &chars_of(ref_));
    proof {
        reveal_strlit("/");
        assert(v@ =~= "/api/v3/"@ + kind@ + "/"@ + ref_@);
    }
    string_of(&v)
}

/// The href `/api/v3/<kind>/<ref>`.
pub open spec fn spec_href(kind: Seq<char>, r: Seq<char>) -> Seq<char> {
    "/api/v3/"@ + kind + "/"@ + r
}

/// What a reference names, for resolution to an id.
#[derive(Debug, Clone, Copy, PartialEq, Eq, Structural)]
pub enum RefKind {
    Project,
    Type,
    Status,
    Principal,
}

/// The references a create or update resolves before it builds its body, in
/// order: on create the project and the type (an absent one as the empty
/// text), then the status, on update the type when given, then the assignee.
pub open spec fn spec_resolution_plan(for_create: bool, f: WpFields) -> Seq<(RefKind, Seq<char>)> {
    let none = Seq::<(RefKind, Seq<char>)>::empty();
    let create = if for_create {
        seq![
            (RefKind::Project, match f.project { Some(p) => p@, None => Seq::<char>::empty() }),
            (RefKind::Type, match f.type_ { Some(t) => t@, None => Seq::<char>::empty() }),
        ]
    } else {
        none
    };
    let status = match f.status {
        Some(st) => seq![(RefKind::Status, st@)],
        None => none,
    };
    let update_type = if !for_create {
        match f.type_ {
            Some(t) => seq![(RefKind::Type, t@)],
            None => none,
        }
    } else {
        none
    };
    let assignee = match f.assignee {
        Some(a) => seq![(RefKind::Principal, a@)],
        None => none,
    };
    create + status + update_type + assignee
}

/// The view of a resolution plan.
pub open spec fn plan_view(v: Seq<(RefKind, String)>) -> Seq<(RefKind, Seq<char>)> {
    v.map_values(|e: (RefKind, String)| (e.0, e.1@))
}

fn text_or_empty(o: &Option<String>) -> (r: String)
    ensures
        r@ == (match *o {
            Some(s) => s@,
            None => Seq::<char>::empty(),
        }),
{
    match o {
        Some(s) => s.clone(),
        None => String::new(),
    }
}

/// The references to resolve before a create or update body is built.
pub fn resolution_plan(for_create: bool, fields: &WpFields) -> (r: Vec<(RefKind, String)>)
    ensures
        plan_view(r@) == spec_resolution_plan(for_create, *fields),
{
    let mut r: Vec<(RefKind, String)> = Vec::new();
    if for_create {
        r.push((RefKind::Project, text_or_empty(&fields.project)));
        r.push((RefKind::Type, text_or_empty(&fields.type_)));
    }
    let ghost a = r@;
    if let Some(st) = &fields.status {
        r.push((RefKind::Status, st.clone()));
    }
    let ghost b = r@;
    if !for_create {
        if let Some(t) = &fields.type_ {
            r.push((RefKind::Type, t.clone()));
        }
    }
    let ghost c = r@;
    if let Some(x) = &fields.assignee {
        r.push((RefKind::Principal, x.clone()));
    }
    proof {
        assert(plan_view(r@) =~= spec_resolution_plan(for_create, *fields));
    }
    r
}

/// The ids the references of a request resolved to.
#[derive(Debug, Clone)]
pub struct ResolvedIds {
    pub project: Option<String>,
    pub type_: Option<String>,
    pub status: Option<String>,
    pub assignee: Option<String>,
}

/// One link of a request body when `id` is given: `(name, href of id)`.
pub open spec fn link_if(name: Seq<char>, kind: Seq<char>, id: Option<String>) -> Seq<(Seq<char>, Seq<char>)> {
    match id {
        Some(i) => seq![(name, spec_href(kind, i@))],
        None => Seq::empty(),
    }
}

/// The `_links` of a create or update body, in order: on create the project
/// and type, then the status when given, on update the type when given, then
/// the assignee, then the parent work package when given and not empty. Each
/// link points at the id resolved for it.
pub open spec fn spec_body_links(for_create: bool, f: WpFields, ids: ResolvedIds) -> Seq<(Seq<char>, Seq<char>)> {
    let none = Seq::<(Seq<char>, Seq<char>)>::empty();
    let create = if for_create {
        link_if("project"@, "projects"@, ids.project) + link_if("type"@, "types"@, ids.type_)
    } else {
        none
    };
    let status = if f.status is Some {
        link_if("status"@, "statuses"@, ids.status)
    } else {
        none
    };
    let update_type = if !for_create && f.type_ is Some {
        link_if("type"@, "types"@, ids.type_)
    } else {
        none
    };
    let assignee = if f.assignee is Some {
        link_if("assignee"@, "users"@, ids.assignee)
    } else {
        none
    };
    let parent = match f.parent {
        Some(p) => if p@.len() > 0 {
            seq![("parent"@, spec_href("work_packages"@, p@))]
        } else {
            none
        },
        None => none,
    };
    create + status + update_type + assignee + parent
}

/// The view of a list of links.
pub open spec fn links_view(v: Seq<(String, String)>) -> Seq<(Seq<char>, Seq<char>)> {
    v.map_values(|e: (String, String)| (e.0@, e.1@))
}

fn push_link(v: &mut Vec<(String, String)>, name: &str, kind: &str, id: &Option<String>)
    ensures
        links_view(final(v)@) == links_view(old(v)@) + link_if(name@, kind@, *id),
{
    let ghost before = v@;
    match id {
        Some(i) => {
            v.push((name.to_string(), href(kind, i.as_str())));
            proof {
                assert(links_view(v@) =~= links_view(before) + link_if(name@, kind@, *id));
            }
        },
        None => {
            proof {
                assert(links_view(v@) =~= links_view(before) + link_if(name@, kind@, *id));
            }
        },
    }
}

/// The `_links` of a create (`for_create`) or update body for `fields`, with
/// the ids the caller resolved per [`resolution_plan`].
pub fn build_links(for_create: bool, fields: &WpFields, ids: &ResolvedIds) -> (r: Vec<(String, String)>)
    ensures
        links_view(r@) == spec_body_links(for_create, *fields, *ids),
{
    let mut r: Vec<(String, String)> = Vec::new();
    if for_create {
        push_link(&mut r, "project", "projects", &ids.project);
        push_link(&mut r, "type", "types", &ids.type_);
    }
    let ghost a = links_view(r@);
    if fields.status.is_some() {
        push_link(&mut r, "status", "statuses", &ids.status);
    }
    let ghost b = links_view(r@);
    if !for_create && fields.type_.is_some() {
        push_link(&mut r, "type", "types", &ids.type_);
    }
    let ghost c = links_view(r@);
    if fields.assignee.is_some() {
        push_link(&mut r, "assignee", "users", &ids.assignee);
    }
    let ghost d = links_view(r@);
    if let Some(p) = &fields.parent {
        if chars_of(p.as_str()).len() > 0 {
            r.push(("parent".to_string(), href("work_packages", p.as_str())));
        }
    }
    proof {
        assert(links_view(r@) =~= spec_body_links(for_create, *fields, *ids));
    }
    r
}

/// The `updatedAt` text of a listed work package; empty when it has none.
pub open spec fn updated_key(e: serde_json::Value) -> Seq<char> {
    match json_get_of(e, "updatedAt"@) {
        Some(u) => match json_at_str(u, ""@) {
            Some(t) => t,
            None => Seq::empty(),
        },
        None => Seq::empty(),
    }
}

/// The `updatedAt` texts of listed work packages.
pub open spec fn updated_keys(items: Seq<serde_json::Value>) -> Seq<Seq<char>> {
    items.map_values(|e: serde_json::Value| updated_key(e))
}

/// The numeric `id`s of listed work packages, in order, skipping those
/// without one.
pub open spec fn spec_ids_of(items: Seq<serde_json::Value>) -> Seq<i64>
    decreases items.len(),
{
    if items.len() == 0 {
        Seq::empty()
    } else {
        let prev = spec_ids_of(items.drop_last());
        match json_get_of(items.last(), "id"@) {
            Some(v) => match json_at_i64(v, ""@) {
                Some(n) => prev.push(n),
                None => prev,
            },
            None => prev,
        }
    }
}

/// The numeric `id`s of listed work packages.
pub fn ids_of(items: &Vec<serde_json::Value>) -> (r: Vec<i64>)
    ensures
        r@ == spec_ids_of(items@),
{
    let mut out: Vec<i64> = Vec::new();
    let mut i: usize = 0;
    while i < items.len()
        invariant
            i <= items@.len(),
            out@ == spec_ids_of(items@.take(i as int)),
        decreases items.len() - i,
    {
        proof {
            assert(items@.take(i + 1).drop_last() =~= items@.take(i as int));
        }
        match json_get(&items[i], "id") {
            Some(v) => match json_i64(&v, "") {
                Some(n) => out.push(n),
                None => {},
            },
            None => {},
        }
        i = i + 1;
    }
    proof {
        assert(items@.take(items@.len() as int) =~= items@);
    }
    out
}

/// The merged list of an `include_past` listing as shown: newest `updatedAt`
/// first, ties in their merged order, cut to the limit.
pub fn arrange_listing(items: &Vec<serde_json::Value>, limit: Option<i64>) -> (r: Vec<serde_json::Value>)
    ensures
        exists|perm: Seq<int>|
            #[trigger] is_stable_desc(updated_keys(items@), perm) && r@.len() == (match limit {
                Some(l) => if l >= 0 && items@.len() > l {
                    l as int
                } else {
                    items@.len() as int
                },
                None => items@.len() as int,
            }) && forall|k: int| 0 <= k < r@.len() ==> #[trigger] r@[k] == items@[perm[k]],
{
    let mut keys: Vec<String> = Vec::new();
    let mut i: usize = 0;
    while i < items.len()
        invariant
            i <= items@.len(),
            keys@.len() == i,
            forall|k: int| 0 <= k < i ==> (#[trigger] keys@[k])@ == updated_key(items@[k]),
        decreases items.len() - i,
    {
        let key = match json_get(&items[i], "updatedAt") {
            Some(u) => match json_str(&u, "") {
                Some(t) => t,
                None => String::new(),
            },
            None => String::new(),
        };
        keys.push(key);
        i = i + 1;
    }
    assert(views(keys@) =~= updated_keys(items@));
    let order = order_by_updated_desc(&keys);
    let ghost perm = order@.map_values(|x: usize| x as int);
    let keep = limited_len(order.len(), limit);
    let mut out: Vec<serde_json::Value> = Vec::new();
    let mut k: usize = 0;
    while k < keep
        invariant
            k <= keep,
            keep <= order@.len(),
            order@.len() == items@.len(),
            perm == order@.map_values(|x: usize| x as int),
            is_stable_desc(updated_keys(items@), perm),
            out@.len() == k,
            forall|j: int| 0 <= j < k ==> #[trigger] out@[j] == items@[perm[j]],
        decreases keep - k,
    {
        assert(0 <= perm[k as int] < items@.len());
        out.push(json_clone(&items[order[k]]));
        k = k + 1;
    }
    out
}

} // verus!
