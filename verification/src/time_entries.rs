//! Time-entry and notification listing rules: the filter array a time-entry
//! list sends, which listed notifications a "mark all read" marks, and which
//! activities count as comments.

use vstd::prelude::*;
use crate::config::opt_view;
use crate::github::views;
use crate::text::{chars_of, string_of, fmt_i64, dec_int};
use crate::work_packages::{WpFilter, filter_model, filters_model, filter1, push_filter};

verus! {

/// The filters of a time-entry list, in order: project, work package, user,
/// and the `spentOn` range (its open ends written as empty) when either end
/// is given.
pub open spec fn spec_time_filters(
    project_id: Option<Seq<char>>,
    work_package: Option<i64>,
    user_id: Option<Seq<char>>,
    since: Option<Seq<char>>,
    until: Option<Seq<char>>,
) -> Seq<(Seq<char>, Seq<char>, Seq<Seq<char>>)> {
    (match project_id {
        Some(p) => seq![("project"@, "="@, seq![p])],
        None => Seq::empty(),
    }) + (match work_package {
        Some(w) => seq![("workPackage"@, "="@, seq![dec_int(w as int)])],
        None => Seq::empty(),
    }) + (match user_id {
        Some(u) => seq![("user"@, "="@, seq![u])],
        None => Seq::empty(),
    }) + (if since is Some || until is Some {
        seq![("spentOn"@, "<>d"@, seq![or_empty(since), or_empty(until)])]
    } else {
        Seq::empty()
    })
}

/// An optional text, empty when absent.
pub open spec fn or_empty(o: Option<Seq<char>>) -> Seq<char> {
    match o {
        Some(s) => s,
        None => Seq::empty(),
    }
}

fn text_or_empty(o: &Option<String>) -> (r: String)
    ensures
        r@ == or_empty(opt_view(*o)),
{
    match o {
        Some(s) => s.clone(),
        None => String::new(),
    }
}

/// Assemble the time-entry filters; the project and user are the ids the
/// caller resolved.
pub fn time_filters(
    project_id: &Option<String>,
    work_package: Option<i64>,
    user_id: &Option<String>,
    since: &Option<String>,
    until: &Option<String>,
) -> (r: Vec<WpFilter>)
    ensures
        filters_model(r@) == spec_time_filters(
            opt_view(*project_id),
            work_package,
            opt_view(*user_id),
            opt_view(*since),
            opt_view(*until),
        ),
{
    let mut f: Vec<WpFilter> = Vec::new();
    assert(filters_model(f@) =~= Seq::<(Seq<char>, Seq<char>, Seq<Seq<char>>)>::empty());
    if let Some(p) = project_id {
        push_filter(&mut f, filter1("project", "=", p));
    }
    let ghost a = filters_model(f@);
    assert(a =~= (match opt_view(*project_id) {
        Some(p) => seq![("project"@, "="@, seq![p])],
        None => Seq::<(Seq<char>, Seq<char>, Seq<Seq<char>>)>::empty(),
    }));
    if let Some(w) = work_package {
        let t = string_of(&fmt_i64(w));
        push_filter(&mut f, filter1("workPackage", "=", &t));
    }
    let ghost b = filters_model(f@);
    assert(b =~= a + (match work_package {
        Some(w) => seq![("workPackage"@, "="@, seq![dec_int(w as int)])],
        None => Seq::<(Seq<char>, Seq<char>, Seq<Seq<char>>)>::empty(),
    }));
    if let Some(u) = user_id {
        push_filter(&mut f, filter1("user", "=", u));
    }
    let ghost c = filters_model(f@);
    assert(c =~= b + (match opt_view(*user_id) {
        Some(u) => seq![("user"@, "="@, seq![u])],
        None => Seq::<(Seq<char>, Seq<char>, Seq<Seq<char>>)>::empty(),
    }));
    if since.is_some() || until.is_some() {
        let mut values: Vec<String> = Vec::new();
        values.push(text_or_empty(since));
        values.push(text_or_empty(until));
        let g = WpFilter { field: "spentOn".to_string(), operator: "<>d".to_string(), values };
        assert(views(g.values@) =~= seq![or_empty(opt_view(*since)), or_empty(opt_view(*until))]);
        push_filter(&mut f, g);
    }
    assert(filters_model(f@) =~= spec_time_filters(
        opt_view(*project_id),
        work_package,
        opt_view(*user_id),
        opt_view(*since),
        opt_view(*until),
    ));
    f
}

/// The ids a "mark all read" marks: of the listed notifications (each its
/// `read` flag and id, when present), those not known to be read that carry
/// an id, in list order.
pub open spec fn spec_to_mark(items: Seq<(Option<bool>, Option<i64>)>) -> Seq<i64>
    decreases items.len(),
{
    if items.len() == 0 {
        Seq::empty()
    } else {
        let prev = spec_to_mark(items.drop_last());
        let it = items.last();
        if it.0 != Some(true) && it.1 is Some {
            prev.push(it.1->0)
        } else {
            prev
        }
    }
}

/// The notifications a "mark all read" marks, in list order.
pub fn unread_to_mark(items: &Vec<(Option<bool>, Option<i64>)>) -> (r: Vec<i64>)
    ensures
        r@ == spec_to_mark(items@),
{
    let mut r: Vec<i64> = Vec::new();
    let mut i: usize = 0;
    while i < items.len()
        invariant
            i <= items@.len(),
            r@ == spec_to_mark(items@.take(i as int)),
        decreases items.len() - i,
    {
        let (read, id) = items[i];
        proof {
            assert(items@.take(i + 1).drop_last() =~= items@.take(i as int));
            assert(items@.take(i + 1).last() == items@[i as int]);
        }
        let unread = match read {
            Some(b) => !b,
            None => true,
        };
        if unread {
            if let Some(x) = id {
                r.push(x);
            }
        }
        i = i + 1;
    }
    proof {
        assert(items@.take(items@.len() as int) =~= items@);
    }
    r
}

/// An activity counts as a comment when its `comment.raw` text is present
/// and not empty.
pub fn has_comment_text(raw: &Option<String>) -> (r: bool)
    ensures
        r == match *raw {
            Some(s) => s@.len() > 0,
            None => false,
        },
{
    match raw {
        Some(s) => chars_of(s.as_str()).len() > 0,
        None => false,
    }
}

} // verus!
