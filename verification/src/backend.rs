//! Paging across the backends: the cursor that follows a page, and the query
//! that asks for one.

use vstd::prelude::*;
use crate::text::{chars_of, string_of, fmt_i64, dec_int};

verus! {

/// Default page size for the paged list APIs.
pub const PAGE_SIZE: i64 = 50;

/// The next 1-based page after `page`, while the pages fetched so far do not
/// cover `total` items.
pub open spec fn spec_next_page(page: int, page_size: int, total: int) -> Option<int> {
    let p = if page > 1 {
        page
    } else {
        1
    };
    if p * page_size < total {
        Some(page + 1)
    } else {
        None
    }
}

/// Next 1-based page number, or `None` when the pages fetched so far cover the
/// whole collection. `page` is the page just fetched.
pub fn next_page(page: i64, page_size: i64, total: i64) -> (r: Option<i64>)
    requires
        i64::MIN <= (if page > 1 {
            page as int
        } else {
            1
        }) * page_size <= i64::MAX,
        page < i64::MAX,
    ensures
        match r {
            Some(n) => spec_next_page(page as int, page_size as int, total as int) == Some(n as int),
            None => spec_next_page(page as int, page_size as int, total as int) is None,
        },
{
    let p: i64 = if page > 1 {
        page
    } else {
        1
    };
    if p * page_size < total {
        Some(page + 1)
    } else {
        None
    }
}

/// The views of a list of query pairs.
pub open spec fn query_view(q: Seq<(String, String)>) -> Seq<(Seq<char>, Seq<char>)> {
    q.map_values(|e: (String, String)| (e.0@, e.1@))
}

/// Pagination query pairs: always `offset`, plus `pageSize` when a limit is
/// set.
pub fn paging_query(offset: i64, limit: Option<i64>) -> (q: Vec<(String, String)>)
    ensures
        query_view(q@) == match limit {
            Some(l) => seq![("offset"@, dec_int(offset as int)), ("pageSize"@, dec_int(l as int))],
            None => seq![("offset"@, dec_int(offset as int))],
        },
{
    let mut q: Vec<(String, String)> = Vec::new();
    q.push(("offset".to_string(), string_of(&fmt_i64(offset))));
    match limit {
        Some(l) => {
            q.push(("pageSize".to_string(), string_of(&fmt_i64(l))));
        },
        None => {},
    }
    assert(query_view(q@) =~= match limit {
        Some(l) => seq![("offset"@, dec_int(offset as int)), ("pageSize"@, dec_int(l as int))],
        None => seq![("offset"@, dec_int(offset as int))],
    });
    q
}

} // verus!
