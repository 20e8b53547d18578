//! Forward-only schema migrations for the persisted JSON files.
//!
//! A stored file carries a `schema_version`; an absent or unreadable one reads
//! as [`BASE_VERSION`]. On load the steps from the stored version up to the
//! current one run in order; a file at or above the current version runs none
//! and is never rewritten (a newer file is not downgraded). The steps themselves
//! edit the parsed document and are applied by the caller in the order
//! [`plan`] gives.

use vstd::prelude::*;
use crate::json::{json_at_str, json_get, json_get_of, json_str, json_u64};
use crate::output::{entries_view, json_entries, json_members};
use crate::client::{normalize_base_url, trim_end_char};

verus! {

/// The version assumed for a file with no `schema_version`.
pub const BASE_VERSION: u32 = 1;

/// The stored version as read: the number truncated to 32 bits, at least
/// [`BASE_VERSION`]; an absent or non-numeric value reads as [`BASE_VERSION`].
pub open spec fn spec_version_from(raw: Option<u64>) -> u32 {
    match raw {
        Some(v) => {
            let t = (v % 0x1_0000_0000) as u32;
            if t >= BASE_VERSION {
                t
            } else {
                BASE_VERSION
            }
        },
        None => BASE_VERSION,
    }
}

/// The version a file declares, from the number found under `schema_version`.
pub fn version_from(raw: Option<u64>) -> (r: u32)
    ensures
        r == spec_version_from(raw),
        r >= BASE_VERSION,
{
    match raw {
        Some(v) => {
            let t = (v % 0x1_0000_0000) as u32;
            if t >= BASE_VERSION {
                t
            } else {
                BASE_VERSION
            }
        },
        None => BASE_VERSION,
    }
}

/// The `schema_version` of a parsed document, clamped to at least
/// [`BASE_VERSION`].
pub fn version_of(value: &serde_json::Value) -> (r: u32)
    ensures
        r == spec_version_from(crate::json::json_at_u64(*value, "/schema_version"@)),
        r >= BASE_VERSION,
{
    version_from(json_u64(value, "/schema_version"))
}

/// The indices of the steps that migrate `from` up to `current`: step `i`
/// turns version `BASE_VERSION + i` into the next, so the steps run are
/// `from - BASE_VERSION .. current - BASE_VERSION`, in order. None run when
/// `from` is at or above `current`.
pub fn plan(from: u32, current: u32) -> (r: Vec<usize>)
    requires
        from >= BASE_VERSION,
        current >= BASE_VERSION,
    ensures
        r@.len() == (if from < current { current - from } else { 0 }),
        forall|i: int| 0 <= i < r@.len() ==> #[trigger] r@[i] == from - BASE_VERSION + i,
{
    let mut r: Vec<usize> = Vec::new();
    if from >= current {
        return r;
    }
    let mut v: u32 = from;
    while v < current
        invariant
            from <= v <= current,
            from >= BASE_VERSION,
            r@.len() == v - from,
            forall|i: int| 0 <= i < r@.len() ==> #[trigger] r@[i] == from - BASE_VERSION + i,
        decreases current - v,
    {
        r.push((v - BASE_VERSION) as usize);
        v = v + 1;
    }
    r
}

/// Whether a load from `from` runs any step (and so backs up and rewrites the
/// file).
pub fn needs_migration(from: u32, current: u32) -> (r: bool)
    ensures
        r == (from < current),
{
    from < current
}

/// The version recorded after a load: the current one when steps ran, else
/// the stored one (a newer file keeps its own).
pub fn version_after_load(from: u32, current: u32) -> (r: u32)
    ensures
        r == (if from < current { current } else { from }),
{
    if from < current {
        current
    } else {
        from
    }
}

/// The new `base_url` of each profile among the members `es` of `servers`
/// that has a string one: its trailing slashes trimmed, in member order.
pub open spec fn base_url_fixes(es: Seq<(Seq<char>, serde_json::Value)>) -> Seq<(Seq<char>, Seq<char>)>
    decreases es.len(),
{
    if es.len() == 0 {
        Seq::empty()
    } else {
        let prev = base_url_fixes(es.drop_last());
        let (k, v) = es.last();
        match json_get_of(v, "base_url"@) {
            Some(u) => match json_at_str(u, ""@) {
                Some(t) => prev.push((k, trim_end_char(t, '/'))),
                None => prev,
            },
            None => prev,
        }
    }
}

/// What the first migration step sets: for each profile of the config
/// document's `servers` object with a string `base_url`, that URL without its
/// trailing slashes.
pub open spec fn spec_base_url_step(cfg: serde_json::Value) -> Seq<(Seq<char>, Seq<char>)> {
    match json_get_of(cfg, "servers"@) {
        Some(s) => match json_members(s) {
            Some(es) => base_url_fixes(es),
            None => Seq::empty(),
        },
        None => Seq::empty(),
    }
}

/// The first migration step, as the `(profile, base_url)` values it writes.
pub fn base_url_step(cfg: &serde_json::Value) -> (r: Vec<(String, String)>)
    ensures
        r@.map_values(|e: (String, String)| (e.0@, e.1@)) == spec_base_url_step(*cfg),
{
    let mut out: Vec<(String, String)> = Vec::new();
    let servers = match json_get(cfg, "servers") {
        Some(s) => s,
        None => {
            assert(out@.map_values(|e: (String, String)| (e.0@, e.1@)) =~= spec_base_url_step(*cfg));
            return out;
        },
    };
    let es = match json_entries(&servers) {
        Some(es) => es,
        None => {
            assert(out@.map_values(|e: (String, String)| (e.0@, e.1@)) =~= spec_base_url_step(*cfg));
            return out;
        },
    };
    let ghost ev = entries_view(es@);
    let mut i: usize = 0;
    while i < es.len()
        invariant
            i <= es@.len(),
            ev == entries_view(es@),
            out@.map_values(|e: (String, String)| (e.0@, e.1@)) == base_url_fixes(ev.take(i as int)),
        decreases es.len() - i,
    {
        proof {
            assert(ev.take(i + 1).drop_last() =~= ev.take(i as int));
            assert(ev.take(i + 1).last() == (es@[i as int].0@, es@[i as int].1));
        }
        let ghost before = out@;
        let (k, v) = &es[i];
        match json_get(v, "base_url") {
            Some(u) => match json_str(&u, "") {
                Some(t) => {
                    let fixed = normalize_base_url(t.as_str());
                    out.push((k.clone(), fixed));
                    proof {
                        assert(out@.map_values(|e: (String, String)| (e.0@, e.1@)) =~= before.map_values(
                            |e: (String, String)| (e.0@, e.1@),
                        ).push((k@, trim_end_char(t@, '/'))));
                    }
                },
                None => {},
            },
            None => {},
        }
        i = i + 1;
    }
    proof {
        assert(ev.take(ev.len() as int) =~= ev);
    }
    out
}

} // verus!
