//! Per-(server, user) history of the work packages the user was ever assigned
//! to, kept as a sorted list of unique ids per `base_url#uid` key. Reading and
//! writing the history file is the caller's; the lookups and merges are here.

use vstd::prelude::*;
use std::collections::BTreeSet;
use vstd::std_specs::btree::spec_btree_keys_iter;
use vstd::std_specs::cmp::OrdSpec;
use vstd::std_specs::iter::IteratorSpec;
use crate::strmap::StrMap;
use crate::text::{chars_of, string_of, push_all};

verus! {

/// The history key of a user on a server.
pub open spec fn spec_history_key(base_url: Seq<char>, uid: Seq<char>) -> Seq<char> {
    base_url + "#"@ + uid
}

/// The history key of a user on a server: `<base_url>#<uid>`.
pub fn history_key(base_url: &str, uid: &str) -> (r: String)
    ensures
        r@ == spec_history_key(base_url@, uid@),
{
    let mut v = chars_of(base_url);
    v.push('#');
    push_all(&mut v, &chars_of(uid));
    proof {
        reveal_strlit("#");
        assert(v@ =~= base_url@ + "#"@ + uid@);
    }
    string_of(&v)
}

/// Strictly ascending.
pub open spec fn strictly_sorted(s: Seq<i64>) -> bool {
    forall|i: int, j: int| 0 <= i < j < s.len() ==> s[i] < s[j]
}

/// `r` is `ids` sorted with duplicates removed.
pub open spec fn is_sorted_set_of(ids: Seq<i64>, r: Seq<i64>) -> bool {
    strictly_sorted(r) && forall|x: i64| r.contains(x) <==> ids.contains(x)
}

/// `i64`'s order obeys the laws of a total order, also through references,
/// and `Less` is `<`.
pub open spec fn i64_order_laws() -> bool {
    &&& vstd::laws_cmp::obeys_cmp::<i64>()
    &&& vstd::laws_cmp::obeys_cmp::<&i64>()
    &&& forall|a: &i64, b: &i64| (#[trigger] OrdSpec::cmp_spec(&a, &b) is Less) <==> *a < *b
}

proof fn lemma_i64_ordered()
    ensures
        i64_order_laws(),
{
    broadcast use vstd::laws_cmp::group_laws_cmp;

}

/// A sequence in increasing order holds strictly ascending ids.
proof fn lemma_keys_ascending(keys: Seq<&i64>)
    requires
        i64_order_laws(),
        vstd::std_specs::btree::increasing_seq(keys),
    ensures
        forall|a: int, b: int| 0 <= a < b < keys.len() ==> *keys[a] < *keys[b],
{
    broadcast use vstd::std_specs::btree::axiom_increasing_seq_meaning;

    assert forall|a: int, b: int| 0 <= a < b < keys.len() implies *keys[a] < *keys[b] by {
        let x: &i64 = keys[a];
        let y: &i64 = keys[b];
        assert(OrdSpec::cmp_spec(&x, &y) is Less);
    }
}

/// Sort ids ascending and drop duplicates: the ids of a `BTreeSet`, in its
/// ascending iteration order.
pub fn dedup_sorted(ids: &Vec<i64>) -> (r: Vec<i64>)
    ensures
        is_sorted_set_of(ids@, r@),
{
    broadcast use vstd::std_specs::btree::group_btree_axioms;

    proof {
        lemma_i64_ordered();
    }
    let mut set: BTreeSet<i64> = BTreeSet::new();
    let mut i: usize = 0;
    while i < ids.len()
        invariant
            i64_order_laws(),
            i <= ids@.len(),
            forall|x: i64| set@.contains(x) <==> ids@.take(i as int).contains(x),
        decreases ids.len() - i,
    {
        let ghost before = set@;
        set.insert(ids[i]);
        proof {
            let p = ids@.take(i as int);
            let q = ids@.take(i + 1);
            assert(q =~= p.push(ids@[i as int]));
            assert(set@ == before.insert(ids@[i as int]));
            assert forall|x: i64| set@.contains(x) <==> q.contains(x) by {
                if q.contains(x) {
                    let k = choose|k: int| 0 <= k < q.len() && q[k] == x;
                    if k < p.len() {
                        assert(p[k] == x);
                    }
                }
                if p.contains(x) {
                    let k = choose|k: int| 0 <= k < p.len() && p[k] == x;
                    assert(q[k] == x);
                }
                if x == ids@[i as int] {
                    assert(q[i as int] == x);
                }
            }
        }
        i = i + 1;
    }
    proof {
        assert(ids@.take(ids@.len() as int) =~= ids@);
    }
    let mut out: Vec<i64> = Vec::new();
    for x in it: set.iter()
        invariant
            i64_order_laws(),
            out@.len() == it.index(),
            forall|k: int| 0 <= k < it.index() ==> out@[k] == *it.seq()[k],
    {
        out.push(*x);
    }
    proof {
        let keys = spec_btree_keys_iter(&set).remaining();
        assert(out@.len() == keys.len());
        lemma_keys_ascending(keys);
        assert forall|a: int, b: int| 0 <= a < b < out@.len() implies out@[a] < out@[b] by {
            assert(out@[a] == *keys[a] && out@[b] == *keys[b]);
        }
        assert forall|x: i64| out@.contains(x) <==> ids@.contains(x) by {
            if out@.contains(x) {
                let k = choose|k: int| 0 <= k < out@.len() && out@[k] == x;
                assert(keys.unref()[k] == *keys[k]);
                assert(keys.unref().to_set().contains(*keys[k]));
            }
            if ids@.contains(x) {
                assert(set@.contains(x));
                assert(keys.unref().to_set().contains(x));
                let k = choose|k: int| 0 <= k < keys.len() && keys.unref()[k] == x;
                assert(*keys[k] == keys.unref()[k]);
                assert(out@[k] == x);
            }
        }
    }
    out
}

/// The history of a user on a server, from the parsed history map: sorted,
/// unique, empty when the key is absent.
pub fn load(map: &StrMap<Vec<i64>>, base_url: &str, uid: &str) -> (r: Vec<i64>)
    ensures
        map@.dom().contains(spec_history_key(base_url@, uid@)) ==> is_sorted_set_of(
            map@[spec_history_key(base_url@, uid@)]@,
            r@,
        ),
        !map@.dom().contains(spec_history_key(base_url@, uid@)) ==> r@.len() == 0,
        strictly_sorted(r@),
        forall|x: i64| #[trigger] r@.contains(x) <==> history_of(map@, spec_history_key(base_url@, uid@)).contains(x),
{
    let key = history_key(base_url, uid);
    match map.get(key.as_str()) {
        Some(ids) => dedup_sorted(ids),
        None => Vec::new(),
    }
}

/// `r` is the sorted, unique union of `existing` and `ids`.
pub open spec fn is_merge_of(existing: Seq<i64>, ids: Seq<i64>, r: Seq<i64>) -> bool {
    strictly_sorted(r) && forall|x: i64| r.contains(x) <==> (existing.contains(x) || ids.contains(x))
}

/// The stored history after merging `ids` into `existing`: the sorted, unique
/// union.
pub fn merge_history(existing: &Vec<i64>, ids: &[i64]) -> (r: Vec<i64>)
    ensures
        is_merge_of(existing@, ids@, r@),
{
    let mut all: Vec<i64> = Vec::new();
    let mut i: usize = 0;
    while i < existing.len()
        invariant
            i <= existing@.len(),
            all@ == existing@.subrange(0, i as int),
        decreases existing.len() - i,
    {
        all.push(existing[i]);
        i = i + 1;
    }
    let mut j: usize = 0;
    while j < ids.len()
        invariant
            j <= ids@.len(),
            all@ == existing@ + ids@.subrange(0, j as int),
        decreases ids.len() - j,
    {
        all.push(ids[j]);
        j = j + 1;
    }
    assert(all@ =~= existing@ + ids@);
    let r = dedup_sorted(&all);
    proof {
        assert forall|x: i64| all@.contains(x) <==> (existing@.contains(x) || ids@.contains(x)) by {
            if all@.contains(x) {
                let k = choose|k: int| 0 <= k < all@.len() && all@[k] == x;
                if k < existing@.len() {
                    assert(existing@[k] == x);
                } else {
                    assert(ids@[k - existing@.len()] == x);
                }
            }
            if existing@.contains(x) {
                let k = choose|k: int| 0 <= k < existing@.len() && existing@[k] == x;
                assert(all@[k] == x);
            }
            if ids@.contains(x) {
                let k = choose|k: int| 0 <= k < ids@.len() && ids@[k] == x;
                assert(all@[existing@.len() + k] == x);
            }
        }
    }
    r
}

/// Two strictly ascending lists with the same members are the same list.
proof fn lemma_sorted_members_determine(a: Seq<i64>, b: Seq<i64>)
    requires
        strictly_sorted(a),
        strictly_sorted(b),
        forall|x: i64| a.contains(x) <==> b.contains(x),
    ensures
        a == b,
    decreases a.len() + b.len(),
{
    if a.len() == 0 {
        if b.len() > 0 {
            assert(b.contains(b[0]));
        }
        assert(a =~= b);
    } else if b.len() == 0 {
        assert(a.contains(a[0]));
    } else {
        assert(a.contains(a[0]));
        assert(b.contains(b[0]));
        let ka = choose|k: int| 0 <= k < a.len() && a[k] == b[0];
        let kb = choose|k: int| 0 <= k < b.len() && b[k] == a[0];
        assert(a[0] <= a[ka]);
        assert(b[0] <= b[kb]);
        assert(a[0] == b[0]);
        let ta = a.drop_first();
        let tb = b.drop_first();
        assert forall|x: i64| ta.contains(x) <==> tb.contains(x) by {
            if ta.contains(x) {
                let k = choose|k: int| 0 <= k < ta.len() && ta[k] == x;
                assert(a[k + 1] == x);
                assert(a.contains(x));
                let j = choose|j: int| 0 <= j < b.len() && b[j] == x;
                assert(a[0] < a[k + 1]);
                assert(j != 0);
                assert(tb[j - 1] == x);
            }
            if tb.contains(x) {
                let k = choose|k: int| 0 <= k < tb.len() && tb[k] == x;
                assert(b[k + 1] == x);
                assert(b.contains(x));
                let j = choose|j: int| 0 <= j < a.len() && a[j] == x;
                assert(b[0] < b[k + 1]);
                assert(j != 0);
                assert(ta[j - 1] == x);
            }
        }
        lemma_sorted_members_determine(ta, tb);
        assert(a =~= b) by {
            assert forall|i: int| 0 <= i < a.len() implies a[i] == b[i] by {
                if i > 0 {
                    assert(a[i] == ta[i - 1]);
                    assert(b[i] == tb[i - 1]);
                }
            }
        }
    }
}

/// Saving a merged history and loading it back gives exactly what was saved:
/// the sorted union of the earlier history and the new ids.
pub proof fn law_saved_history_loads_back(existing: Seq<i64>, ids: Seq<i64>, saved: Seq<i64>, loaded: Seq<i64>)
    requires
        is_merge_of(existing, ids, saved),
        is_sorted_set_of(saved, loaded),
    ensures
        loaded == saved,
        forall|x: i64| loaded.contains(x) <==> (existing.contains(x) || ids.contains(x)),
{
    lemma_sorted_members_determine(loaded, saved);
}

/// Merging the same ids twice changes nothing the second time.
pub proof fn law_merge_idempotent(existing: Seq<i64>, ids: Seq<i64>, once: Seq<i64>, twice: Seq<i64>)
    requires
        is_merge_of(existing, ids, once),
        is_merge_of(once, ids, twice),
    ensures
        twice == once,
{
    lemma_sorted_members_determine(twice, once);
}

/// The ids stored under `key` in a history map; none when the key is absent.
pub open spec fn history_of(m: Map<Seq<char>, Vec<i64>>, key: Seq<char>) -> Set<i64> {
    if m.dom().contains(key) {
        m[key]@.to_set()
    } else {
        Set::empty()
    }
}

/// `after` is the history map `before` with `ids` merged under `key`: that
/// entry holds the sorted, unique union of what `key` held and `ids`; every
/// other entry is untouched.
pub open spec fn saved_into(
    before: Map<Seq<char>, Vec<i64>>,
    after: Map<Seq<char>, Vec<i64>>,
    key: Seq<char>,
    ids: Seq<i64>,
) -> bool {
    &&& after.dom() == before.dom().insert(key)
    &&& forall|k: Seq<char>| k != key && #[trigger] before.dom().contains(k) ==> after[k] == before[k]
    &&& strictly_sorted(after[key]@)
    &&& forall|x: i64| #[trigger] after[key]@.contains(x) <==> (history_of(before, key).contains(x) || ids.contains(x))
}

/// Merge `ids` into the history of `uid` on `base_url` held in `map`.
pub fn save_history(map: &mut StrMap<Vec<i64>>, base_url: &str, uid: &str, ids: &[i64])
    ensures
        saved_into(old(map)@, final(map)@, spec_history_key(base_url@, uid@), ids@),
{
    let ghost before = map@;
    let ghost key = spec_history_key(base_url@, uid@);
    let existing = load(map, base_url, uid);
    let merged = merge_history(&existing, ids);
    proof {
        assert forall|x: i64| #[trigger] merged@.contains(x) <==> (history_of(before, key).contains(x) || ids@.contains(x)) by {
            if before.dom().contains(key) {
                assert(existing@.contains(x) <==> before[key]@.contains(x));
            }
        }
    }
    map.insert(history_key(base_url, uid), merged);
    proof {
        assert(map@.dom() =~= before.dom().insert(key));
    }
}

/// Saves under one key never change what another key loads, and the key
/// saved under then holds its earlier ids and the new ones.
pub proof fn law_saves_do_not_mix(
    before: Map<Seq<char>, Vec<i64>>,
    after: Map<Seq<char>, Vec<i64>>,
    key: Seq<char>,
    ids: Seq<i64>,
    other: Seq<char>,
)
    requires
        saved_into(before, after, key, ids),
        other != key,
    ensures
        history_of(after, other) == history_of(before, other),
        history_of(after, key) == history_of(before, key).union(ids.to_set()),
{
    if before.dom().contains(other) {
        assert(after[other] == before[other]);
    }
    assert(history_of(after, key) =~= history_of(before, key).union(ids.to_set())) by {
        assert forall|x: i64| history_of(after, key).contains(x) <==> history_of(before, key).union(ids.to_set()).contains(x) by {
            assert(after[key]@.contains(x) <==> (history_of(before, key).contains(x) || ids.contains(x)));
        }
    }
    assert(history_of(after, other) =~= history_of(before, other));
}

} // verus!
