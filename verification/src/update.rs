//! Release notes shown in the update banner.

use vstd::prelude::*;
use crate::text::{chars_of, string_of, slice_vec};

verus! {

/// Repository whose releases back the changelog.
pub const UPDATE_OWNER: &'static str = "VitalyOstanin";

/// Repository name of the releases.
pub const UPDATE_REPO: &'static str = "laboro";

/// One release of the changelog: version without a leading `v`, name, notes.
#[derive(Debug, Clone, PartialEq, Eq)]
pub struct ReleaseNote {
    pub version: String,
    pub name: Option<String>,
    pub body: String,
    pub published_at: Option<String>,
}

/// A tag without one leading `v` or `V`.
pub open spec fn spec_strip_v(tag: Seq<char>) -> Seq<char> {
    if tag.len() > 0 && (tag[0] == 'v' || tag[0] == 'V') {
        tag.subrange(1, tag.len() as int)
    } else {
        tag
    }
}

/// A tag without one leading `v` or `V` (`v1.2.3` -> `1.2.3`).
pub fn strip_v(tag: &str) -> (r: String)
    ensures
        r@ == spec_strip_v(tag@),
{
    let v = chars_of(tag);
    if v.len() > 0 && (v[0] == 'v' || v[0] == 'V') {
        string_of(&slice_vec(&v, 1, v.len()))
    } else {
        string_of(&v)
    }
}

/// The text `semver::Version::parse(s)` then `to_string` gives, when `s`
/// parses as a semantic version.
pub uninterp spec fn semver_text(s: Seq<char>) -> Option<Seq<char>>;

/// The order of two semantic versions as `semver` compares them (major,
/// minor, patch, pre-release, build): negative, zero or positive.
pub uninterp spec fn semver_order(a: Seq<char>, b: Seq<char>) -> int;

/// `semver::Version::parse(s)` then `to_string`: the normalized version text,
/// `None` when `s` is not a semantic version. Named by [`semver_text`].
#[verifier::external_body]
fn version_text(s: &str) -> (r: Option<String>)
    ensures
        match r {
            Some(t) => semver_text(s@) == Some(t@),
            None => semver_text(s@) is None,
        },
{
    semver::Version::parse(s).ok().map(|v| v.to_string())
}

/// `Version::cmp` of the two parsed versions, as -1, 0 or 1. Named by
/// [`semver_order`]; the order is `Ord`'s, so swapping the arguments negates
/// it. Both texts must parse (else the parse would be unwrapped on an error).
#[verifier::external_body]
fn compare_versions(a: &str, b: &str) -> (r: i8)
    requires
        semver_text(a@) is Some,
        semver_text(b@) is Some,
    ensures
        r == semver_order(a@, b@),
        -1 <= r <= 1,
        semver_order(b@, a@) == -r,
{
    let x = semver::Version::parse(a).unwrap();
    let y = semver::Version::parse(b).unwrap();
    match x.cmp(&y) {
        std::cmp::Ordering::Less => -1,
        std::cmp::Ordering::Equal => 0,
        std::cmp::Ordering::Greater => 1,
    }
}

/// A release as the GitHub releases API lists it (the fields read here).
#[derive(Debug, Clone)]
pub struct GhRelease {
    pub tag_name: String,
    pub name: Option<String>,
    pub body: Option<String>,
    pub published_at: Option<String>,
    pub draft: bool,
    pub prerelease: bool,
}

/// The release is shown as newer than `current`: published (no draft, no
/// pre-release flag), its tag a semantic version (after one leading `v`), and
/// strictly newer than `current` when `current` itself is a version.
pub open spec fn is_newer_release(current: Seq<char>, rel: GhRelease) -> bool {
    let key = spec_strip_v(rel.tag_name@);
    let cur = spec_strip_v(current);
    &&& !rel.draft
    &&& !rel.prerelease
    &&& semver_text(key) is Some
    &&& (semver_text(cur) is Some ==> semver_order(key, cur) > 0)
}

/// The positions of the releases shown, in the order listed.
pub open spec fn newer_positions(current: Seq<char>, rels: Seq<GhRelease>) -> Seq<int>
    decreases rels.len(),
{
    if rels.len() == 0 {
        Seq::empty()
    } else {
        let prev = newer_positions(current, rels.drop_last());
        if is_newer_release(current, rels.last()) {
            prev.push(rels.len() - 1)
        } else {
            prev
        }
    }
}

/// The view of an optional string.
pub open spec fn opt_text(o: Option<String>) -> Option<Seq<char>> {
    match o {
        Some(s) => Some(s@),
        None => None,
    }
}

/// `note` is the changelog entry of `rel`: the normalized version, the name,
/// the notes (empty when absent) and the publication time.
pub open spec fn is_note_of(rel: GhRelease, note: ReleaseNote) -> bool {
    &&& semver_text(spec_strip_v(rel.tag_name@)) == Some(note.version@)
    &&& opt_text(note.name) == opt_text(rel.name)
    &&& note.body@ == (match rel.body {
        Some(b) => b@,
        None => Seq::<char>::empty(),
    })
    &&& opt_text(note.published_at) == opt_text(rel.published_at)
}

/// The version key of the release at position `j`.
pub open spec fn key_at(rels: Seq<GhRelease>, j: int) -> Seq<char> {
    spec_strip_v(rels[j].tag_name@)
}

/// `r` lists, newest first, the releases at positions `pos` of `rels`:
/// `perm[k]` is the index into `pos` of the release behind `r[k]`; each
/// version is at least the next one, and releases of equal version keep their
/// listed order.
pub open spec fn is_changelog(rels: Seq<GhRelease>, pos: Seq<int>, r: Seq<ReleaseNote>, perm: Seq<int>) -> bool {
    &&& r.len() == pos.len()
    &&& perm.len() == r.len()
    &&& forall|k: int| 0 <= k < r.len() ==> 0 <= #[trigger] perm[k] < pos.len()
    &&& forall|k: int| 0 <= k < r.len() ==> 0 <= pos[perm[k]] < rels.len() && is_note_of(
        rels[pos[perm[k]]],
        #[trigger] r[k],
    )
    &&& forall|k: int, l: int| 0 <= k < l < r.len() ==> #[trigger] perm[k] != #[trigger] perm[l]
    &&& forall|k: int| 0 <= k < r.len() - 1 ==> semver_order(
        key_at(rels, pos[#[trigger] perm[k]]),
        key_at(rels, pos[perm[k + 1]]),
    ) >= 0
    &&& forall|k: int|
        0 <= k < r.len() - 1 && semver_order(
            key_at(rels, pos[#[trigger] perm[k]]),
            key_at(rels, pos[perm[k + 1]]),
        ) == 0 ==> perm[k] < perm[k + 1]
}

fn clone_opt(o: &Option<String>) -> (r: Option<String>)
    ensures
        opt_text(r) == opt_text(*o),
{
    match o {
        Some(s) => Some(s.clone()),
        None => None,
    }
}

/// The releases strictly newer than `current`, newest first: drafts,
/// pre-releases and tags that are not semantic versions are dropped; a
/// `current` that is not a version keeps every published release.
pub fn newer_release_notes(current: &str, releases: Vec<GhRelease>) -> (r: Vec<ReleaseNote>)
    ensures
        exists|perm: Seq<int>| is_changelog(releases@, newer_positions(current@, releases@), r@, perm),
{
    let ghost rels = releases@;
    let cur = strip_v(current);
    let cur_valid = version_text(cur.as_str()).is_some();
    // The kept releases in listed order, each with its version key.
    let mut keys: Vec<String> = Vec::new();
    let mut notes: Vec<ReleaseNote> = Vec::new();
    let mut i: usize = 0;
    while i < releases.len()
        invariant
            rels == releases@,
            i <= rels.len(),
            cur@ == spec_strip_v(current@),
            cur_valid == (semver_text(cur@) is Some),
            keys@.len() == notes@.len(),
            keys@.len() == newer_positions(current@, rels.take(i as int)).len(),
            forall|k: int| 0 <= k < keys@.len() ==> {
                let j = #[trigger] newer_positions(current@, rels.take(i as int))[k];
                &&& 0 <= j < i
                &&& keys@[k]@ == key_at(rels, j)
                &&& is_note_of(rels[j], notes@[k])
            },
        decreases releases.len() - i,
    {
        let rel = &releases[i];
        let ghost prefix = rels.take(i as int);
        let ghost next = rels.take(i + 1);
        proof {
            assert(next.drop_last() =~= prefix);
            assert(next.last() == rels[i as int]);
        }
        let key = strip_v(rel.tag_name.as_str());
        let mut keep = !rel.draft && !rel.prerelease;
        let mut version: Option<String> = None;
        if keep {
            version = version_text(key.as_str());
            match &version {
                Some(_) => {
                    if cur_valid && compare_versions(key.as_str(), cur.as_str()) <= 0 {
                        keep = false;
                    }
                },
                None => {
                    keep = false;
                },
            }
        }
        proof {
            assert(keep == is_newer_release(current@, rels[i as int]));
        }
        if keep {
            let v = match version {
                Some(t) => t,
                None => String::new(),
            };
            let body = match &rel.body {
                Some(b) => b.clone(),
                None => String::new(),
            };
            let note = ReleaseNote {
                version: v,
                name: clone_opt(&rel.name),
                body,
                published_at: clone_opt(&rel.published_at),
            };
            proof {
                assert(is_note_of(rels[i as int], note));
            }
            keys.push(key);
            notes.push(note);
            proof {
                assert(newer_positions(current@, next) == newer_positions(current@, prefix).push(i as int));
                assert forall|k: int| 0 <= k < keys@.len() implies {
                    let j = #[trigger] newer_positions(current@, next)[k];
                    &&& 0 <= j < i + 1
                    &&& keys@[k]@ == key_at(rels, j)
                    &&& is_note_of(rels[j], notes@[k])
                } by {
                    if k < keys@.len() - 1 {
                        assert(newer_positions(current@, next)[k] == newer_positions(current@, prefix)[k]);
                    }
                }
            }
        } else {
            proof {
                assert(newer_positions(current@, next) == newer_positions(current@, prefix));
            }
        }
        i = i + 1;
    }
    let ghost pos = newer_positions(current@, rels);
    proof {
        assert(rels.take(rels.len() as int) =~= rels);
    }
    // Stable insertion, newest first.
    let n = keys.len();
    let ghost sk = keys@;
    let ghost sn = notes@;
    let ghost mut perm: Seq<int> = Seq::empty();
    let mut rest_keys = keys;
    let mut rest_notes = notes;
    let mut out: Vec<ReleaseNote> = Vec::new();
    let mut out_keys: Vec<String> = Vec::new();
    let mut t: usize = 0;
    while t < n
        invariant
            n == sk.len(),
            sk.len() == sn.len(),
            n == pos.len(),
            t <= n,
            rest_keys@ == sk.subrange(t as int, n as int),
            rest_notes@ == sn.subrange(t as int, n as int),
            forall|k: int| 0 <= k < n ==> {
                let j = #[trigger] pos[k];
                &&& 0 <= j < rels.len()
                &&& sk[k]@ == key_at(rels, j)
                &&& is_note_of(rels[j], sn[k])
                &&& semver_text(sk[k]@) is Some
            },
            out@.len() == t,
            out_keys@.len() == t,
            perm.len() == t,
            forall|k: int| 0 <= k < t ==> 0 <= #[trigger] perm[k] < t,
            forall|k: int| 0 <= k < t ==> out@[k] == sn[#[trigger] perm[k]] && out_keys@[k] == sk[perm[k]],
            forall|k: int, l: int| 0 <= k < l < t ==> #[trigger] perm[k] != #[trigger] perm[l],
            forall|k: int| 0 <= k < t - 1 ==> semver_order(#[trigger] out_keys@[k]@, out_keys@[k + 1]@) >= 0,
            forall|k: int|
                0 <= k < t - 1 && semver_order(#[trigger] out_keys@[k]@, out_keys@[k + 1]@) == 0
                    ==> perm[k] < perm[k + 1],
        decreases n - t,
    {
        let key = rest_keys.remove(0);
        let note = rest_notes.remove(0);
        proof {
            assert(key == sk[t as int]);
            assert(note == sn[t as int]);
            assert(rest_keys@ =~= sk.subrange(t + 1, n as int));
            assert(rest_notes@ =~= sn.subrange(t + 1, n as int));
            let j = pos[t as int];
            assert(semver_text(sk[t as int]@) is Some);
            assert forall|k: int| 0 <= k < t implies semver_text(#[trigger] out_keys@[k]@) is Some by {
                let m = perm[k];
                assert(out_keys@[k] == sk[m]);
                let jm = pos[m];
            }
        }
        let mut p: usize = 0;
        let mut found = false;
        while !found && p < out_keys.len()
            invariant
                p <= out_keys@.len(),
                out_keys@.len() == t,
                semver_text(key@) is Some,
                forall|k: int| 0 <= k < t ==> semver_text(#[trigger] out_keys@[k]@) is Some,
                forall|q: int| 0 <= q < p ==> semver_order(key@, #[trigger] out_keys@[q]@) <= 0,
                forall|q: int| 0 <= q < p ==> semver_order(#[trigger] out_keys@[q]@, key@) >= 0,
                found ==> p < out_keys@.len() && semver_order(key@, out_keys@[p as int]@) > 0,
            decreases (out_keys@.len() - p) * 2 + (if found { 0int } else { 1int }),
        {
            if compare_versions(key.as_str(), out_keys[p].as_str()) > 0 {
                found = true;
            } else {
                p = p + 1;
            }
        }
        let ghost old_keys = out_keys@;
        let ghost old_out = out@;
        let ghost old_perm = perm;
        out_keys.insert(p, key);
        out.insert(p, note);
        proof {
            perm = old_perm.insert(p as int, t as int);
            assert(out_keys@ == old_keys.insert(p as int, key));
            assert(out@ == old_out.insert(p as int, note));
            assert forall|k: int| 0 <= k < t + 1 implies 0 <= #[trigger] perm[k] < t + 1 by {
                if k < p {
                    assert(perm[k] == old_perm[k]);
                } else if k > p {
                    assert(perm[k] == old_perm[k - 1]);
                }
            }
            assert forall|k: int| 0 <= k < t + 1 implies out@[k] == sn[#[trigger] perm[k]]
                && out_keys@[k] == sk[perm[k]] by {
                if k < p {
                    assert(perm[k] == old_perm[k] && out@[k] == old_out[k] && out_keys@[k] == old_keys[k]);
                } else if k > p {
                    assert(perm[k] == old_perm[k - 1] && out@[k] == old_out[k - 1] && out_keys@[k]
                        == old_keys[k - 1]);
                }
            }
            assert forall|k: int, l: int| 0 <= k < l < t + 1 implies #[trigger] perm[k]
                != #[trigger] perm[l] by {
                if k < p && l < p {
                    assert(perm[k] == old_perm[k] && perm[l] == old_perm[l]);
                } else if k < p && l == p {
                    assert(perm[k] == old_perm[k]);
                } else if k < p {
                    assert(perm[k] == old_perm[k] && perm[l] == old_perm[l - 1]);
                } else if k == p {
                    assert(perm[l] == old_perm[l - 1]);
                } else {
                    assert(perm[k] == old_perm[k - 1] && perm[l] == old_perm[l - 1]);
                }
            }
            assert forall|k: int| 0 <= k < t + 1 - 1 implies semver_order(
                #[trigger] out_keys@[k]@,
                out_keys@[k + 1]@,
            ) >= 0 && (semver_order(out_keys@[k]@, out_keys@[k + 1]@) == 0 ==> perm[k] < perm[k + 1]) by {
                if k + 1 < p {
                    assert(out_keys@[k] == old_keys[k] && out_keys@[k + 1] == old_keys[k + 1]);
                    assert(perm[k] == old_perm[k] && perm[k + 1] == old_perm[k + 1]);
                } else if k + 1 == p {
                    assert(out_keys@[k] == old_keys[k] && out_keys@[k + 1] == key);
                    assert(semver_order(old_keys[k]@, key@) >= 0);
                    assert(perm[k] == old_perm[k] && perm[k + 1] == t);
                } else if k == p {
                    assert(out_keys@[k] == key && out_keys@[k + 1] == old_keys[k]);
                    assert(found);
                } else {
                    assert(out_keys@[k] == old_keys[k - 1] && out_keys@[k + 1] == old_keys[k]);
                    assert(perm[k] == old_perm[k - 1] && perm[k + 1] == old_perm[k]);
                }
            }
        }
        t = t + 1;
    }
    proof {
        assert forall|k: int| 0 <= k < out@.len() - 1 implies semver_order(
            key_at(rels, pos[#[trigger] perm[k]]),
            key_at(rels, pos[perm[k + 1]]),
        ) >= 0 && (semver_order(key_at(rels, pos[perm[k]]), key_at(rels, pos[perm[k + 1]])) == 0
            ==> perm[k] < perm[k + 1]) by {
            assert(out_keys@[k] == sk[perm[k]]);
            assert(out_keys@[k + 1] == sk[perm[k + 1]]);
            let a = perm[k];
            let b = perm[k + 1];
            let ja = pos[a];
            let jb = pos[b];
            assert(semver_order(out_keys@[k]@, out_keys@[k + 1]@) >= 0);
        }
        assert forall|k: int| 0 <= k < out@.len() implies 0 <= pos[perm[k]] < rels.len() && is_note_of(
            rels[pos[perm[k]]],
            #[trigger] out@[k],
        ) by {
            assert(out@[k] == sn[perm[k]]);
            let jm = pos[perm[k]];
        }
        assert(is_changelog(rels, pos, out@, perm));
    }
    out
}

proof fn lemma_positions_newer(current: Seq<char>, rels: Seq<GhRelease>)
    ensures
        forall|k: int| 0 <= k < newer_positions(current, rels).len() ==> {
            let j = #[trigger] newer_positions(current, rels)[k];
            0 <= j < rels.len() && is_newer_release(current, rels[j])
        },
    decreases rels.len(),
{
    if rels.len() > 0 {
        lemma_positions_newer(current, rels.drop_last());
        let prev = newer_positions(current, rels.drop_last());
        assert forall|k: int| 0 <= k < newer_positions(current, rels).len() implies {
            let j = #[trigger] newer_positions(current, rels)[k];
            0 <= j < rels.len() && is_newer_release(current, rels[j])
        } by {
            if k < prev.len() {
                assert(newer_positions(current, rels)[k] == prev[k]);
                assert(rels[prev[k]] == rels.drop_last()[prev[k]]);
            }
        }
    }
}

/// Every release the changelog lists is published (no draft, no
/// pre-release flag) and, when the running version is a version, strictly
/// newer than it.
pub proof fn law_changelog_only_newer(current: Seq<char>, rels: Seq<GhRelease>, r: Seq<ReleaseNote>, perm: Seq<int>)
    requires
        is_changelog(rels, newer_positions(current, rels), r, perm),
    ensures
        forall|k: int| 0 <= k < r.len() ==> {
            let rel = rels[newer_positions(current, rels)[#[trigger] perm[k]]];
            &&& !rel.draft
            &&& !rel.prerelease
            &&& semver_text(spec_strip_v(current)) is Some ==> semver_order(
                spec_strip_v(rel.tag_name@),
                spec_strip_v(current),
            ) > 0
        },
{
    lemma_positions_newer(current, rels);
    let pos = newer_positions(current, rels);
    assert forall|k: int| 0 <= k < r.len() implies {
        let rel = rels[pos[#[trigger] perm[k]]];
        &&& !rel.draft
        &&& !rel.prerelease
        &&& semver_text(spec_strip_v(current)) is Some ==> semver_order(
            spec_strip_v(rel.tag_name@),
            spec_strip_v(current),
        ) > 0
    } by {
        let m = perm[k];
        assert(0 <= m < pos.len());
        let j = pos[m];
        assert(is_newer_release(current, rels[j]));
    }
}

} // verus!
