//! Per-server cache of stable OpenProject lookups: `user id -> name`,
//! resolved `kind:name -> id`, and form `schema -> custom field names`. Each
//! entry carries the time it was written and is a miss once older than
//! [`CACHE_TTL_SECS`]. The caller supplies the current time; loading and
//! persisting the backing file is the caller's.

use vstd::prelude::*;
use crate::strmap::StrMap;
use crate::text::{chars_of, string_of, push_all, fmt_i64, dec_int};

verus! {

/// Entries older than one week are misses.
pub const CACHE_TTL_SECS: u64 = 604800;

/// The text `str::to_lowercase` (Unicode lowercase mapping) gives.
pub uninterp spec fn unicode_lower(s: Seq<char>) -> Seq<char>;

/// `str::to_lowercase`. The result is named by [`unicode_lower`].
#[verifier::external_body]
pub(crate) fn to_lowercase(s: &str) -> (r: String)
    ensures
        r@ == unicode_lower(s@),
{
    s.to_lowercase()
}

/// A cached user name (`None` when the user has none) and its write time.
#[derive(Debug, Clone)]
pub struct UserEntry {
    pub name: Option<String>,
    pub ts: u64,
}

/// A cached resolved id and its write time.
#[derive(Debug, Clone)]
pub struct ResolveEntry {
    pub id: String,
    pub ts: u64,
}

/// A cached schema (custom field key -> name) and its write time.
#[derive(Debug)]
pub struct SchemaEntry {
    pub fields: StrMap<String>,
    pub ts: u64,
}

/// The cache of one server profile.
#[derive(Debug)]
pub struct Cache {
    pub server: String,
    pub users: StrMap<UserEntry>,
    pub resolve: StrMap<ResolveEntry>,
    pub schemas: StrMap<SchemaEntry>,
}

/// An entry written at `ts` is still valid at `now` (a write time in the
/// future counts as fresh).
pub open spec fn is_fresh(ts: u64, now: u64) -> bool {
    now <= ts || now - ts <= CACHE_TTL_SECS
}

/// The key of a user id.
pub open spec fn user_key(id: i64) -> Seq<char> {
    dec_int(id as int)
}

/// The key of a resolved name: the kind, a colon, the lowercased name.
pub open spec fn resolve_key(kind: Seq<char>, name: Seq<char>) -> Seq<char> {
    kind + ":"@ + unicode_lower(name)
}

/// The view of an optional string.
pub open spec fn opt_text(o: Option<String>) -> Option<Seq<char>> {
    match o {
        Some(s) => Some(s@),
        None => None,
    }
}

fn fresh(ts: u64, now: u64) -> (r: bool)
    ensures
        r == is_fresh(ts, now),
{
    now <= ts || now - ts <= CACHE_TTL_SECS
}

fn user_key_of(id: i64) -> (r: String)
    ensures
        r@ == user_key(id),
{
    string_of(&fmt_i64(id))
}

fn resolve_key_of(kind: &str, name: &str) -> (r: String)
    ensures
        r@ == resolve_key(kind@, name@),
{
    let mut v = chars_of(kind);
    v.push(':');
    push_all(&mut v, &chars_of(to_lowercase(name).as_str()));
    proof {
        reveal_strlit(":");
        assert(v@ =~= kind@ + ":"@ + unicode_lower(name@));
    }
    string_of(&v)
}

/// A copy of a string map.
pub fn clone_text_map(m: &StrMap<String>) -> (r: StrMap<String>)
    ensures
        r@.dom() == m@.dom(),
        forall|k: Seq<char>| #[trigger] r@.dom().contains(k) ==> r@[k]@ == m@[k]@,
{
    proof {
        use_type_invariant(m);
        m.lemma_view();
    }
    let mut r: StrMap<String> = StrMap::new();
    let n = m.len();
    let mut i: usize = 0;
    while i < n
        invariant
            n == m.keys().len(),
            m.keys().len() == m.vals().len(),
            forall|k: Seq<char>| #[trigger] m@.dom().contains(k) <==> m.keys().contains(k),
            forall|j: int| 0 <= j < m.keys().len() ==> #[trigger] m@[m.keys()[j]] == m.vals()[j],
            i <= n,
            forall|k: Seq<char>| #[trigger]
                r@.dom().contains(k) <==> exists|j: int| 0 <= j < i && m.keys()[j] == k,
            forall|k: Seq<char>| #[trigger] r@.dom().contains(k) ==> r@[k]@ == m@[k]@,
        decreases n - i,
    {
        let k = m.key_at(i);
        let v = m.value_at(i);
        proof {
            assert(m@[m.keys()[i as int]] == m.vals()[i as int]);
        }
        r.insert(k.clone(), v.clone());
        i = i + 1;
    }
    proof {
        assert forall|k: Seq<char>| r@.dom().contains(k) <==> m@.dom().contains(k) by {
            if m.keys().contains(k) {
                let j = choose|j: int| 0 <= j < m.keys().len() && m.keys()[j] == k;
                assert(exists|j: int| 0 <= j < n && m.keys()[j] == k);
            }
        }
        assert(r@.dom() =~= m@.dom());
    }
    r
}

/// The cached name of a user at time `now`: `Some(name)` for a fresh entry
/// (the name itself may be absent), `None` for a miss.
pub open spec fn spec_get_user(c: Cache, id: i64, now: u64) -> Option<Option<Seq<char>>> {
    if c.users@.dom().contains(user_key(id)) && is_fresh(c.users@[user_key(id)].ts, now) {
        Some(opt_text(c.users@[user_key(id)].name))
    } else {
        None
    }
}

/// The cached id of a resolved name at time `now`.
pub open spec fn spec_get_resolve(c: Cache, kind: Seq<char>, name: Seq<char>, now: u64) -> Option<
    Seq<char>,
> {
    let k = resolve_key(kind, name);
    if c.resolve@.dom().contains(k) && is_fresh(c.resolve@[k].ts, now) {
        Some(c.resolve@[k].id@)
    } else {
        None
    }
}

impl Cache {
    /// An empty cache for `server`.
    pub fn for_server(server: &str) -> (c: Cache)
        ensures
            c.server@ == server@,
            c.users@ == Map::<Seq<char>, UserEntry>::empty(),
            c.resolve@ == Map::<Seq<char>, ResolveEntry>::empty(),
            c.schemas@ == Map::<Seq<char>, SchemaEntry>::empty(),
    {
        Cache {
            server: server.to_string(),
            users: StrMap::new(),
            resolve: StrMap::new(),
            schemas: StrMap::new(),
        }
    }

    /// The cached name of user `id`, if fresh at `now`.
    pub fn get_user(&self, id: i64, now: u64) -> (r: Option<Option<String>>)
        ensures
            match r {
                Some(n) => spec_get_user(*self, id, now) == Some(opt_text(n)),
                None => spec_get_user(*self, id, now) is None,
            },
    {
        let key = user_key_of(id);
        match self.users.get(key.as_str()) {
            Some(e) => {
                if fresh(e.ts, now) {
                    Some(
                        match &e.name {
                            Some(n) => Some(n.clone()),
                            None => None,
                        },
                    )
                } else {
                    None
                }
            },
            None => None,
        }
    }

    /// Record the name of user `id`, written at `now`.
    pub fn put_user(&mut self, id: i64, name: Option<String>, now: u64)
        ensures
            final(self).users@ == old(self).users@.insert(user_key(id), UserEntry { name, ts: now }),
            final(self).resolve@ == old(self).resolve@,
            final(self).schemas@ == old(self).schemas@,
            final(self).server == old(self).server,
    {
        let key = user_key_of(id);
        self.users.insert(key, UserEntry { name, ts: now });
    }

    /// The cached id of `kind`/`name` (name case ignored), if fresh at `now`.
    pub fn get_resolve(&self, kind: &str, name: &str, now: u64) -> (r: Option<String>)
        ensures
            opt_text(r) == spec_get_resolve(*self, kind@, name@, now),
    {
        let key = resolve_key_of(kind, name);
        match self.resolve.get(key.as_str()) {
            Some(e) => {
                if fresh(e.ts, now) {
                    Some(e.id.clone())
                } else {
                    None
                }
            },
            None => None,
        }
    }

    /// Record the id of `kind`/`name`, written at `now`.
    pub fn put_resolve(&mut self, kind: &str, name: &str, id: &str, now: u64)
        ensures
            final(self).resolve@.dom() == old(self).resolve@.dom().insert(resolve_key(kind@, name@)),
            final(self).resolve@[resolve_key(kind@, name@)].id@ == id@,
            final(self).resolve@[resolve_key(kind@, name@)].ts == now,
            forall|k: Seq<char>| #[trigger]
                old(self).resolve@.dom().contains(k) && k != resolve_key(kind@, name@) ==> final(self).resolve@[k] == old(self).resolve@[k],
            final(self).users@ == old(self).users@,
            final(self).schemas@ == old(self).schemas@,
            final(self).server == old(self).server,
    {
        let key = resolve_key_of(kind, name);
        self.resolve.insert(key, ResolveEntry { id: id.to_string(), ts: now });
    }

    /// The cached fields of schema `href`, if fresh at `now`.
    pub fn get_schema(&self, href: &str, now: u64) -> (r: Option<StrMap<String>>)
        ensures
            match r {
                Some(f) => self.schemas@.dom().contains(href@) && is_fresh(self.schemas@[href@].ts, now)
                    && f@.dom() == self.schemas@[href@].fields@.dom() && forall|k: Seq<char>| #[trigger]
                    f@.dom().contains(k) ==> f@[k]@ == self.schemas@[href@].fields@[k]@,
                None => !(self.schemas@.dom().contains(href@) && is_fresh(
                    self.schemas@[href@].ts,
                    now,
                )),
            },
    {
        match self.schemas.get(href) {
            Some(e) => {
                if fresh(e.ts, now) {
                    Some(clone_text_map(&e.fields))
                } else {
                    None
                }
            },
            None => None,
        }
    }

    /// Record the fields of schema `href`, written at `now`.
    pub fn put_schema(&mut self, href: &str, fields: StrMap<String>, now: u64)
        ensures
            final(self).schemas@ == old(self).schemas@.insert(href@, SchemaEntry { fields, ts: now }),
            final(self).users@ == old(self).users@,
            final(self).resolve@ == old(self).resolve@,
            final(self).server == old(self).server,
    {
        self.schemas.insert(href.to_string(), SchemaEntry { fields, ts: now });
    }
}

/// A user name written to the cache is read back at the same time, and other
/// users' entries are untouched.
pub proof fn lemma_user_read_after_write(
    before: Cache,
    after: Cache,
    id: i64,
    name: Option<String>,
    now: u64,
    other: i64,
)
    requires
        after.users@ == before.users@.insert(user_key(id), UserEntry { name, ts: now }),
    ensures
        spec_get_user(after, id, now) == Some(opt_text(name)),
        user_key(other) != user_key(id) ==> spec_get_user(after, other, now) == spec_get_user(
            before,
            other,
            now,
        ),
{
}

/// A resolved id written to the cache is read back at the same time under any
/// spelling of the name with the same lowercase form.
pub proof fn lemma_resolve_read_after_write(
    before: Cache,
    after: Cache,
    kind: Seq<char>,
    name: Seq<char>,
    id: Seq<char>,
    now: u64,
    name2: Seq<char>,
)
    requires
        after.resolve@.dom() == before.resolve@.dom().insert(resolve_key(kind, name)),
        after.resolve@[resolve_key(kind, name)].id@ == id,
        after.resolve@[resolve_key(kind, name)].ts == now,
        unicode_lower(name2) == unicode_lower(name),
    ensures
        spec_get_resolve(after, kind, name2, now) == Some(id),
{
}

} // verus!
