//! OpenProject login rules: which server a token is for, the token as stored,
//! the account identity read back from `users/me`, and which other profiles
//! could already hold the same account (same base URL). The calls that
//! validate a token and read the other profiles' identities are made by the
//! caller, which hands the results back to these functions.

use vstd::prelude::*;
use crate::config::{BackendKind, Config, ServerProfile, unknown_server_message};
use crate::error::Error;
use crate::json::{json_str, json_text};
use crate::text::{chars_of, string_of, trim, trim_ws, concat_str};
use crate::strmap::str_eq;

verus! {

/// The identity of an account: its login when there is one, else its id.
pub open spec fn spec_identity(login: Option<Seq<char>>, id: Option<Seq<char>>) -> Option<Seq<char>> {
    match login {
        Some(l) => Some(l),
        None => id,
    }
}

/// The view of an optional string.
pub open spec fn opt_seq(o: Option<String>) -> Option<Seq<char>> {
    match o {
        Some(s) => Some(s@),
        None => None,
    }
}

/// An account's identity from the `login` string and the JSON text of the
/// `id` of a `users/me` payload.
pub fn identity_from(login: Option<String>, id_text: Option<String>) -> (r: Option<String>)
    ensures
        opt_seq(r) == spec_identity(opt_seq(login), opt_seq(id_text)),
{
    match login {
        Some(l) => Some(l),
        None => id_text,
    }
}

/// Stable account identity from a `users/me` payload: the login if it is a
/// string, otherwise the `id` rendered as JSON text.
pub fn identity(me: &serde_json::Value) -> (r: Option<String>)
    ensures
        opt_seq(r) == spec_identity(
            crate::json::json_at_str(*me, "/login"@),
            crate::json::json_at_text(*me, "/id"@),
        ),
{
    identity_from(json_str(me, "/login"), json_text(me, "/id"))
}

/// The message refusing a token for a GitHub server.
pub open spec fn github_login_message() -> Seq<char> {
    "the github backend authenticates via gh; run 'gh auth login' instead"@
}

/// The message refusing an empty token.
pub open spec fn empty_token_message() -> Seq<char> {
    "empty token"@
}

/// What a login of `token` to the server `name` may go on with: the token
/// trimmed of surrounding whitespace, or the usage error that stops it.
pub open spec fn spec_login_precheck(
    servers: Map<Seq<char>, ServerProfile>,
    name: Seq<char>,
    token: Seq<char>,
) -> Result<Seq<char>, Seq<char>> {
    if !servers.dom().contains(name) {
        Err(unknown_server_message(name))
    } else if servers[name].backend == BackendKind::Github {
        Err(github_login_message())
    } else if trim_ws(token).len() == 0 {
        Err(empty_token_message())
    } else {
        Ok(trim_ws(token))
    }
}

/// Check a login request before the token is validated: the server must be
/// configured, must not be a GitHub server (those authenticate through `gh`),
/// and the trimmed token must not be empty. Returns the trimmed token.
pub fn login_precheck(cfg: &Config, name: &str, token: &str) -> (r: Result<String, Error>)
    ensures
        match spec_login_precheck(cfg.servers@, name@, token@) {
            Ok(t) => r matches Ok(s) && s@ == t,
            Err(m) => r matches Err(Error::Usage(e)) && e@ == m,
        },
{
    let profile = match cfg.servers.get(name) {
        Some(p) => p,
        None => {
            let m1 = concat_str("unknown server '", name);
            return Err(Error::Usage(concat_str(m1.as_str(), "'")));
        },
    };
    if matches!(profile.backend, BackendKind::Github) {
        return Err(
            Error::Usage(
                "the github backend authenticates via gh; run 'gh auth login' instead".to_string(),
            ),
        );
    }
    let t = trim(&chars_of(token));
    if t.len() == 0 {
        return Err(Error::Usage("empty token".to_string()));
    }
    Ok(string_of(&t))
}

/// The other profiles on the same base URL as `base`, in key order, each
/// except `name`.
pub open spec fn same_base_others(
    keys: Seq<Seq<char>>,
    vals: Seq<ServerProfile>,
    name: Seq<char>,
    base: Seq<char>,
) -> Seq<Seq<char>>
    decreases keys.len(),
{
    if keys.len() == 0 || vals.len() != keys.len() {
        Seq::empty()
    } else {
        let prev = same_base_others(keys.drop_last(), vals.drop_last(), name, base);
        if keys.last() != name && vals.last().base_url@ == base {
            prev.push(keys.last())
        } else {
            prev
        }
    }
}

/// The view of a list of strings.
pub open spec fn strings_view(v: Seq<String>) -> Seq<Seq<char>> {
    v.map_values(|s: String| s@)
}

/// The servers other than `name` whose base URL is `base_url`, in key order:
/// the profiles that could already be logged in as the same account.
pub fn duplicate_candidates(cfg: &Config, name: &str, base_url: &str) -> (r: Vec<String>)
    ensures
        strings_view(r@) == same_base_others(cfg.servers.keys(), cfg.servers.vals(), name@, base_url@),
{
    proof {
        use_type_invariant(&cfg.servers);
        cfg.servers.lemma_view();
    }
    let n = cfg.servers.len();
    let ghost ks = cfg.servers.keys();
    let ghost vs = cfg.servers.vals();
    let mut r: Vec<String> = Vec::new();
    let mut i: usize = 0;
    while i < n
        invariant
            n == ks.len(),
            ks.len() == vs.len(),
            ks == cfg.servers.keys(),
            vs == cfg.servers.vals(),
            i <= n,
            strings_view(r@) == same_base_others(ks.take(i as int), vs.take(i as int), name@, base_url@),
        decreases n - i,
    {
        let k = cfg.servers.key_at(i);
        let p = cfg.servers.value_at(i);
        proof {
            assert(ks.take(i + 1).drop_last() =~= ks.take(i as int));
            assert(vs.take(i + 1).drop_last() =~= vs.take(i as int));
            assert(ks.take(i + 1).last() == ks[i as int]);
            assert(vs.take(i + 1).last() == vs[i as int]);
        }
        if !str_eq(k.as_str(), name) && str_eq(p.base_url.as_str(), base_url) {
            let ghost before = r@;
            r.push(k.clone());
            proof {
                assert(strings_view(r@) =~= strings_view(before).push(k@));
            }
        }
        i = i + 1;
    }
    proof {
        assert(ks.take(n as int) =~= ks);
        assert(vs.take(n as int) =~= vs);
    }
    r
}

/// The message refusing a login as an account that another server already
/// holds.
pub open spec fn duplicate_message(id: Seq<char>, base_url: Seq<char>, other: Seq<char>) -> Seq<char> {
    "user '"@ + id + "' at "@ + base_url + " is already authenticated as server '"@ + other
        + "'; use --force to add anyway"@
}

/// The usage error refusing a duplicate login.
pub fn duplicate_error(id: &str, base_url: &str, other: &str) -> (e: Error)
    ensures
        e matches Error::Usage(m) && m@ == duplicate_message(id@, base_url@, other@),
{
    let a = concat_str("user '", id);
    let b = concat_str(a.as_str(), "' at ");
    let c = concat_str(b.as_str(), base_url);
    let d = concat_str(c.as_str(), " is already authenticated as server '");
    let f = concat_str(d.as_str(), other);
    let g = concat_str(f.as_str(), "'; use --force to add anyway");
    proof {
        assert(g@ =~= duplicate_message(id@, base_url@, other@));
    }
    Error::Usage(g)
}

/// The first of the other profiles whose confirmed identity is `id`. `ids[i]`
/// is what was read back for `candidates[i]` (`None` when it could not be
/// confirmed: no token, an expired one, an unreachable host).
pub open spec fn first_same_account(
    candidates: Seq<Seq<char>>,
    ids: Seq<Option<Seq<char>>>,
    id: Seq<char>,
) -> Option<Seq<char>>
    decreases candidates.len(),
{
    if candidates.len() == 0 || ids.len() == 0 {
        None
    } else if ids[0] == Some(id) {
        Some(candidates[0])
    } else {
        first_same_account(candidates.drop_first(), ids.drop_first(), id)
    }
}

/// The view of a list of optional strings.
pub open spec fn opt_strings_view(v: Seq<Option<String>>) -> Seq<Option<Seq<char>>> {
    v.map_values(|o: Option<String>| opt_seq(o))
}

/// The server, among `candidates`, already authenticated as `id`: the first
/// whose identity read back equals it.
pub fn find_duplicate(candidates: &Vec<String>, ids: &Vec<Option<String>>, id: &str) -> (r: Option<String>)
    requires
        candidates@.len() == ids@.len(),
    ensures
        opt_seq(r) == first_same_account(strings_view(candidates@), opt_strings_view(ids@), id@),
{
    let mut i: usize = 0;
    proof {
        assert(strings_view(candidates@).subrange(0, candidates@.len() as int) =~= strings_view(candidates@));
        assert(opt_strings_view(ids@).subrange(0, ids@.len() as int) =~= opt_strings_view(ids@));
    }
    while i < candidates.len()
        invariant
            candidates@.len() == ids@.len(),
            i <= candidates@.len(),
            first_same_account(strings_view(candidates@), opt_strings_view(ids@), id@)
                == first_same_account(
                strings_view(candidates@).subrange(i as int, candidates@.len() as int),
                opt_strings_view(ids@).subrange(i as int, ids@.len() as int),
                id@,
            ),
        decreases candidates.len() - i,
    {
        let ghost cs = strings_view(candidates@).subrange(i as int, candidates@.len() as int);
        let ghost is = opt_strings_view(ids@).subrange(i as int, ids@.len() as int);
        proof {
            assert(cs.drop_first() =~= strings_view(candidates@).subrange(i + 1, candidates@.len() as int));
            assert(is.drop_first() =~= opt_strings_view(ids@).subrange(i + 1, ids@.len() as int));
            assert(cs[0] == candidates@[i as int]@);
            assert(is[0] == opt_seq(ids@[i as int]));
        }
        match &ids[i] {
            Some(x) => {
                if str_eq(x.as_str(), id) {
                    return Some(candidates[i].clone());
                }
            },
            None => {},
        }
        i = i + 1;
    }
    None
}

} // verus!
