//! The configuration edits and views behind the GUI's server settings: the
//! server list shown in the switcher, whether timelog applies at all, and the
//! in-memory edits (remove, rename, set default, add, per-field setters) that
//! the GUI wraps in a load / edit / save of the config file.

use vstd::prelude::*;
use crate::config::{default_is_configured, 
    BackendKind, Capabilities, Config, ServerProfile, StatusColor, StatusFilter, TimelogStart,
    OpenTarget, opt_view, spec_capabilities, spec_display, spec_effective_poll_secs,
    spec_effective_open_target, spec_supports_timelog, open_target_token, status_color_token,
};
use crate::github::{GhStatus, views};
use crate::strmap::{StrMap, seq_lt, str_eq};
use crate::text::{chars_of, concat_str, string_of, trim, trim_ws};
use crate::timelog::{DayCell, TimelogStatus, Candidate};
use crate::datetime::{ymd_day, parse_ymd};
use crate::entities::Task;
use crate::text::{parse_i64, spec_parse_i64};

verus! {

/// One row of the server switcher.
#[derive(Debug)]
pub struct ServerInfo {
    /// The profile's key.
    pub name: String,
    /// `display_name`, or the key when unset.
    pub display_name: String,
    pub base_url: String,
    /// `openproject` or `github`.
    pub backend: String,
    pub is_default: bool,
    /// Effective poll interval.
    pub poll_secs: u64,
    /// The raw poll-interval override.
    pub poll_override: Option<u64>,
    pub enabled: bool,
    pub timelog_start: Option<TimelogStart>,
    /// Status -> color token.
    pub status_colors: StrMap<String>,
    pub capabilities: Capabilities,
    pub status_filters: Vec<StatusFilter>,
    /// Effective open target token (`app` / `browser`).
    pub open_content_in: String,
    pub display_fields: Vec<String>,
    pub proxy: Option<String>,
    /// Whether a token is stored; the pure builder leaves it `false`.
    pub has_token: bool,
}

/// The result of the timelog command.
#[derive(Debug)]
pub struct TimelogResult {
    pub configured: bool,
    pub status: TimelogStatus,
    pub timeline: Vec<DayCell>,
    pub start: String,
    pub start_is_default: bool,
    pub excluded: Vec<String>,
}

/// Whether the `gh` dependency matters, and its status.
#[derive(Debug, Clone, Copy)]
pub struct GhDependency {
    pub used: bool,
    pub status: GhStatus,
}

/// The lowercase token of a backend.
pub open spec fn backend_token(b: BackendKind) -> Seq<char> {
    match b {
        BackendKind::OpenProject => "openproject"@,
        BackendKind::Github => "github"@,
    }
}

fn backend_str(b: BackendKind) -> (r: &'static str)
    ensures
        r@ == backend_token(b),
{
    match b {
        BackendKind::OpenProject => "openproject",
        BackendKind::Github => "github",
    }
}

/// The view of a status filter.
pub open spec fn filter_view(f: StatusFilter) -> (Seq<char>, Seq<Seq<char>>) {
    (f.label@, views(f.statuses@))
}

/// The view of an optional timelog start.
pub open spec fn start_view(s: Option<TimelogStart>) -> Option<(Seq<char>, bool)> {
    match s {
        Some(t) => Some((t.date@, t.auto)),
        None => None,
    }
}

/// A copy of a list of strings.
pub fn clone_strings(v: &Vec<String>) -> (r: Vec<String>)
    ensures
        views(r@) == views(v@),
{
    let mut r: Vec<String> = Vec::new();
    let mut i: usize = 0;
    while i < v.len()
        invariant
            i <= v@.len(),
            r@.len() == i,
            forall|k: int| 0 <= k < i ==> (#[trigger] r@[k])@ == v@[k]@,
        decreases v.len() - i,
    {
        r.push(v[i].clone());
        i = i + 1;
    }
    assert(views(r@) =~= views(v@));
    r
}

/// A copy of a status filter.
pub fn clone_filter(f: &StatusFilter) -> (r: StatusFilter)
    ensures
        filter_view(r) == filter_view(*f),
{
    StatusFilter { label: f.label.clone(), statuses: clone_strings(&f.statuses) }
}

/// A copy of a list of status filters.
pub fn clone_filters(v: &Vec<StatusFilter>) -> (r: Vec<StatusFilter>)
    ensures
        r@.len() == v@.len(),
        forall|k: int| 0 <= k < v@.len() ==> filter_view(#[trigger] r@[k]) == filter_view(v@[k]),
{
    let mut r: Vec<StatusFilter> = Vec::new();
    let mut i: usize = 0;
    while i < v.len()
        invariant
            i <= v@.len(),
            r@.len() == i,
            forall|k: int| 0 <= k < i ==> filter_view(#[trigger] r@[k]) == filter_view(v@[k]),
        decreases v.len() - i,
    {
        r.push(clone_filter(&v[i]));
        i = i + 1;
    }
    r
}

fn clone_start(s: &Option<TimelogStart>) -> (r: Option<TimelogStart>)
    ensures
        start_view(r) == start_view(*s),
{
    match s {
        Some(t) => Some(TimelogStart { date: t.date.clone(), auto: t.auto }),
        None => None,
    }
}

fn clone_opt_string(o: &Option<String>) -> (r: Option<String>)
    ensures
        opt_view(r) == opt_view(*o),
{
    match o {
        Some(s) => Some(s.clone()),
        None => None,
    }
}

/// The color tokens of a profile's status colors, under the same statuses.
pub fn color_tokens(m: &StrMap<StatusColor>) -> (r: StrMap<String>)
    ensures
        r@.dom() == m@.dom(),
        forall|k: Seq<char>| #[trigger] r@.dom().contains(k) ==> r@[k]@ == status_color_token(m@[k]),
{
    proof {
        use_type_invariant(m);
        m.lemma_view();
    }
    let mut r: StrMap<String> = StrMap::new();
    let n = m.len();
    let mut i: usize = 0;
    while i < n
        invariant
            n == m.keys().len(),
            m.keys().len() == m.vals().len(),
            forall|k: Seq<char>| #[trigger] m@.dom().contains(k) <==> m.keys().contains(k),
            forall|j: int| 0 <= j < m.keys().len() ==> #[trigger] m@[m.keys()[j]] == m.vals()[j],
            i <= n,
            forall|k: Seq<char>| #[trigger]
                r@.dom().contains(k) <==> exists|j: int| 0 <= j < i && m.keys()[j] == k,
            forall|k: Seq<char>| #[trigger] r@.dom().contains(k) ==> r@[k]@ == status_color_token(m@[k]),
        decreases n - i,
    {
        let k = m.key_at(i);
        let v = m.value_at(i);
        let t = v.token().to_string();
        proof {
            assert(m@[m.keys()[i as int]] == m.vals()[i as int]);
        }
        r.insert(k.clone(), t);
        i = i + 1;
    }
    proof {
        assert forall|k: Seq<char>| r@.dom().contains(k) <==> m@.dom().contains(k) by {
            if m.keys().contains(k) {
                let j = choose|j: int| 0 <= j < m.keys().len() && m.keys()[j] == k;
                assert(exists|j: int| 0 <= j < n && m.keys()[j] == k);
            }
        }
        assert(r@.dom() =~= m@.dom());
    }
    r
}

/// `info` is the switcher row of the profile `p` stored under `name`.
pub open spec fn is_info_of(
    name: Seq<char>,
    p: ServerProfile,
    default_server: Option<Seq<char>>,
    info: ServerInfo,
) -> bool {
    &&& info.name@ == name
    &&& info.display_name@ == spec_display(p, name)
    &&& info.base_url@ == p.base_url@
    &&& info.backend@ == backend_token(p.backend)
    &&& info.is_default == (default_server == Some(name))
    &&& info.poll_secs == spec_effective_poll_secs(p)
    &&& info.poll_override == p.poll_secs
    &&& info.enabled == p.enabled
    &&& start_view(info.timelog_start) == start_view(p.timelog_start)
    &&& info.status_colors@.dom() == p.status_colors@.dom()
    &&& (forall|k: Seq<char>| #[trigger]
        info.status_colors@.dom().contains(k) ==> info.status_colors@[k]@ == status_color_token(
            p.status_colors@[k],
        ))
    &&& info.capabilities == spec_capabilities(p.backend)
    &&& info.status_filters@.len() == p.status_filters@.len()
    &&& (forall|k: int|
        0 <= k < p.status_filters@.len() ==> filter_view(#[trigger] info.status_filters@[k])
            == filter_view(p.status_filters@[k]))
    &&& info.open_content_in@ == open_target_token(spec_effective_open_target(p))
    &&& views(info.display_fields@) == views(p.display_fields@)
    &&& opt_view(info.proxy) == opt_view(p.proxy)
    &&& !info.has_token
}

/// The switcher row of one profile.
pub fn server_info(name: &String, p: &ServerProfile, default_server: &Option<String>) -> (info:
    ServerInfo)
    ensures
        is_info_of(name@, *p, opt_view(*default_server), info),
{
    let is_default = match default_server {
        Some(d) => str_eq(d.as_str(), name.as_str()),
        None => false,
    };
    ServerInfo {
        name: name.clone(),
        display_name: p.display(name.as_str()).to_string(),
        base_url: p.base_url.clone(),
        backend: backend_str(p.backend).to_string(),
        is_default,
        poll_secs: p.effective_poll_secs(),
        poll_override: p.poll_secs,
        enabled: p.enabled,
        timelog_start: clone_start(&p.timelog_start),
        status_colors: color_tokens(&p.status_colors),
        capabilities: p.backend.capabilities(),
        status_filters: clone_filters(&p.status_filters),
        open_content_in: p.effective_open_target().token().to_string(),
        display_fields: clone_strings(&p.display_fields),
        proxy: clone_opt_string(&p.proxy),
        has_token: false,
    }
}

/// The server list for the switcher: one row per profile, in ascending key
/// order.
pub fn server_infos(cfg: &Config) -> (r: Vec<ServerInfo>)
    ensures
        r@.len() == cfg.servers.keys().len(),
        forall|i: int|
            0 <= i < r@.len() ==> is_info_of(
                cfg.servers.keys()[i],
                cfg.servers.vals()[i],
                opt_view(cfg.default_server),
                #[trigger] r@[i],
            ),
{
    proof {
        use_type_invariant(&cfg.servers);
        cfg.servers.lemma_view();
    }
    let mut r: Vec<ServerInfo> = Vec::new();
    let n = cfg.servers.len();
    let mut i: usize = 0;
    while i < n
        invariant
            n == cfg.servers.keys().len(),
            i <= n,
            r@.len() == i,
            forall|j: int|
                0 <= j < i ==> is_info_of(
                    cfg.servers.keys()[j],
                    cfg.servers.vals()[j],
                    opt_view(cfg.default_server),
                    #[trigger] r@[j],
                ),
        decreases n - i,
    {
        let k = cfg.servers.key_at(i);
        let p = cfg.servers.value_at(i);
        r.push(server_info(k, p, &cfg.default_server));
        i = i + 1;
    }
    r
}

/// Whether some enabled server can track time.
pub open spec fn spec_any_timelog_capable(cfg: Config) -> bool {
    exists|k: Seq<char>| #[trigger]
        cfg.servers@.dom().contains(k) && cfg.servers@[k].enabled && spec_supports_timelog(
            cfg.servers@[k].backend,
        )
}

/// Whether any enabled server can track time. When none can, the timelog
/// indicator does not apply.
pub fn any_timelog_capable(cfg: &Config) -> (r: bool)
    ensures
        r == spec_any_timelog_capable(*cfg),
{
    proof {
        use_type_invariant(&cfg.servers);
        cfg.servers.lemma_view();
    }
    let n = cfg.servers.len();
    let mut i: usize = 0;
    while i < n
        invariant
            n == cfg.servers.keys().len(),
            cfg.servers.keys().len() == cfg.servers.vals().len(),
            forall|k: Seq<char>| #[trigger]
                cfg.servers@.dom().contains(k) <==> cfg.servers.keys().contains(k),
            forall|j: int|
                0 <= j < cfg.servers.keys().len() ==> #[trigger] cfg.servers@[cfg.servers.keys()[j]]
                    == cfg.servers.vals()[j],
            i <= n,
            forall|j: int|
                0 <= j < i ==> !((#[trigger] cfg.servers.vals()[j]).enabled && spec_supports_timelog(
                    cfg.servers.vals()[j].backend,
                )),
        decreases n - i,
    {
        let p = cfg.servers.value_at(i);
        if p.enabled && p.backend.supports_timelog() {
            proof {
                let k = cfg.servers.keys()[i as int];
                assert(cfg.servers.keys().contains(k));
                assert(cfg.servers@.dom().contains(k));
                assert(cfg.servers@[k] == cfg.servers.vals()[i as int]);
                assert(cfg.servers@.dom().contains(k) && cfg.servers@[k].enabled
                    && spec_supports_timelog(cfg.servers@[k].backend));
            }
            return true;
        }
        i = i + 1;
    }
    proof {
        assert forall|k: Seq<char>| #[trigger] cfg.servers@.dom().contains(k) implies !(
        cfg.servers@[k].enabled && spec_supports_timelog(cfg.servers@[k].backend)) by {
            let j = choose|j: int| 0 <= j < cfg.servers.keys().len() && cfg.servers.keys()[j] == k;
            assert(cfg.servers@[cfg.servers.keys()[j]] == cfg.servers.vals()[j]);
        }
    }
    false
}

/// Whether a GitHub server is configured (so `gh` is needed).
pub fn uses_github(cfg: &Config) -> (r: bool)
    ensures
        r == exists|k: Seq<char>| #[trigger]
            cfg.servers@.dom().contains(k) && cfg.servers@[k].backend == BackendKind::Github,
{
    proof {
        use_type_invariant(&cfg.servers);
        cfg.servers.lemma_view();
    }
    let n = cfg.servers.len();
    let mut i: usize = 0;
    while i < n
        invariant
            n == cfg.servers.keys().len(),
            cfg.servers.keys().len() == cfg.servers.vals().len(),
            forall|k: Seq<char>| #[trigger]
                cfg.servers@.dom().contains(k) <==> cfg.servers.keys().contains(k),
            forall|j: int|
                0 <= j < cfg.servers.keys().len() ==> #[trigger] cfg.servers@[cfg.servers.keys()[j]]
                    == cfg.servers.vals()[j],
            i <= n,
            forall|j: int| 0 <= j < i ==> (#[trigger] cfg.servers.vals()[j]).backend != BackendKind::Github,
        decreases n - i,
    {
        if cfg.servers.value_at(i).backend == BackendKind::Github {
            proof {
                let k = cfg.servers.keys()[i as int];
                assert(cfg.servers.keys().contains(k));
                assert(cfg.servers@.dom().contains(k));
                assert(cfg.servers@[cfg.servers.keys()[i as int]] == cfg.servers.vals()[i as int]);
                assert(cfg.servers@.dom().contains(k) && cfg.servers@[k].backend == BackendKind::Github);
            }
            return true;
        }
        i = i + 1;
    }
    proof {
        assert forall|k: Seq<char>| #[trigger] cfg.servers@.dom().contains(k) implies cfg.servers@[k].backend
            != BackendKind::Github by {
            let j = choose|j: int| 0 <= j < cfg.servers.keys().len() && cfg.servers.keys()[j] == k;
            assert(cfg.servers@[cfg.servers.keys()[j]] == cfg.servers.vals()[j]);
        }
    }
    false
}

/// The message of the error for a name that is not a configured server.
pub open spec fn unknown_server_msg(name: Seq<char>) -> Seq<char> {
    "unknown server '"@ + name + "'"@
}

fn unknown_server(name: &str) -> (r: String)
    ensures
        r@ == unknown_server_msg(name@),
{
    let a = concat_str("unknown server '", name);
    concat_str(a.as_str(), "'")
}

/// `d` is the least key of `m`'s domain.
pub open spec fn is_least_key<V>(m: Map<Seq<char>, V>, d: Seq<char>) -> bool {
    m.dom().contains(d) && forall|k: Seq<char>| #[trigger] m.dom().contains(k) && k != d ==> seq_lt(d, k)
}

/// Drop a server profile. If it was the default, the default passes to the
/// least remaining key, or to none when no server is left. An unknown name is
/// an error and leaves the config as it was.
pub fn remove_from_config(cfg: &mut Config, name: &str) -> (r: Result<(), String>)
    ensures
        default_is_configured(*old(cfg)) ==> default_is_configured(*final(cfg)),
        old(cfg).servers@.dom().contains(name@) ==> {
            &&& r is Ok
            &&& final(cfg).servers@ == old(cfg).servers@.remove(name@)
            &&& if opt_view(old(cfg).default_server) == Some(name@) {
                match final(cfg).default_server {
                    Some(d) => is_least_key(final(cfg).servers@, d@),
                    None => final(cfg).servers@.dom().is_empty(),
                }
            } else {
                opt_view(final(cfg).default_server) == opt_view(old(cfg).default_server)
            }
        },
        !old(cfg).servers@.dom().contains(name@) ==> {
            &&& r matches Err(m) && m@ == unknown_server_msg(name@)
            &&& final(cfg).servers@ == old(cfg).servers@
            &&& opt_view(final(cfg).default_server) == opt_view(old(cfg).default_server)
        },
        final(cfg).schema_version == old(cfg).schema_version,
        opt_view(final(cfg).proxy) == opt_view(old(cfg).proxy),
{
    match cfg.servers.remove(name) {
        None => {
            return Err(unknown_server(name));
        },
        Some(_) => {},
    }
    let was_default = match &cfg.default_server {
        Some(d) => str_eq(d.as_str(), name),
        None => false,
    };
    if was_default {
        let next: Option<String> = match cfg.servers.first_key() {
            Some(k) => Some(k.clone()),
            None => None,
        };
        proof {
            if next is None {
                assert(cfg.servers@.dom() =~= Set::<Seq<char>>::empty());
            }
        }
        cfg.default_server = next;
    }
    Ok(())
}

/// Make `name` the default server; an unknown name is an error and leaves the
/// default as it was.
pub fn set_default_in_config(cfg: &mut Config, name: &str) -> (r: Result<(), String>)
    ensures
        default_is_configured(*old(cfg)) ==> default_is_configured(*final(cfg)),
        old(cfg).servers@.dom().contains(name@) ==> r is Ok && opt_view(final(cfg).default_server)
            == Some(name@),
        !old(cfg).servers@.dom().contains(name@) ==> (r matches Err(m) && m@ == unknown_server_msg(
            name@,
        )) && opt_view(final(cfg).default_server) == opt_view(old(cfg).default_server),
        final(cfg).servers@ == old(cfg).servers@,
        final(cfg).schema_version == old(cfg).schema_version,
        opt_view(final(cfg).proxy) == opt_view(old(cfg).proxy),
{
    if !cfg.servers.contains_key(name) {
        return Err(unknown_server(name));
    }
    cfg.default_server = Some(name.to_string());
    Ok(())
}

/// A proxy input as stored: trimmed, and nothing when blank.
pub open spec fn spec_normalize_proxy(v: Option<Seq<char>>) -> Option<Seq<char>> {
    match v {
        Some(s) => if trim_ws(s).len() > 0 {
            Some(trim_ws(s))
        } else {
            None
        },
        None => None,
    }
}

/// Normalize a proxy input: trim it; a blank value clears the setting.
pub fn normalize_proxy(v: Option<String>) -> (r: Option<String>)
    ensures
        opt_view(r) == spec_normalize_proxy(opt_view(v)),
{
    match v {
        Some(s) => {
            let t = trim(&chars_of(s.as_str()));
            if t.len() > 0 {
                Some(string_of(&t))
            } else {
                None
            }
        },
        None => None,
    }
}

/// A text that is blank after trimming.
pub open spec fn is_blank(s: Seq<char>) -> bool {
    trim_ws(s).len() == 0
}

fn blank(s: &str) -> (r: bool)
    ensures
        r == is_blank(s@),
{
    trim(&chars_of(s)).len() == 0
}

/// Take the profile stored under `name` out of the config.
fn take_profile(cfg: &mut Config, name: &str) -> (r: Result<ServerProfile, String>)
    ensures
        match r {
            Ok(p) => old(cfg).servers@.dom().contains(name@) && p == old(cfg).servers@[name@]
                && final(cfg).servers@ == old(cfg).servers@.remove(name@),
            Err(m) => !old(cfg).servers@.dom().contains(name@) && m@ == unknown_server_msg(name@)
                && final(cfg).servers@ == old(cfg).servers@,
        },
        final(cfg).schema_version == old(cfg).schema_version,
        final(cfg).default_server == old(cfg).default_server,
        final(cfg).proxy == old(cfg).proxy,
{
    match cfg.servers.remove(name) {
        Some(p) => Ok(p),
        None => {
            proof {
                assert(cfg.servers@ =~= old(cfg).servers@.remove(name@));
            }
            Err(unknown_server(name))
        },
    }
}

/// The config after storing profile `p` under `name`.
fn put_profile(cfg: &mut Config, name: &str, p: ServerProfile)
    ensures
        final(cfg).servers@ == old(cfg).servers@.insert(name@, p),
        final(cfg).schema_version == old(cfg).schema_version,
        final(cfg).default_server == old(cfg).default_server,
        final(cfg).proxy == old(cfg).proxy,
{
    cfg.servers.insert(name.to_string(), p);
}

/// The edit of a profile's fields through a setter: applied to a configured
/// server it replaces that profile by `updated`; on an unknown server it is an
/// error and changes nothing.
pub open spec fn is_profile_edit(
    before: Config,
    after: Config,
    name: Seq<char>,
    r: Result<(), String>,
    updated: ServerProfile,
) -> bool {
    &&& after.schema_version == before.schema_version
    &&& after.default_server == before.default_server
    &&& after.proxy == before.proxy
    &&& if before.servers@.dom().contains(name) {
        r is Ok && after.servers@ == before.servers@.insert(name, updated)
    } else {
        (r matches Err(m) && m@ == unknown_server_msg(name)) && after.servers@ == before.servers@
    }
}

/// Set a server's display name; a blank value clears it.
pub fn set_server_display_name_in(cfg: &mut Config, name: &str, display_name: Option<String>) -> (r:
    Result<(), String>)
    ensures
        is_profile_edit(
            *old(cfg),
            *final(cfg),
            name@,
            r,
            ServerProfile {
                display_name: match display_name {
                    Some(d) => if is_blank(d@) {
                        None
                    } else {
                        Some(d)
                    },
                    None => None,
                },
                ..old(cfg).servers@[name@]
            },
        ),
{
    let mut p = take_profile(cfg, name)?;
    p.display_name = match display_name {
        Some(d) => if blank(d.as_str()) {
            None
        } else {
            Some(d)
        },
        None => None,
    };
    let ghost pv = p;
    put_profile(cfg, name, p);
    proof {
        assert(cfg.servers@ =~= old(cfg).servers@.insert(name@, pv));
    }
    Ok(())
}

/// Enable or disable a server.
pub fn set_server_enabled_in(cfg: &mut Config, name: &str, enabled: bool) -> (r: Result<(), String>)
    ensures
        is_profile_edit(
            *old(cfg),
            *final(cfg),
            name@,
            r,
            ServerProfile { enabled, ..old(cfg).servers@[name@] },
        ),
{
    let mut p = take_profile(cfg, name)?;
    p.enabled = enabled;
    let ghost pv = p;
    put_profile(cfg, name, p);
    proof {
        assert(cfg.servers@ =~= old(cfg).servers@.insert(name@, pv));
    }
    Ok(())
}

/// Set a server's poll interval; `None` or 0 clears the override.
pub fn set_server_poll_secs_in(cfg: &mut Config, name: &str, poll_secs: Option<u64>) -> (r: Result<
    (),
    String,
>)
    ensures
        is_profile_edit(
            *old(cfg),
            *final(cfg),
            name@,
            r,
            ServerProfile {
                poll_secs: match poll_secs {
                    Some(s) => if s > 0 {
                        Some(s)
                    } else {
                        None
                    },
                    None => None,
                },
                ..old(cfg).servers@[name@]
            },
        ),
{
    let mut p = take_profile(cfg, name)?;
    p.poll_secs = match poll_secs {
        Some(s) => if s > 0 {
            Some(s)
        } else {
            None
        },
        None => None,
    };
    let ghost pv = p;
    put_profile(cfg, name, p);
    proof {
        assert(cfg.servers@ =~= old(cfg).servers@.insert(name@, pv));
    }
    Ok(())
}

/// Set a server's timelog start; a blank value clears it, a date is stored as
/// an explicit (not auto-seeded) start.
pub fn set_server_timelog_start_in(cfg: &mut Config, name: &str, date: Option<String>) -> (r: Result<
    (),
    String,
>)
    ensures
        is_profile_edit(
            *old(cfg),
            *final(cfg),
            name@,
            r,
            ServerProfile {
                timelog_start: match date {
                    Some(d) => if is_blank(d@) {
                        None
                    } else {
                        Some(TimelogStart { date: d, auto: false })
                    },
                    None => None,
                },
                ..old(cfg).servers@[name@]
            },
        ),
{
    let mut p = take_profile(cfg, name)?;
    p.timelog_start = match date {
        Some(d) => if blank(d.as_str()) {
            None
        } else {
            Some(TimelogStart { date: d, auto: false })
        },
        None => None,
    };
    let ghost pv = p;
    put_profile(cfg, name, p);
    proof {
        assert(cfg.servers@ =~= old(cfg).servers@.insert(name@, pv));
    }
    Ok(())
}

/// Set a server's proxy override; a blank value clears it.
pub fn set_server_proxy_in(cfg: &mut Config, name: &str, proxy: Option<String>) -> (r: Result<
    (),
    String,
>)
    ensures
        old(cfg).servers@.dom().contains(name@) ==> r is Ok && final(cfg).servers@.dom()
            == old(cfg).servers@.dom() && opt_view(final(cfg).servers@[name@].proxy)
            == spec_normalize_proxy(opt_view(proxy)),
        !old(cfg).servers@.dom().contains(name@) ==> (r matches Err(m) && m@ == unknown_server_msg(
            name@,
        )) && final(cfg).servers@ == old(cfg).servers@,
        forall|k: Seq<char>|
            #[trigger] old(cfg).servers@.dom().contains(k) && k != name@ ==> final(cfg).servers@[k]
                == old(cfg).servers@[k],
        final(cfg).default_server == old(cfg).default_server,
        final(cfg).proxy == old(cfg).proxy,
{
    let mut p = take_profile(cfg, name)?;
    p.proxy = normalize_proxy(proxy);
    put_profile(cfg, name, p);
    proof {
        assert(final(cfg).servers@.dom() =~= old(cfg).servers@.dom());
    }
    Ok(())
}

/// Set the global default proxy; a blank value clears it.
pub fn set_global_proxy_in(cfg: &mut Config, proxy: Option<String>)
    ensures
        opt_view(final(cfg).proxy) == spec_normalize_proxy(opt_view(proxy)),
        final(cfg).servers@ == old(cfg).servers@,
        final(cfg).default_server == old(cfg).default_server,
{
    cfg.proxy = normalize_proxy(proxy);
}

/// The message of the error for a color token that names no color.
pub open spec fn unknown_color_msg(t: Seq<char>) -> Seq<char> {
    "unknown color '"@ + t + "'"@
}

/// Set or clear a server's tint for a workflow status: a blank or absent color
/// removes the mapping, a color token sets it, an unknown token is an error
/// that changes nothing.
pub fn set_server_status_color_in(
    cfg: &mut Config,
    name: &str,
    status: String,
    color: Option<String>,
) -> (r: Result<(), String>)
    ensures
        !old(cfg).servers@.dom().contains(name@) ==> (r matches Err(m) && m@ == unknown_server_msg(
            name@,
        )) && final(cfg).servers@ == old(cfg).servers@,
        old(cfg).servers@.dom().contains(name@) ==> match color {
            Some(t) if !is_blank(t@) => match crate::config::status_color_of_token(t@) {
                Some(c) => r is Ok && final(cfg).servers@.dom() == old(cfg).servers@.dom()
                    && final(cfg).servers@[name@].status_colors@ == old(cfg).servers@[name@].status_colors@.insert(status@, c),
                None => (r matches Err(m) && m@ == unknown_color_msg(t@)) && final(cfg).servers@
                    == old(cfg).servers@,
            },
            _ => r is Ok && final(cfg).servers@.dom() == old(cfg).servers@.dom()
                && final(cfg).servers@[name@].status_colors@ == old(cfg).servers@[name@].status_colors@.remove(status@),
        },
        forall|k: Seq<char>|
            #[trigger] old(cfg).servers@.dom().contains(k) && k != name@ ==> final(cfg).servers@[k]
                == old(cfg).servers@[k],
        final(cfg).default_server == old(cfg).default_server,
        final(cfg).proxy == old(cfg).proxy,
{
    if !cfg.servers.contains_key(name) {
        return Err(unknown_server(name));
    }
    let parsed: Option<StatusColor> = match &color {
        Some(t) => {
            if blank(t.as_str()) {
                None
            } else {
                match StatusColor::from_token(t.as_str()) {
                    Some(c) => Some(c),
                    None => {
                        let a = concat_str("unknown color '", t.as_str());
                        return Err(concat_str(a.as_str(), "'"));
                    },
                }
            }
        },
        None => None,
    };
    let mut p = take_profile(cfg, name)?;
    match parsed {
        Some(c) => {
            p.status_colors.insert(status, c);
        },
        None => {
            p.status_colors.remove(status.as_str());
        },
    }
    put_profile(cfg, name, p);
    proof {
        assert(final(cfg).servers@.dom() =~= old(cfg).servers@.dom());
    }
    Ok(())
}

/// Replace a server's status filters, dropping those with a blank label.
pub fn set_server_status_filters_in(
    cfg: &mut Config,
    name: &str,
    filters: Vec<StatusFilter>,
) -> (r: Result<(), String>)
    ensures
        old(cfg).servers@.dom().contains(name@) ==> r is Ok && final(cfg).servers@.dom() == old(cfg).servers@.dom() && final(cfg).servers@[name@].status_filters@ == filters@.filter(
            |f: StatusFilter| !is_blank(f.label@),
        ),
        !old(cfg).servers@.dom().contains(name@) ==> (r matches Err(m) && m@ == unknown_server_msg(
            name@,
        )) && final(cfg).servers@ == old(cfg).servers@,
        forall|k: Seq<char>|
            #[trigger] old(cfg).servers@.dom().contains(k) && k != name@ ==> final(cfg).servers@[k]
                == old(cfg).servers@[k],
        final(cfg).default_server == old(cfg).default_server,
        final(cfg).proxy == old(cfg).proxy,
{
    let mut p = take_profile(cfg, name)?;
    let ghost all = filters@;
    let mut rest = filters;
    let mut kept: Vec<StatusFilter> = Vec::new();
    let mut i: usize = 0;
    assert(all.len() == rest.len());
    while rest.len() > 0
        invariant
            i + rest@.len() == all.len(),
            all.len() <= usize::MAX,
            rest@ == all.subrange(i as int, all.len() as int),
            kept@ == all.subrange(0, i as int).filter(|f: StatusFilter| !is_blank(f.label@)),
        decreases rest.len(),
    {
        let f = rest.remove(0);
        proof {
            assert(all.subrange(0, i + 1).drop_last() =~= all.subrange(0, i as int));
            assert(all.subrange(0, i + 1).last() == f);
            reveal(Seq::filter);
            assert(rest@ =~= all.subrange(i + 1, all.len() as int));
        }
        if !blank(f.label.as_str()) {
            kept.push(f);
        }
        i = i + 1;
    }
    assert(all.subrange(0, i as int) =~= all);
    p.status_filters = kept;
    put_profile(cfg, name, p);
    proof {
        assert(final(cfg).servers@.dom() =~= old(cfg).servers@.dom());
    }
    Ok(())
}

/// Replace a server's display fields: each trimmed, blank ones dropped.
pub fn set_server_display_fields_in(cfg: &mut Config, name: &str, fields: Vec<String>) -> (r: Result<
    (),
    String,
>)
    ensures
        old(cfg).servers@.dom().contains(name@) ==> r is Ok && final(cfg).servers@.dom() == old(cfg).servers@.dom() && views(final(cfg).servers@[name@].display_fields@) == views(
            fields@,
        ).map_values(|f: Seq<char>| trim_ws(f)).filter(|f: Seq<char>| f.len() > 0),
        !old(cfg).servers@.dom().contains(name@) ==> (r matches Err(m) && m@ == unknown_server_msg(
            name@,
        )) && final(cfg).servers@ == old(cfg).servers@,
        forall|k: Seq<char>|
            #[trigger] old(cfg).servers@.dom().contains(k) && k != name@ ==> final(cfg).servers@[k]
                == old(cfg).servers@[k],
        final(cfg).default_server == old(cfg).default_server,
        final(cfg).proxy == old(cfg).proxy,
{
    let mut p = take_profile(cfg, name)?;
    let ghost want = views(fields@).map_values(|f: Seq<char>| trim_ws(f));
    let mut kept: Vec<String> = Vec::new();
    let mut i: usize = 0;
    while i < fields.len()
        invariant
            i <= fields@.len(),
            want == views(fields@).map_values(|f: Seq<char>| trim_ws(f)),
            views(kept@) == want.subrange(0, i as int).filter(|f: Seq<char>| f.len() > 0),
        decreases fields.len() - i,
    {
        let t = trim(&chars_of(fields[i].as_str()));
        proof {
            assert(want.subrange(0, i + 1).drop_last() =~= want.subrange(0, i as int));
            assert(want.subrange(0, i + 1).last() == t@);
            reveal(Seq::filter);
        }
        if t.len() > 0 {
            let ghost before = kept@;
            kept.push(string_of(&t));
            proof {
                assert(views(kept@) =~= views(before).push(t@));
            }
        }
        i = i + 1;
    }
    assert(want.subrange(0, i as int) =~= want);
    p.display_fields = kept;
    put_profile(cfg, name, p);
    proof {
        assert(final(cfg).servers@.dom() =~= old(cfg).servers@.dom());
    }
    Ok(())
}

/// The open target an input names: nothing for absent or empty input.
pub open spec fn spec_parse_open_target(t: Option<Seq<char>>) -> Result<Option<OpenTarget>, Seq<char>> {
    match t {
        None => Ok(None),
        Some(s) => if s.len() == 0 {
            Ok(None)
        } else if s == "app"@ {
            Ok(Some(OpenTarget::App))
        } else if s == "browser"@ {
            Ok(Some(OpenTarget::Browser))
        } else {
            Err("unknown open target '"@ + s + "'"@)
        },
    }
}

/// Parse an open-target input (`app`, `browser`, or empty/absent to clear).
pub fn parse_open_target(target: Option<&str>) -> (r: Result<Option<OpenTarget>, String>)
    ensures
        match r {
            Ok(t) => spec_parse_open_target(crate::client::opt_seq(target)) == Ok::<
                Option<OpenTarget>,
                Seq<char>,
            >(t),
            Err(m) => spec_parse_open_target(crate::client::opt_seq(target)) == Err::<
                Option<OpenTarget>,
                Seq<char>,
            >(m@),
        },
{
    match target {
        None => Ok(None),
        Some(s) => {
            if s.unicode_len() == 0 {
                Ok(None)
            } else if str_eq(s, "app") {
                Ok(Some(OpenTarget::App))
            } else if str_eq(s, "browser") {
                Ok(Some(OpenTarget::Browser))
            } else {
                let a = concat_str("unknown open target '", s);
                Err(concat_str(a.as_str(), "'"))
            }
        },
    }
}

/// Set where a server's tasks open (`app`, `browser`, or absent/empty to
/// defer to the backend). The target is checked before the server.
pub fn set_server_open_content_in_in(cfg: &mut Config, name: &str, target: Option<&str>) -> (r:
    Result<(), String>)
    ensures
        match spec_parse_open_target(crate::client::opt_seq(target)) {
            Err(m) => (r matches Err(e) && e@ == m) && final(cfg).servers@ == old(cfg).servers@
                && final(cfg).default_server == old(cfg).default_server && final(cfg).proxy == old(cfg).proxy,
            Ok(t) => is_profile_edit(
                *old(cfg),
                *final(cfg),
                name@,
                r,
                ServerProfile { open_content_in: t, ..old(cfg).servers@[name@] },
            ),
        },
{
    let parsed = parse_open_target(target)?;
    let mut p = take_profile(cfg, name)?;
    p.open_content_in = parsed;
    let ghost pv = p;
    put_profile(cfg, name, p);
    proof {
        assert(cfg.servers@ =~= old(cfg).servers@.insert(name@, pv));
    }
    Ok(())
}

/// The backend a token names.
pub open spec fn spec_parse_backend(s: Seq<char>) -> Option<BackendKind> {
    if s == "openproject"@ {
        Some(BackendKind::OpenProject)
    } else if s == "github"@ {
        Some(BackendKind::Github)
    } else {
        None
    }
}

/// Add a server profile. The name is trimmed and required; the backend must be
/// `openproject` or `github`; an existing name is refused. The new profile
/// takes the trimmed URL, the display name unless blank, and the defaults;
/// the first server added becomes the default.
pub fn add_server_to_config(
    cfg: &mut Config,
    name: &str,
    url: &str,
    backend: &str,
    display_name: Option<String>,
) -> (r: Result<(), String>)
    ensures
        ({
            let n = trim_ws(name@);
            if n.len() == 0 {
                (r matches Err(m) && m@ == "server name is required"@) && final(cfg).servers@ == old(cfg).servers@ && final(cfg).default_server == old(cfg).default_server
            } else if spec_parse_backend(backend@) is None {
                (r matches Err(m) && m@ == "unknown backend '"@ + backend@ + "'"@) && final(cfg).servers@ == old(cfg).servers@ && final(cfg).default_server == old(cfg).default_server
            } else if old(cfg).servers@.dom().contains(n) {
                (r matches Err(m) && m@ == "server '"@ + n + "' already exists"@) && final(cfg).servers@ == old(cfg).servers@ && final(cfg).default_server == old(cfg).default_server
            } else {
                &&& r is Ok
                &&& final(cfg).servers@.dom() == old(cfg).servers@.dom().insert(n)
                &&& forall|k: Seq<char>|
                    #[trigger] old(cfg).servers@.dom().contains(k) ==> final(cfg).servers@[k] == old(cfg).servers@[k]
                &&& final(cfg).servers@[n].base_url@ == trim_ws(url@)
                &&& Some(final(cfg).servers@[n].backend) == spec_parse_backend(backend@)
                &&& opt_view(final(cfg).servers@[n].display_name) == match display_name {
                    Some(d) => if is_blank(d@) {
                        None
                    } else {
                        Some(d@)
                    },
                    None => None,
                }
                &&& final(cfg).servers@[n].timeout == 30
                &&& final(cfg).servers@[n].verify_ssl
                &&& final(cfg).servers@[n].proxy is None
                &&& final(cfg).servers@[n].enabled
                &&& final(cfg).servers@[n].poll_secs is None
                &&& final(cfg).servers@[n].timelog_start is None
                &&& final(cfg).servers@[n].status_colors@ == Map::<Seq<char>, StatusColor>::empty()
                &&& final(cfg).servers@[n].status_filters@.len() == 0
                &&& final(cfg).servers@[n].display_fields@.len() == 0
                &&& final(cfg).servers@[n].open_content_in is None
                &&& opt_view(final(cfg).default_server) == match old(cfg).default_server {
                    Some(d) => Some(d@),
                    None => Some(n),
                }
            }
        }),
        final(cfg).proxy == old(cfg).proxy,
        final(cfg).schema_version == old(cfg).schema_version,
        default_is_configured(*old(cfg)) ==> default_is_configured(*final(cfg)),
{
    let n = string_of(&trim(&chars_of(name)));
    if n.unicode_len() == 0 {
        return Err("server name is required".to_string());
    }
    let b = if str_eq(backend, "openproject") {
        BackendKind::OpenProject
    } else if str_eq(backend, "github") {
        BackendKind::Github
    } else {
        let a = concat_str("unknown backend '", backend);
        return Err(concat_str(a.as_str(), "'"));
    };
    if cfg.servers.contains_key(n.as_str()) {
        let a = concat_str("server '", n.as_str());
        return Err(concat_str(a.as_str(), "' already exists"));
    }
    let mut p = ServerProfile::with_base_url(string_of(&trim(&chars_of(url))));
    p.backend = b;
    p.display_name = match display_name {
        Some(d) => if blank(d.as_str()) {
            None
        } else {
            Some(d)
        },
        None => None,
    };
    let ghost nv = n@;
    cfg.servers.insert(n.clone(), p);
    if cfg.default_server.is_none() {
        cfg.default_server = Some(n);
    }
    proof {
        assert(final(cfg).servers@.dom() =~= old(cfg).servers@.dom().insert(nv));
    }
    Ok(())
}

/// Rename a server: move its profile to the new key and carry the default
/// along. Renaming to the same name does nothing; a taken new name or an
/// unknown old name is an error that changes nothing.
pub fn rename_in_config(cfg: &mut Config, old_name: &str, new_name: &str) -> (r: Result<(), String>)
    ensures
        default_is_configured(*old(cfg)) ==> default_is_configured(*final(cfg)),
        old_name@ == new_name@ ==> r is Ok && final(cfg).servers@ == old(cfg).servers@
            && final(cfg).default_server == old(cfg).default_server,
        old_name@ != new_name@ && old(cfg).servers@.dom().contains(new_name@) ==> (r matches Err(m)
            && m@ == "server '"@ + new_name@ + "' already exists"@) && final(cfg).servers@ == old(cfg).servers@ && final(cfg).default_server == old(cfg).default_server,
        old_name@ != new_name@ && !old(cfg).servers@.dom().contains(new_name@) && !old(cfg).servers@.dom().contains(old_name@) ==> (r matches Err(m) && m@ == unknown_server_msg(
            old_name@,
        )) && final(cfg).servers@ == old(cfg).servers@ && final(cfg).default_server == old(cfg).default_server,
        old_name@ != new_name@ && !old(cfg).servers@.dom().contains(new_name@) && old(cfg).servers@.dom().contains(old_name@) ==> {
            &&& r is Ok
            &&& final(cfg).servers@ == old(cfg).servers@.remove(old_name@).insert(
                new_name@,
                old(cfg).servers@[old_name@],
            )
            &&& opt_view(final(cfg).default_server) == if opt_view(old(cfg).default_server) == Some(
                old_name@,
            ) {
                Some(new_name@)
            } else {
                opt_view(old(cfg).default_server)
            }
        },
        final(cfg).proxy == old(cfg).proxy,
        final(cfg).schema_version == old(cfg).schema_version,
{
    if str_eq(old_name, new_name) {
        return Ok(());
    }
    if cfg.servers.contains_key(new_name) {
        let a = concat_str("server '", new_name);
        return Err(concat_str(a.as_str(), "' already exists"));
    }
    let p = take_profile(cfg, old_name)?;
    put_profile(cfg, new_name, p);
    let was_default = match &cfg.default_server {
        Some(d) => str_eq(d.as_str(), old_name),
        None => false,
    };
    if was_default {
        cfg.default_server = Some(new_name.to_string());
    }
    Ok(())
}

/// One server's share of the timelog aggregation: its name and the start of
/// its window.
#[derive(Debug, Clone)]
pub struct TimelogFetch {
    pub name: String,
    pub since: String,
}

/// What the timelog command does per server: which servers to fetch from and
/// since when, which are excluded for lacking time tracking, which need a
/// seeded start, and whether any start is still the auto-seeded one.
#[derive(Debug)]
pub struct TimelogPlan {
    pub fetch: Vec<TimelogFetch>,
    pub excluded: Vec<String>,
    pub seed: Vec<String>,
    pub any_auto: bool,
}

/// The start of a profile's timelog window: its configured date, else today.
pub open spec fn since_of(p: ServerProfile, today: Seq<char>) -> Seq<char> {
    match p.timelog_start {
        Some(t) => t.date@,
        None => today,
    }
}

/// The plan over the profiles `vs` stored under keys `ks`, in order: disabled
/// servers are skipped, servers without time tracking excluded, the rest
/// fetched from their start (today when unset, which also seeds it).
pub open spec fn spec_plan(ks: Seq<Seq<char>>, vs: Seq<ServerProfile>, today: Seq<char>) -> (
    Seq<(Seq<char>, Seq<char>)>,
    Seq<Seq<char>>,
    Seq<Seq<char>>,
    bool,
)
    decreases ks.len(),
{
    if ks.len() == 0 || vs.len() != ks.len() {
        (Seq::empty(), Seq::empty(), Seq::empty(), false)
    } else {
        let prev = spec_plan(ks.drop_last(), vs.drop_last(), today);
        let k = ks.last();
        let p = vs.last();
        if !p.enabled {
            prev
        } else if !spec_supports_timelog(p.backend) {
            (prev.0, prev.1.push(k), prev.2, prev.3)
        } else {
            (
                prev.0.push((k, since_of(p, today))),
                prev.1,
                if p.timelog_start is None {
                    prev.2.push(k)
                } else {
                    prev.2
                },
                prev.3 || match p.timelog_start {
                    Some(t) => t.auto,
                    None => true,
                },
            )
        }
    }
}

/// The model of a plan.
pub open spec fn plan_model(p: TimelogPlan) -> (
    Seq<(Seq<char>, Seq<char>)>,
    Seq<Seq<char>>,
    Seq<Seq<char>>,
    bool,
) {
    (
        p.fetch@.map_values(|f: TimelogFetch| (f.name@, f.since@)),
        views(p.excluded@),
        views(p.seed@),
        p.any_auto,
    )
}

/// Plan the timelog aggregation over the configured servers.
pub fn plan_timelog(cfg: &Config, today_key: &str) -> (r: TimelogPlan)
    ensures
        plan_model(r) == spec_plan(cfg.servers.keys(), cfg.servers.vals(), today_key@),
{
    proof {
        use_type_invariant(&cfg.servers);
        cfg.servers.lemma_view();
    }
    let ghost ks = cfg.servers.keys();
    let ghost vs = cfg.servers.vals();
    let mut r = TimelogPlan { fetch: Vec::new(), excluded: Vec::new(), seed: Vec::new(), any_auto: false };
    let n = cfg.servers.len();
    let mut i: usize = 0;
    proof {
        assert(ks.subrange(0, 0) =~= Seq::<Seq<char>>::empty());
        assert(plan_model(r) =~= spec_plan(ks.subrange(0, 0), vs.subrange(0, 0), today_key@));
    }
    while i < n
        invariant
            n == ks.len(),
            ks.len() == vs.len(),
            ks == cfg.servers.keys(),
            vs == cfg.servers.vals(),
            i <= n,
            plan_model(r) == spec_plan(ks.subrange(0, i as int), vs.subrange(0, i as int), today_key@),
        decreases n - i,
    {
        let k = cfg.servers.key_at(i);
        let p = cfg.servers.value_at(i);
        let ghost prev = plan_model(r);
        proof {
            assert(ks.subrange(0, i + 1).drop_last() =~= ks.subrange(0, i as int));
            assert(vs.subrange(0, i + 1).drop_last() =~= vs.subrange(0, i as int));
        }
        if p.enabled {
            if !p.backend.supports_timelog() {
                r.excluded.push(k.clone());
                proof {
                    assert(views(r.excluded@) =~= prev.1.push(k@));
                    assert(r.fetch@.map_values(|f: TimelogFetch| (f.name@, f.since@)) =~= prev.0);
                }
            } else {
                let since = match &p.timelog_start {
                    Some(t) => t.date.clone(),
                    None => today_key.to_string(),
                };
                let auto = match &p.timelog_start {
                    Some(t) => t.auto,
                    None => true,
                };
                if p.timelog_start.is_none() {
                    r.seed.push(k.clone());
                }
                r.fetch.push(TimelogFetch { name: k.clone(), since });
                r.any_auto = r.any_auto || auto;
                proof {
                    assert(r.fetch@.map_values(|f: TimelogFetch| (f.name@, f.since@)) =~= prev.0.push(
                        (k@, since_of(*p, today_key@)),
                    ));
                    if p.timelog_start is None {
                        assert(views(r.seed@) =~= prev.2.push(k@));
                    } else {
                        assert(views(r.seed@) =~= prev.2);
                    }
                    assert(views(r.excluded@) =~= prev.1);
                }
            }
        }
        i = i + 1;
    }
    proof {
        assert(ks.subrange(0, n as int) =~= ks);
        assert(vs.subrange(0, n as int) =~= vs);
    }
    r
}

/// Give each named server that has no timelog start today's date as an
/// auto-seeded start.
pub fn seed_starts(cfg: &mut Config, names: &Vec<String>, today_key: &str)
    ensures
        final(cfg).servers@.dom() == old(cfg).servers@.dom(),
        forall|k: Seq<char>| #[trigger]
            old(cfg).servers@.dom().contains(k) && !views(names@).contains(k) ==> final(cfg).servers@[k]
                == old(cfg).servers@[k],
        forall|k: Seq<char>| #[trigger]
            old(cfg).servers@.dom().contains(k) && views(names@).contains(k) && old(cfg).servers@[k].timelog_start
                is Some ==> final(cfg).servers@[k] == old(cfg).servers@[k],
        forall|k: Seq<char>| #[trigger]
            old(cfg).servers@.dom().contains(k) && views(names@).contains(k) && old(cfg).servers@[k].timelog_start
                is None ==> start_view(final(cfg).servers@[k].timelog_start) == Some((today_key@, true)),
        final(cfg).default_server == old(cfg).default_server,
        final(cfg).proxy == old(cfg).proxy,
{
    let mut i: usize = 0;
    while i < names.len()
        invariant
            i <= names@.len(),
            cfg.servers@.dom() == old(cfg).servers@.dom(),
            forall|k: Seq<char>| #[trigger]
                old(cfg).servers@.dom().contains(k) && !views(names@.subrange(0, i as int)).contains(k)
                    ==> cfg.servers@[k] == old(cfg).servers@[k],
            forall|k: Seq<char>| #[trigger]
                old(cfg).servers@.dom().contains(k) && views(names@.subrange(0, i as int)).contains(k)
                    && old(cfg).servers@[k].timelog_start is Some ==> cfg.servers@[k] == old(cfg).servers@[k],
            forall|k: Seq<char>| #[trigger]
                old(cfg).servers@.dom().contains(k) && views(names@.subrange(0, i as int)).contains(k)
                    && old(cfg).servers@[k].timelog_start is None ==> start_view(
                    cfg.servers@[k].timelog_start,
                ) == Some((today_key@, true)),
            cfg.default_server == old(cfg).default_server,
            cfg.proxy == old(cfg).proxy,
        decreases names.len() - i,
    {
        let name = names[i].as_str();
        let ghost before = cfg.servers@;
        let ghost vs_before = views(names@.subrange(0, i as int));
        let ghost vs_after = views(names@.subrange(0, i + 1));
        proof {
            assert(vs_after =~= vs_before.push(name@));
        }
        match take_profile(cfg, name) {
            Ok(p) => {
                let mut p = p;
                if p.timelog_start.is_none() {
                    p.timelog_start = Some(TimelogStart { date: today_key.to_string(), auto: true });
                }
                let ghost pv = p;
                put_profile(cfg, name, p);
                proof {
                    assert(cfg.servers@ =~= before.insert(name@, pv));
                    assert forall|k: Seq<char>| #[trigger] vs_after.contains(k) <==> (vs_before.contains(k) || k == name@) by {
                        if vs_after.contains(k) {
                            let j = choose|j: int| 0 <= j < vs_after.len() && vs_after[j] == k;
                            if j < vs_before.len() {
                                assert(vs_before[j] == k);
                            }
                        }
                        if vs_before.contains(k) {
                            let j = choose|j: int| 0 <= j < vs_before.len() && vs_before[j] == k;
                            assert(vs_after[j] == k);
                        }
                        if k == name@ {
                            assert(vs_after[i as int] == k);
                        }
                    }
                }
            },
            Err(_) => {
                proof {
                    assert forall|k: Seq<char>| #[trigger] vs_after.contains(k) <==> (vs_before.contains(k) || k == name@) by {
                        if vs_after.contains(k) {
                            let j = choose|j: int| 0 <= j < vs_after.len() && vs_after[j] == k;
                            if j < vs_before.len() {
                                assert(vs_before[j] == k);
                            }
                        }
                        if vs_before.contains(k) {
                            let j = choose|j: int| 0 <= j < vs_before.len() && vs_before[j] == k;
                            assert(vs_after[j] == k);
                        }
                        if k == name@ {
                            assert(vs_after[i as int] == k);
                        }
                    }
                }
            },
        }
        i = i + 1;
    }
    proof {
        assert(names@.subrange(0, names@.len() as int) =~= names@);
    }
}

/// `s` is the earliest (in text order) of the starts that are valid dates.
pub open spec fn is_earliest_start(fetch: Seq<(Seq<char>, Seq<char>)>, s: Seq<char>) -> bool {
    &&& exists|i: int| 0 <= i < fetch.len() && #[trigger] fetch[i].1 == s && ymd_day(s) is Some
    &&& forall|i: int|
        0 <= i < fetch.len() && ymd_day(#[trigger] fetch[i].1) is Some ==> !seq_lt(fetch[i].1, s)
}

/// The aggregate window start: the earliest start among those that are valid
/// `YYYY-MM-DD` dates (their text order is their date order).
pub fn earliest_start(fetch: &Vec<TimelogFetch>) -> (r: Option<String>)
    ensures
        match r {
            Some(s) => is_earliest_start(fetch@.map_values(|f: TimelogFetch| (f.name@, f.since@)), s@),
            None => forall|i: int| 0 <= i < fetch@.len() ==> ymd_day(#[trigger] fetch@[i].since@) is None,
        },
{
    let ghost fm = fetch@.map_values(|f: TimelogFetch| (f.name@, f.since@));
    let mut best: Option<usize> = None;
    let mut i: usize = 0;
    while i < fetch.len()
        invariant
            i <= fetch@.len(),
            fm == fetch@.map_values(|f: TimelogFetch| (f.name@, f.since@)),
            match best {
                Some(b) => b < i && ymd_day(fetch@[b as int].since@) is Some && forall|j: int|
                    0 <= j < i && ymd_day(#[trigger] fetch@[j].since@) is Some ==> !seq_lt(
                        fetch@[j].since@,
                        fetch@[b as int].since@,
                    ),
                None => forall|j: int| 0 <= j < i ==> ymd_day(#[trigger] fetch@[j].since@) is None,
            },
        decreases fetch.len() - i,
    {
        if parse_ymd(fetch[i].since.as_str()).is_some() {
            match best {
                Some(b) => {
                    if compare_str_lt(fetch[i].since.as_str(), fetch[b].since.as_str()) {
                        proof {
                            assert forall|j: int|
                                0 <= j < i + 1 && ymd_day(#[trigger] fetch@[j].since@) is Some implies !seq_lt(
                                fetch@[j].since@,
                                fetch@[i as int].since@,
                            ) by {
                                if j < i && seq_lt(fetch@[j].since@, fetch@[i as int].since@) {
                                    crate::strmap::lemma_lt_trans(
                                        fetch@[j].since@,
                                        fetch@[i as int].since@,
                                        fetch@[b as int].since@,
                                    );
                                }
                                if j == i {
                                    crate::strmap::lemma_lt_irrefl(fetch@[i as int].since@);
                                }
                            }
                        }
                        best = Some(i);
                    }
                },
                None => {
                    proof {
                        crate::strmap::lemma_lt_irrefl(fetch@[i as int].since@);
                    }
                    best = Some(i);
                },
            }
        }
        i = i + 1;
    }
    match best {
        Some(b) => {
            let s = fetch[b].since.clone();
            proof {
                assert(fm[b as int].1 == s@);
                assert forall|j: int| 0 <= j < fm.len() && ymd_day(#[trigger] fm[j].1) is Some implies !seq_lt(fm[j].1, s@) by {
                    assert(fm[j].1 == fetch@[j].since@);
                }
            }
            Some(s)
        },
        None => None,
    }
}

fn compare_str_lt(a: &str, b: &str) -> (r: bool)
    ensures
        r == seq_lt(a@, b@),
{
    crate::strmap::compare_str(a, b) == crate::strmap::KeyOrder::Less
}

/// The minutes logged on work package `wp` among `(wp, minutes)` entries.
pub open spec fn wp_logged(es: Seq<(i64, i64)>, wp: i64) -> int
    decreases es.len(),
{
    if es.len() == 0 {
        0
    } else {
        wp_logged(es.drop_last(), wp) + (if es.last().0 == wp {
            es.last().1 as int
        } else {
            0
        })
    }
}

/// The sum of the absolute minutes of `(wp, minutes)` entries.
pub open spec fn wp_abs_total(es: Seq<(i64, i64)>) -> int
    decreases es.len(),
{
    if es.len() == 0 {
        0
    } else {
        wp_abs_total(es.drop_last()) + (if es.last().1 >= 0 {
            es.last().1 as int
        } else {
            -(es.last().1 as int)
        })
    }
}

proof fn lemma_wp_logged_bound(es: Seq<(i64, i64)>, wp: i64)
    ensures
        -wp_abs_total(es) <= wp_logged(es, wp) <= wp_abs_total(es),
    decreases es.len(),
{
    if es.len() > 0 {
        lemma_wp_logged_bound(es.drop_last(), wp);
    }
}

proof fn lemma_wp_abs_prefix(es: Seq<(i64, i64)>, k: int)
    requires
        0 <= k <= es.len(),
    ensures
        wp_abs_total(es.subrange(0, k)) <= wp_abs_total(es),
    decreases es.len() - k,
{
    if k < es.len() {
        lemma_wp_abs_prefix(es, k + 1);
        assert(es.subrange(0, k + 1).drop_last() =~= es.subrange(0, k));
    } else {
        assert(es.subrange(0, k) =~= es);
    }
}

/// Whether the entries' minutes stay within an `i64` total.
pub fn wp_minutes_within_limit(es: &Vec<(i64, i64)>) -> (r: bool)
    ensures
        r == (wp_abs_total(es@) <= i64::MAX),
{
    let mut acc: i128 = 0;
    let mut k: usize = 0;
    while k < es.len()
        invariant
            k <= es@.len(),
            acc == wp_abs_total(es@.subrange(0, k as int)),
            acc <= i64::MAX,
        decreases es.len() - k,
    {
        let m = es[k].1;
        let a: i128 = if m >= 0 { m as i128 } else { -(m as i128) };
        proof {
            assert(es@.subrange(0, k + 1).drop_last() =~= es@.subrange(0, k as int));
        }
        acc = acc + a;
        k = k + 1;
        if acc > i64::MAX as i128 {
            proof {
                lemma_wp_abs_prefix(es@, k as int);
            }
            return false;
        }
    }
    assert(es@.subrange(0, es@.len() as int) =~= es@);
    true
}

fn logged_on_wp(es: &Vec<(i64, i64)>, wp: i64) -> (r: i64)
    requires
        wp_abs_total(es@) <= i64::MAX,
    ensures
        r == wp_logged(es@, wp),
{
    let mut acc: i64 = 0;
    let mut k: usize = 0;
    while k < es.len()
        invariant
            k <= es@.len(),
            wp_abs_total(es@) <= i64::MAX,
            acc == wp_logged(es@.subrange(0, k as int), wp),
        decreases es.len() - k,
    {
        proof {
            let p = es@.subrange(0, k + 1);
            assert(p.drop_last() =~= es@.subrange(0, k as int));
            lemma_wp_logged_bound(p, wp);
            lemma_wp_abs_prefix(es@, k + 1);
        }
        if es[k].0 == wp {
            acc = acc + es[k].1;
        }
        k = k + 1;
    }
    assert(es@.subrange(0, es@.len() as int) =~= es@);
    acc
}

/// The candidates a server's tasks give: each task whose raw id is a
/// number, with the minutes logged on it, in task order.
pub open spec fn spec_candidates(server: Seq<char>, tasks: Seq<Task>, logged: Seq<(i64, i64)>) -> Seq<
    (Seq<char>, i64, Seq<char>, int),
>
    decreases tasks.len(),
{
    if tasks.len() == 0 {
        Seq::empty()
    } else {
        let prev = spec_candidates(server, tasks.drop_last(), logged);
        let t = tasks.last();
        match spec_parse_i64(t.id.raw@) {
            Some(wp) => prev.push((server, wp, t.title@, wp_logged(logged, wp))),
            None => prev,
        }
    }
}

/// The model of a list of candidates.
pub open spec fn candidates_model(v: Seq<Candidate>) -> Seq<(Seq<char>, i64, Seq<char>, int)> {
    v.map_values(|c: Candidate| (c.server@, c.wp_id, c.subject@, c.logged_min as int))
}

/// Append a server's time-logging candidates: its tasks with numeric ids and
/// the minutes already logged on each.
pub fn add_candidates(out: &mut Vec<Candidate>, server: &str, tasks: &Vec<Task>, logged: &Vec<(i64, i64)>)
    requires
        wp_abs_total(logged@) <= i64::MAX,
    ensures
        candidates_model(final(out)@) == candidates_model(old(out)@) + spec_candidates(server@, tasks@, logged@),
{
    let ghost start = candidates_model(out@);
    let mut i: usize = 0;
    assert(start + spec_candidates(server@, tasks@.subrange(0, 0), logged@) =~= start);
    while i < tasks.len()
        invariant
            i <= tasks@.len(),
            wp_abs_total(logged@) <= i64::MAX,
            candidates_model(out@) == start + spec_candidates(server@, tasks@.subrange(0, i as int), logged@),
        decreases tasks.len() - i,
    {
        let t = &tasks[i];
        let ghost prev = candidates_model(out@);
        proof {
            assert(tasks@.subrange(0, i + 1).drop_last() =~= tasks@.subrange(0, i as int));
        }
        match parse_i64(t.id.raw.as_str()) {
            Some(wp) => {
                let logged_min = logged_on_wp(logged, wp);
                out.push(Candidate { server: server.to_string(), wp_id: wp, subject: t.title.clone(), logged_min });
                proof {
                    assert(candidates_model(out@) =~= prev.push((server@, wp, t.title@, wp_logged(logged@, wp))));
                }
            },
            None => {},
        }
        i = i + 1;
    }
    assert(tasks@.subrange(0, tasks@.len() as int) =~= tasks@);
}

/// The open-target token a server stores reads back as the same target.
pub proof fn law_open_target_token_roundtrip(t: OpenTarget)
    ensures
        spec_parse_open_target(Some(open_target_token(t))) == Ok::<Option<OpenTarget>, Seq<char>>(Some(t)),
{
    reveal_strlit("app");
    reveal_strlit("browser");
}

/// The backend token listed for a server reads back as the same backend.
pub proof fn law_backend_token_roundtrip(b: BackendKind)
    ensures
        spec_parse_backend(backend_token(b)) == Some(b),
{
    reveal_strlit("openproject");
    reveal_strlit("github");
    assert("github"@.len() != "openproject"@.len());
}

/// After `set-default` names a configured server, a command with neither a
/// `--server` flag nor an environment selection targets that server.
pub proof fn law_set_default_selects(servers: Map<Seq<char>, ServerProfile>, default_server: Option<Seq<char>>, name: Seq<char>)
    requires
        servers.dom().contains(name),
        default_server == Some(name),
    ensures
        crate::config::spec_chosen_server(None, None, default_server) == Some(name),
        servers.dom().contains(name),
{
}

} // verus!
