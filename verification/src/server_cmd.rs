//! The `server` command of the CLI: the edits each subcommand makes to the
//! configuration, what it reports, and which follow-up the caller performs
//! (writing the file back, deleting or moving a stored token, printing the
//! list or a profile). Loading and saving the file, the token store and the
//! printing are the caller's.

use vstd::prelude::*;
use crate::config::{
    BackendKind, Config, ServerProfile, StatusColor, opt_view, status_color_of_token,
    spec_chosen_server, opt_str_view, unknown_server_message, default_is_configured,
};
use crate::commands::{
    is_least_key, spec_normalize_proxy, normalize_proxy, remove_from_config, set_default_in_config,
    unknown_server_msg,
};
use crate::error::Error;
use crate::strmap::{StrMap, str_eq};
use crate::text::concat_str;

verus! {

/// A `server` subcommand, as parsed from the command line.
#[derive(Debug)]
pub enum ServerCmd {
    /// List server profiles.
    List,
    /// Add (or with `force` replace) a server profile.
    Add {
        name: String,
        url: String,
        backend: String,
        display_name: Option<String>,
        proxy: Option<String>,
        timeout: u64,
        verify_ssl: bool,
        poll_secs: Option<u64>,
        disabled: bool,
        default: bool,
        force: bool,
    },
    /// Remove a server profile and its stored token.
    Remove { name: String },
    /// Re-key a profile, moving the default and the stored token.
    Rename { old: String, new: String },
    /// Set the default server.
    SetDefault { name: String },
    /// Set or clear the tint of a workflow status on a server.
    StatusColor { server: Option<String>, status: String, color: Option<String>, clear: bool },
    /// Set, clear or show a server's proxy override.
    Proxy { server: Option<String>, proxy: Option<String>, clear: bool },
    /// Set, clear or show the global default proxy.
    GlobalProxy { proxy: Option<String>, clear: bool },
    /// Show a profile.
    Show { name: Option<String> },
}

/// What the caller does after a `server` subcommand ran.
#[derive(Debug)]
pub struct ServerOutcome {
    /// Write the configuration back.
    pub save: bool,
    /// The line to print, if any.
    pub message: Option<String>,
    /// The server whose stored token is deleted.
    pub delete_token: Option<String>,
    /// The stored token moved from the first name to the second.
    pub move_token: Option<(String, String)>,
    /// Print the server list.
    pub list: bool,
    /// Print this server's profile.
    pub show: Option<String>,
}

/// The view of an outcome: save, message, deleted token, moved token, list,
/// shown profile.
pub open spec fn outcome_view(o: ServerOutcome) -> (
    bool,
    Option<Seq<char>>,
    Option<Seq<char>>,
    Option<(Seq<char>, Seq<char>)>,
    bool,
    Option<Seq<char>>,
) {
    (
        o.save,
        opt_view(o.message),
        opt_view(o.delete_token),
        match o.move_token {
            Some(p) => Some((p.0@, p.1@)),
            None => None,
        },
        o.list,
        opt_view(o.show),
    )
}

/// An outcome that saves and prints `m`.
pub open spec fn saved_with(m: Seq<char>) -> (
    bool,
    Option<Seq<char>>,
    Option<Seq<char>>,
    Option<(Seq<char>, Seq<char>)>,
    bool,
    Option<Seq<char>>,
) {
    (true, Some(m), None, None, false, None)
}

/// An outcome that only prints `m`.
pub open spec fn printed(m: Seq<char>) -> (
    bool,
    Option<Seq<char>>,
    Option<Seq<char>>,
    Option<(Seq<char>, Seq<char>)>,
    bool,
    Option<Seq<char>>,
) {
    (false, Some(m), None, None, false, None)
}

fn outcome(save: bool, message: Option<String>) -> (o: ServerOutcome)
    ensures
        outcome_view(o) == (save, opt_view(message), None::<Seq<char>>, None::<(Seq<char>, Seq<char>)>, false, None::<Seq<char>>),
{
    ServerOutcome { save, message, delete_token: None, move_token: None, list: false, show: None }
}

/// The configuration is unchanged.
pub open spec fn unchanged(before: Config, after: Config) -> bool {
    &&& after.servers@ == before.servers@
    &&& opt_view(after.default_server) == opt_view(before.default_server)
    &&& opt_view(after.proxy) == opt_view(before.proxy)
    &&& after.schema_version == before.schema_version
}

/// `s` with `'<name>'` quoted after `prefix`: `prefix'name'suffix`.
pub open spec fn quoted(prefix: Seq<char>, name: Seq<char>, suffix: Seq<char>) -> Seq<char> {
    prefix + "'"@ + name + "'"@ + suffix
}

fn quote(prefix: &str, name: &str, suffix: &str) -> (r: String)
    ensures
        r@ == quoted(prefix@, name@, suffix@),
{
    let a = concat_str(prefix, "'");
    let b = concat_str(a.as_str(), name);
    let c = concat_str(b.as_str(), "'");
    let d = concat_str(c.as_str(), suffix);
    proof {
        assert(d@ =~= quoted(prefix@, name@, suffix@));
    }
    d
}

/// The parsed backend of an `add`.
pub open spec fn add_backend(b: Seq<char>) -> Option<BackendKind> {
    if b == "openproject"@ {
        Some(BackendKind::OpenProject)
    } else if b == "github"@ {
        Some(BackendKind::Github)
    } else {
        None
    }
}

/// `p` is the profile an `add` stores.
pub open spec fn is_added_profile(
    p: ServerProfile,
    url: Seq<char>,
    backend: BackendKind,
    display_name: Option<Seq<char>>,
    proxy: Option<Seq<char>>,
    timeout: u64,
    verify_ssl: bool,
    poll_secs: Option<u64>,
    disabled: bool,
) -> bool {
    &&& p.base_url@ == url
    &&& p.backend == backend
    &&& opt_view(p.display_name) == display_name
    &&& opt_view(p.proxy) == proxy
    &&& p.timeout == timeout
    &&& p.verify_ssl == verify_ssl
    &&& p.poll_secs == poll_secs
    &&& p.enabled == !disabled
    &&& p.timelog_start is None
    &&& p.status_colors@ == Map::<Seq<char>, StatusColor>::empty()
    &&& p.status_filters@.len() == 0
    &&& p.display_fields@.len() == 0
    &&& p.open_content_in is None
}

/// What `add` does.
pub open spec fn add_effect(
    before: Config,
    after: Config,
    name: String,
    url: String,
    backend: String,
    display_name: Option<String>,
    proxy: Option<String>,
    timeout: u64,
    verify_ssl: bool,
    poll_secs: Option<u64>,
    disabled: bool,
    default: bool,
    force: bool,
    r: Result<ServerOutcome, Error>,
) -> bool {
    if !force && before.servers@.dom().contains(name@) {
        (r matches Err(Error::Usage(m)) && m@ == quoted(
            "server "@,
            name@,
            " already exists; use --force to replace it"@,
        )) && unchanged(before, after)
    } else {
        match add_backend(backend@) {
            None => (r matches Err(Error::Usage(m)) && m@ == quoted(
                "unknown backend "@,
                backend@,
                "; expected openproject|github"@,
            )) && unchanged(before, after),
            Some(b) => {
                &&& r matches Ok(o) && outcome_view(o) == saved_with(
                    if before.servers@.dom().contains(name@) {
                        quoted("replaced server "@, name@, ""@)
                    } else {
                        quoted("added server "@, name@, ""@)
                    },
                )
                &&& after.servers@.dom() == before.servers@.dom().insert(name@)
                &&& forall|k: Seq<char>| #[trigger]
                    before.servers@.dom().contains(k) && k != name@ ==> after.servers@[k] == before.servers@[k]
                &&& is_added_profile(
                    after.servers@[name@],
                    url@,
                    b,
                    opt_view(display_name),
                    opt_view(proxy),
                    timeout,
                    verify_ssl,
                    poll_secs,
                    disabled,
                )
                &&& opt_view(after.default_server) == if default || before.default_server is None {
                    Some(name@)
                } else {
                    opt_view(before.default_server)
                }
                &&& opt_view(after.proxy) == opt_view(before.proxy)
                &&& after.schema_version == before.schema_version
            },
        }
    }
}

/// Add a server profile; with `force` an existing one is replaced.
fn cmd_add(
    cfg: &mut Config,
    name: String,
    url: String,
    backend: String,
    display_name: Option<String>,
    proxy: Option<String>,
    timeout: u64,
    verify_ssl: bool,
    poll_secs: Option<u64>,
    disabled: bool,
    default: bool,
    force: bool,
) -> (r: Result<ServerOutcome, Error>)
    ensures
        add_effect(*old(cfg), *final(cfg), name, url, backend, display_name, proxy, timeout, verify_ssl, poll_secs, disabled, default, force, r),
{
    if !force && cfg.servers.contains_key(name.as_str()) {
        return Err(Error::Usage(quote("server ", name.as_str(), " already exists; use --force to replace it")));
    }
    let b = if str_eq(backend.as_str(), "openproject") {
        BackendKind::OpenProject
    } else if str_eq(backend.as_str(), "github") {
        BackendKind::Github
    } else {
        return Err(Error::Usage(quote("unknown backend ", backend.as_str(), "; expected openproject|github")));
    };
    let p = ServerProfile {
        display_name,
        base_url: url,
        backend: b,
        timeout,
        verify_ssl,
        proxy,
        enabled: !disabled,
        poll_secs,
        timelog_start: None,
        status_colors: StrMap::new(),
        status_filters: Vec::new(),
        display_fields: Vec::new(),
        open_content_in: None,
    };
    let ghost nv = name@;
    let replaced = cfg.servers.insert(name.clone(), p).is_some();
    if default || cfg.default_server.is_none() {
        cfg.default_server = Some(name.clone());
    }
    let m = if replaced {
        quote("replaced server ", name.as_str(), "")
    } else {
        quote("added server ", name.as_str(), "")
    };
    proof {
        assert(final(cfg).servers@.dom() =~= old(cfg).servers@.dom().insert(nv));
    }
    Ok(outcome(true, Some(m)))
}

/// What `remove` does.
pub open spec fn remove_effect(before: Config, after: Config, name: String, r: Result<ServerOutcome, Error>) -> bool {
    if !before.servers@.dom().contains(name@) {
        (r matches Err(Error::Usage(m)) && m@ == unknown_server_msg(name@)) && unchanged(before, after)
    } else {
        &&& r matches Ok(o) && outcome_view(o) == (
            true,
            Some(quoted("removed server "@, name@, ""@)),
            Some(name@),
            None::<(Seq<char>, Seq<char>)>,
            false,
            None::<Seq<char>>,
        )
        &&& after.servers@ == before.servers@.remove(name@)
        &&& if opt_view(before.default_server) == Some(name@) {
            match after.default_server {
                Some(d) => is_least_key(after.servers@, d@),
                None => after.servers@.dom().is_empty(),
            }
        } else {
            opt_view(after.default_server) == opt_view(before.default_server)
        }
        &&& opt_view(after.proxy) == opt_view(before.proxy)
        &&& after.schema_version == before.schema_version
    }
}

/// Remove a server profile; the default passes to the least remaining key.
fn cmd_remove(cfg: &mut Config, name: String) -> (r: Result<ServerOutcome, Error>)
    ensures
        remove_effect(*old(cfg), *final(cfg), name, r),
{
    match remove_from_config(cfg, name.as_str()) {
        Err(m) => Err(Error::Usage(m)),
        Ok(()) => Ok(
            ServerOutcome {
                save: true,
                message: Some(quote("removed server ", name.as_str(), "")),
                delete_token: Some(name),
                move_token: None,
                list: false,
                show: None,
            },
        ),
    }
}

/// What `rename` does.
pub open spec fn rename_effect(
    before: Config,
    after: Config,
    old_name: String,
    new_name: String,
    r: Result<ServerOutcome, Error>,
) -> bool {
    if old_name@ == new_name@ {
        (r matches Ok(o) && outcome_view(o) == (
            false,
            None::<Seq<char>>,
            None::<Seq<char>>,
            None::<(Seq<char>, Seq<char>)>,
            false,
            None::<Seq<char>>,
        )) && unchanged(before, after)
    } else if !before.servers@.dom().contains(old_name@) {
        (r matches Err(Error::Usage(m)) && m@ == unknown_server_msg(old_name@)) && unchanged(before, after)
    } else if before.servers@.dom().contains(new_name@) {
        (r matches Err(Error::Usage(m)) && m@ == quoted("server "@, new_name@, " already exists"@))
            && unchanged(before, after)
    } else {
        &&& r matches Ok(o) && outcome_view(o) == (
            true,
            Some(quoted("renamed server "@, old_name@, " to '"@ + new_name@ + "'"@)),
            None::<Seq<char>>,
            Some((old_name@, new_name@)),
            false,
            None::<Seq<char>>,
        )
        &&& after.servers@ == before.servers@.remove(old_name@).insert(new_name@, before.servers@[old_name@])
        &&& opt_view(after.default_server) == if opt_view(before.default_server) == Some(old_name@) {
            Some(new_name@)
        } else {
            opt_view(before.default_server)
        }
        &&& opt_view(after.proxy) == opt_view(before.proxy)
        &&& after.schema_version == before.schema_version
    }
}

/// Re-key a profile: the default follows it and its stored token moves.
fn cmd_rename(cfg: &mut Config, old_name: String, new_name: String) -> (r: Result<ServerOutcome, Error>)
    ensures
        rename_effect(*old(cfg), *final(cfg), old_name, new_name, r),
{
    if str_eq(old_name.as_str(), new_name.as_str()) {
        return Ok(outcome(false, None));
    }
    if !cfg.servers.contains_key(old_name.as_str()) {
        let m = quote("unknown server ", old_name.as_str(), "");
        proof {
            reveal_strlit("unknown server ");
            reveal_strlit("unknown server '");
            reveal_strlit("'");
            reveal_strlit("");
            assert(m@ =~= unknown_server_msg(old_name@));
        }
        return Err(Error::Usage(m));
    }
    if cfg.servers.contains_key(new_name.as_str()) {
        return Err(Error::Usage(quote("server ", new_name.as_str(), " already exists")));
    }
    let profile = match cfg.servers.remove(old_name.as_str()) {
        Some(p) => p,
        None => {
            return Err(Error::Usage(quote("unknown server ", old_name.as_str(), "")));
        },
    };
    cfg.servers.insert(new_name.clone(), profile);
    let was_default = match &cfg.default_server {
        Some(d) => str_eq(d.as_str(), old_name.as_str()),
        None => false,
    };
    if was_default {
        cfg.default_server = Some(new_name.clone());
    }
    let tail = concat_str(" to '", new_name.as_str());
    let tail2 = concat_str(tail.as_str(), "'");
    let m = quote("renamed server ", old_name.as_str(), tail2.as_str());
    Ok(
        ServerOutcome {
            save: true,
            message: Some(m),
            delete_token: None,
            move_token: Some((old_name, new_name)),
            list: false,
            show: None,
        },
    )
}

/// What `set-default` does.
pub open spec fn set_default_effect(before: Config, after: Config, name: String, r: Result<ServerOutcome, Error>) -> bool {
    if !before.servers@.dom().contains(name@) {
        (r matches Err(Error::Usage(m)) && m@ == unknown_server_msg(name@)) && unchanged(before, after)
    } else {
        &&& r matches Ok(o) && outcome_view(o) == saved_with(quoted("default server is now "@, name@, ""@))
        &&& after.servers@ == before.servers@
        &&& opt_view(after.default_server) == Some(name@)
        &&& opt_view(after.proxy) == opt_view(before.proxy)
        &&& after.schema_version == before.schema_version
    }
}

/// Make `name` the default server.
fn cmd_set_default(cfg: &mut Config, name: String) -> (r: Result<ServerOutcome, Error>)
    ensures
        set_default_effect(*old(cfg), *final(cfg), name, r),
{
    match set_default_in_config(cfg, name.as_str()) {
        Err(m) => Err(Error::Usage(m)),
        Ok(()) => Ok(outcome(true, Some(quote("default server is now ", name.as_str(), "")))),
    }
}

/// The message refusing an unknown status color token.
pub open spec fn unknown_color_message(t: Seq<char>) -> Seq<char> {
    quoted("unknown color "@, t, "; expected danger|warn|success|progress|dimmed"@)
}

/// The server a subcommand targets: the flag, else the environment's choice,
/// else the default; it must be configured.
pub open spec fn target_server(cfg: Config, flag: Option<Seq<char>>, env: Option<Seq<char>>) -> Result<
    Seq<char>,
    Seq<char>,
> {
    match spec_chosen_server(flag, env, opt_view(cfg.default_server)) {
        None => Err(crate::config::no_server_message()),
        Some(n) => if cfg.servers@.dom().contains(n) {
            Ok(n)
        } else {
            Err(unknown_server_message(n))
        },
    }
}

fn target(cfg: &Config, flag: &Option<String>, env: Option<&str>) -> (r: Result<String, Error>)
    ensures
        match target_server(*cfg, opt_view(*flag), opt_str_view(env)) {
            Ok(n) => r matches Ok(s) && s@ == n,
            Err(m) => r matches Err(Error::Usage(e)) && e@ == m,
        },
{
    let f: Option<&str> = match flag {
        Some(s) => Some(s.as_str()),
        None => None,
    };
    cfg.resolve_server_name(f, env)
}

/// Only the named profile's tints changed, to `colors`.
pub open spec fn colors_now(before: Config, after: Config, name: Seq<char>, colors: Map<Seq<char>, StatusColor>) -> bool {
    &&& after.servers@.dom() == before.servers@.dom()
    &&& forall|k: Seq<char>| #[trigger] before.servers@.dom().contains(k) && k != name ==> after.servers@[k] == before.servers@[k]
    &&& after.servers@[name].status_colors@ == colors
    &&& opt_view(after.default_server) == opt_view(before.default_server)
    &&& opt_view(after.proxy) == opt_view(before.proxy)
    &&& after.schema_version == before.schema_version
}

/// What `status-color` does.
pub open spec fn status_color_effect(
    before: Config,
    after: Config,
    server: Option<String>,
    status: String,
    color: Option<String>,
    clear: bool,
    env: Option<Seq<char>>,
    r: Result<ServerOutcome, Error>,
) -> bool {
    match target_server(before, opt_view(server), env) {
        Err(m) => (r matches Err(Error::Usage(e)) && e@ == m) && unchanged(before, after),
        Ok(name) => {
            let colors = before.servers@[name].status_colors@;
            match color {
                Some(t) if !clear => match status_color_of_token(t@) {
                    None => (r matches Err(Error::Usage(e)) && e@ == unknown_color_message(t@)) && unchanged(
                        before,
                        after,
                    ),
                    Some(c) => (r matches Ok(o) && outcome_view(o) == saved_with(
                        quoted("status "@, status@, " on '"@ + name + "' -> "@ + t@),
                    )) && colors_now(before, after, name, colors.insert(status@, c)),
                },
                _ => if colors.dom().contains(status@) {
                    (r matches Ok(o) && outcome_view(o) == saved_with(
                        quoted("cleared color for status "@, status@, " on '"@ + name + "'"@),
                    )) && colors_now(before, after, name, colors.remove(status@))
                } else {
                    (r matches Ok(o) && outcome_view(o) == printed(
                        quoted("no color set for status "@, status@, " on '"@ + name + "'"@),
                    )) && colors_now(before, after, name, colors)
                },
            }
        },
    }
}

/// Set (`color` given and not `clear`) or clear a status tint on a server.
fn cmd_status_color(
    cfg: &mut Config,
    server: Option<String>,
    status: String,
    color: Option<String>,
    clear: bool,
    env: Option<&str>,
) -> (r: Result<ServerOutcome, Error>)
    ensures
        status_color_effect(*old(cfg), *final(cfg), server, status, color, clear, opt_str_view(env), r),
{
    let name = target(cfg, &server, env)?;
    let parsed: Option<StatusColor> = match &color {
        Some(t) => {
            if !clear {
                match StatusColor::from_token(t.as_str()) {
                    Some(c) => Some(c),
                    None => {
                        return Err(
                            Error::Usage(
                                quote("unknown color ", t.as_str(), "; expected danger|warn|success|progress|dimmed"),
                            ),
                        );
                    },
                }
            } else {
                None
            }
        },
        None => None,
    };
    let ghost nv = name@;
    let mut p = match cfg.servers.remove(name.as_str()) {
        Some(p) => p,
        None => {
            return Err(Error::Usage(quote("unknown server ", name.as_str(), "")));
        },
    };
    let on = concat_str(" on '", name.as_str());
    let closed = concat_str(on.as_str(), "'");
    let set_tail = concat_str(on.as_str(), "' -> ");
    let t = text_or_empty(&color);
    let set_tail2 = concat_str(set_tail.as_str(), t.as_str());
    let set_msg = quote("status ", status.as_str(), set_tail2.as_str());
    let cleared_msg = quote("cleared color for status ", status.as_str(), closed.as_str());
    let none_msg = quote("no color set for status ", status.as_str(), closed.as_str());
    let mut save = true;
    let ghost p0 = p.status_colors@;
    let ghost sv = status@;
    proof {
        assert(set_msg@ =~= quoted("status "@, sv, " on '"@ + nv + "' -> "@ + t@));
        assert(cleared_msg@ =~= quoted("cleared color for status "@, sv, " on '"@ + nv + "'"@));
        assert(none_msg@ =~= quoted("no color set for status "@, sv, " on '"@ + nv + "'"@));
        assert(p0 == old(cfg).servers@[nv].status_colors@);
    }
    let m = match parsed {
        Some(c) => {
            p.status_colors.insert(status, c);
            proof {
                assert(p.status_colors@ == p0.insert(sv, c));
                assert(color matches Some(tt) && !clear && status_color_of_token(tt@) == Some(c));
            }
            set_msg
        },
        None => {
            proof {
                assert(!(color matches Some(tt) && !clear));
            }
            if p.status_colors.remove(status.as_str()).is_some() {
                proof {
                    assert(p.status_colors@ == p0.remove(sv));
                    assert(p0.dom().contains(sv));
                }
                cleared_msg
            } else {
                proof {
                    assert(!p0.dom().contains(sv));
                    assert(p.status_colors@ =~= p0);
                }
                save = false;
                none_msg
            }
        },
    };
    let ghost p_colors = p.status_colors@;
    cfg.servers.insert(name, p);
    proof {
        assert(final(cfg).servers@.dom() =~= old(cfg).servers@.dom());
    }
    proof {
        let before = *old(cfg);
        let after = *final(cfg);
        assert(target_server(before, opt_view(server), opt_str_view(env)) == Ok::<Seq<char>, Seq<char>>(nv));
        let colors = before.servers@[nv].status_colors@;
        assert(after.servers@[nv].status_colors@ == p_colors);
        assert(after.servers@.dom() == before.servers@.dom());
        assert(opt_view(after.default_server) == opt_view(before.default_server));
        assert(opt_view(after.proxy) == opt_view(before.proxy));
    }
    Ok(outcome(save, Some(m)))
}

/// Only the named profile's proxy changed, to `proxy`.
pub open spec fn proxy_now(before: Config, after: Config, name: Seq<char>, proxy: Option<Seq<char>>) -> bool {
    &&& after.servers@.dom() == before.servers@.dom()
    &&& forall|k: Seq<char>| #[trigger] before.servers@.dom().contains(k) && k != name ==> after.servers@[k] == before.servers@[k]
    &&& opt_view(after.servers@[name].proxy) == proxy
    &&& opt_view(after.default_server) == opt_view(before.default_server)
    &&& opt_view(after.proxy) == opt_view(before.proxy)
    &&& after.schema_version == before.schema_version
}

fn text_or_empty(o: &Option<String>) -> (r: String)
    ensures
        r@ == match *o {
            Some(s) => s@,
            None => Seq::<char>::empty(),
        },
{
    match o {
        Some(s) => s.clone(),
        None => String::new(),
    }
}

/// What `proxy` does.
pub open spec fn proxy_effect(
    before: Config,
    after: Config,
    server: Option<String>,
    proxy: Option<String>,
    clear: bool,
    env: Option<Seq<char>>,
    r: Result<ServerOutcome, Error>,
) -> bool {
    match target_server(before, opt_view(server), env) {
        Err(m) => (r matches Err(Error::Usage(e)) && e@ == m) && unchanged(before, after),
        Ok(name) => if proxy is None && !clear {
            (r matches Ok(o) && outcome_view(o) == printed(
                match before.servers@[name].proxy {
                    Some(p) => p@,
                    None => Seq::<char>::empty(),
                },
            )) && unchanged(before, after)
        } else {
            let v = if clear {
                None
            } else {
                spec_normalize_proxy(opt_view(proxy))
            };
            (r matches Ok(o) && outcome_view(o) == saved_with(
                match v {
                    Some(x) => quoted("proxy for "@, name, " -> "@ + x),
                    None => quoted("cleared proxy override for "@, name, ""@),
                },
            )) && proxy_now(before, after, name, v)
        },
    }
}

/// Show (no value, no `clear`), set or clear a server's proxy override.
fn cmd_proxy(cfg: &mut Config, server: Option<String>, proxy: Option<String>, clear: bool, env: Option<&str>) -> (r:
    Result<ServerOutcome, Error>)
    ensures
        proxy_effect(*old(cfg), *final(cfg), server, proxy, clear, opt_str_view(env), r),
{
    let name = target(cfg, &server, env)?;
    if proxy.is_none() && !clear {
        let current = match cfg.servers.get(name.as_str()) {
            Some(p) => text_or_empty(&p.proxy),
            None => String::new(),
        };
        return Ok(outcome(false, Some(current)));
    }
    let value = if clear {
        None
    } else {
        normalize_proxy(proxy)
    };
    let mut p = match cfg.servers.remove(name.as_str()) {
        Some(p) => p,
        None => {
            return Err(Error::Usage(quote("unknown server ", name.as_str(), "")));
        },
    };
    let m = match &value {
        Some(v) => {
            let tail = concat_str(" -> ", v.as_str());
            quote("proxy for ", name.as_str(), tail.as_str())
        },
        None => quote("cleared proxy override for ", name.as_str(), ""),
    };
    p.proxy = value;
    cfg.servers.insert(name, p);
    proof {
        assert(final(cfg).servers@.dom() =~= old(cfg).servers@.dom());
    }
    Ok(outcome(true, Some(m)))
}

/// What `global-proxy` does.
pub open spec fn global_proxy_effect(before: Config, after: Config, proxy: Option<String>, clear: bool, r: ServerOutcome) -> bool {
    if proxy is None && !clear {
        outcome_view(r) == printed(
            match before.proxy {
                Some(p) => p@,
                None => Seq::<char>::empty(),
            },
        ) && unchanged(before, after)
    } else {
        let v = if clear {
            None
        } else {
            spec_normalize_proxy(opt_view(proxy))
        };
        &&& outcome_view(r) == saved_with(
            match v {
                Some(x) => "global proxy -> "@ + x,
                None => "cleared global proxy"@,
            },
        )
        &&& opt_view(after.proxy) == v
        &&& after.servers@ == before.servers@
        &&& opt_view(after.default_server) == opt_view(before.default_server)
        &&& after.schema_version == before.schema_version
    }
}

/// Show (no value, no `clear`), set or clear the global default proxy.
fn cmd_global_proxy(cfg: &mut Config, proxy: Option<String>, clear: bool) -> (r: ServerOutcome)
    ensures
        global_proxy_effect(*old(cfg), *final(cfg), proxy, clear, r),
{
    if proxy.is_none() && !clear {
        return outcome(false, Some(text_or_empty(&cfg.proxy)));
    }
    let value = if clear {
        None
    } else {
        normalize_proxy(proxy)
    };
    let m = match &value {
        Some(v) => concat_str("global proxy -> ", v.as_str()),
        None => "cleared global proxy".to_string(),
    };
    cfg.proxy = value;
    outcome(true, Some(m))
}

/// What a `server` subcommand does to the configuration and reports.
pub open spec fn server_cmd_effect(
    before: Config,
    after: Config,
    cmd: ServerCmd,
    env: Option<Seq<char>>,
    r: Result<ServerOutcome, Error>,
) -> bool {
    match cmd {
        ServerCmd::List => (r matches Ok(o) && outcome_view(o) == (
            false,
            None::<Seq<char>>,
            None::<Seq<char>>,
            None::<(Seq<char>, Seq<char>)>,
            true,
            None::<Seq<char>>,
        )) && unchanged(before, after),
        ServerCmd::Show { name } => (match target_server(before, opt_view(name), env) {
            Ok(n) => r matches Ok(o) && outcome_view(o) == (
                false,
                None::<Seq<char>>,
                None::<Seq<char>>,
                None::<(Seq<char>, Seq<char>)>,
                false,
                Some(n),
            ),
            Err(m) => r matches Err(Error::Usage(e)) && e@ == m,
        }) && unchanged(before, after),
        ServerCmd::Add {
            name,
            url,
            backend,
            display_name,
            proxy,
            timeout,
            verify_ssl,
            poll_secs,
            disabled,
            default,
            force,
        } => add_effect(
            before,
            after,
            name,
            url,
            backend,
            display_name,
            proxy,
            timeout,
            verify_ssl,
            poll_secs,
            disabled,
            default,
            force,
            r,
        ),
        ServerCmd::Remove { name } => remove_effect(before, after, name, r),
        ServerCmd::Rename { old, new } => rename_effect(before, after, old, new, r),
        ServerCmd::SetDefault { name } => set_default_effect(before, after, name, r),
        ServerCmd::StatusColor { server, status, color, clear } => status_color_effect(
            before,
            after,
            server,
            status,
            color,
            clear,
            env,
            r,
        ),
        ServerCmd::Proxy { server, proxy, clear } => proxy_effect(before, after, server, proxy, clear, env, r),
        ServerCmd::GlobalProxy { proxy, clear } => r matches Ok(o) && global_proxy_effect(
            before,
            after,
            proxy,
            clear,
            o,
        ),
    }
}

/// Run a `server` subcommand against the configuration. `env` is the
/// environment's server selection (`OPENPROJECT_SERVER`), read by the caller.
pub fn run(cfg: &mut Config, cmd: ServerCmd, env: Option<&str>) -> (r: Result<ServerOutcome, Error>)
    ensures
        server_cmd_effect(*old(cfg), *final(cfg), cmd, opt_str_view(env), r),
        default_is_configured(*old(cfg)) ==> default_is_configured(*final(cfg)),
{
    match cmd {
        ServerCmd::List => Ok(
            ServerOutcome {
                save: false,
                message: None,
                delete_token: None,
                move_token: None,
                list: true,
                show: None,
            },
        ),
        ServerCmd::Show { name } => {
            let n = target(cfg, &name, env)?;
            Ok(
                ServerOutcome {
                    save: false,
                    message: None,
                    delete_token: None,
                    move_token: None,
                    list: false,
                    show: Some(n),
                },
            )
        },
        ServerCmd::Add {
            name,
            url,
            backend,
            display_name,
            proxy,
            timeout,
            verify_ssl,
            poll_secs,
            disabled,
            default,
            force,
        } => cmd_add(
            cfg,
            name,
            url,
            backend,
            display_name,
            proxy,
            timeout,
            verify_ssl,
            poll_secs,
            disabled,
            default,
            force,
        ),
        ServerCmd::Remove { name } => cmd_remove(cfg, name),
        ServerCmd::Rename { old, new } => cmd_rename(cfg, old, new),
        ServerCmd::SetDefault { name } => cmd_set_default(cfg, name),
        ServerCmd::StatusColor { server, status, color, clear } => cmd_status_color(
            cfg,
            server,
            status,
            color,
            clear,
            env,
        ),
        ServerCmd::Proxy { server, proxy, clear } => cmd_proxy(cfg, server, proxy, clear, env),
        ServerCmd::GlobalProxy { proxy, clear } => Ok(cmd_global_proxy(cfg, proxy, clear)),
    }
}

} // verus!
