//! Server profiles and the per-backend capability table.
//!
//! Every `supports_*` / `default_*` accessor of [`BackendKind`] reads from the
//! one capability record that [`BackendKind::capabilities`] builds, and each
//! contract says so in terms of [`spec_capabilities`].

use vstd::prelude::*;
use crate::error::Error;
use crate::strmap::{StrMap, str_eq};
use crate::text::concat_str;

verus! {

/// Current `config.json` schema version.
pub const CONFIG_SCHEMA_VERSION: u32 = 2;

/// Which tracker a server profile talks to. Defaults to OpenProject.
#[derive(Debug, Clone, Copy, PartialEq, Eq, Structural)]
pub enum BackendKind {
    OpenProject,
    Github,
}

/// How a notification's read state can be written from the app.
#[derive(Debug, Clone, Copy, PartialEq, Eq, Structural)]
pub enum ReadToggle {
    Unsupported,
    OneWay,
    TwoWay,
}

/// Whether a task can be opened for its description and comment thread.
#[derive(Debug, Clone, Copy, PartialEq, Eq, Structural)]
pub enum DetailSupport {
    Unsupported,
    InApp,
}

/// Time-logging support for a backend.
#[derive(Debug, Clone, Copy, PartialEq, Eq, Structural)]
pub enum TimelogSupport {
    Unsupported,
    Basic,
    WithActivities,
}

/// Where a task opens on click: the in-app detail screen or the browser.
#[derive(Debug, Clone, Copy, PartialEq, Eq, Structural)]
pub enum OpenTarget {
    App,
    Browser,
}

/// The capabilities of a backend, as data.
#[derive(Debug, Clone, Copy, PartialEq, Eq, Structural)]
pub struct Capabilities {
    pub notifications: bool,
    pub notification_read: ReadToggle,
    pub status_filters: bool,
    pub task_detail: DetailSupport,
    pub custom_fields: bool,
    pub timelog: TimelogSupport,
    pub needs_local_history: bool,
    pub default_open_target: OpenTarget,
    pub default_poll_secs: u64,
}

/// The capability table: one record per backend.
pub open spec fn spec_capabilities(b: BackendKind) -> Capabilities {
    match b {
        BackendKind::OpenProject => Capabilities {
            notifications: true,
            notification_read: ReadToggle::TwoWay,
            status_filters: true,
            task_detail: DetailSupport::InApp,
            custom_fields: true,
            timelog: TimelogSupport::WithActivities,
            needs_local_history: true,
            default_open_target: OpenTarget::App,
            default_poll_secs: 120,
        },
        BackendKind::Github => Capabilities {
            notifications: true,
            notification_read: ReadToggle::OneWay,
            status_filters: false,
            task_detail: DetailSupport::Unsupported,
            custom_fields: false,
            timelog: TimelogSupport::Unsupported,
            needs_local_history: false,
            default_open_target: OpenTarget::Browser,
            default_poll_secs: 900,
        },
    }
}

/// Whether a backend logs time at all.
pub open spec fn spec_supports_timelog(b: BackendKind) -> bool {
    spec_capabilities(b).timelog != TimelogSupport::Unsupported
}

/// Whether a backend can open a task in the in-app detail screen.
pub open spec fn spec_supports_task_detail(b: BackendKind) -> bool {
    spec_capabilities(b).task_detail != DetailSupport::Unsupported
}

impl Default for BackendKind {
    fn default() -> (b: BackendKind)
        ensures
            b == BackendKind::OpenProject,
    {
        BackendKind::OpenProject
    }
}

impl BackendKind {
    /// The full capability set for this backend.
    pub fn capabilities(self) -> (c: Capabilities)
        ensures
            c == spec_capabilities(self),
    {
        match self {
            BackendKind::OpenProject => Capabilities {
                notifications: true,
                notification_read: ReadToggle::TwoWay,
                status_filters: true,
                task_detail: DetailSupport::InApp,
                custom_fields: true,
                timelog: TimelogSupport::WithActivities,
                needs_local_history: true,
                default_open_target: OpenTarget::App,
                default_poll_secs: 120,
            },
            BackendKind::Github => Capabilities {
                notifications: true,
                notification_read: ReadToggle::OneWay,
                status_filters: false,
                task_detail: DetailSupport::Unsupported,
                custom_fields: false,
                timelog: TimelogSupport::Unsupported,
                needs_local_history: false,
                default_open_target: OpenTarget::Browser,
                default_poll_secs: 900,
            },
        }
    }

    /// Whether this backend tracks logged time.
    pub fn supports_timelog(self) -> (r: bool)
        ensures
            r == (spec_capabilities(self).timelog != TimelogSupport::Unsupported),
            r == spec_supports_timelog(self),
    {
        self.capabilities().timelog != TimelogSupport::Unsupported
    }

    /// Whether logging time lets the user pick an activity type.
    pub fn supports_time_activities(self) -> (r: bool)
        ensures
            r == (spec_capabilities(self).timelog == TimelogSupport::WithActivities),
    {
        self.capabilities().timelog == TimelogSupport::WithActivities
    }

    /// Whether a local assignee history is kept for this backend.
    pub fn needs_local_history(self) -> (r: bool)
        ensures
            r == spec_capabilities(self).needs_local_history,
    {
        self.capabilities().needs_local_history
    }

    /// Whether this backend exposes a notification inbox.
    pub fn supports_notifications(self) -> (r: bool)
        ensures
            r == spec_capabilities(self).notifications,
    {
        self.capabilities().notifications
    }

    /// Whether a notification's read state can be written from the app.
    pub fn supports_notification_read_toggle(self) -> (r: bool)
        ensures
            r == (spec_capabilities(self).notification_read != ReadToggle::Unsupported),
    {
        self.capabilities().notification_read != ReadToggle::Unsupported
    }

    /// Whether tasks carry a workflow status worth filtering by.
    pub fn supports_status_filters(self) -> (r: bool)
        ensures
            r == spec_capabilities(self).status_filters,
    {
        self.capabilities().status_filters
    }

    /// Whether a task can be opened in the in-app detail screen.
    pub fn supports_task_detail(self) -> (r: bool)
        ensures
            r == (spec_capabilities(self).task_detail != DetailSupport::Unsupported),
            r == spec_supports_task_detail(self),
    {
        self.capabilities().task_detail != DetailSupport::Unsupported
    }

    /// Whether tasks carry custom fields shown as extra columns.
    pub fn supports_custom_fields(self) -> (r: bool)
        ensures
            r == spec_capabilities(self).custom_fields,
    {
        self.capabilities().custom_fields
    }

    /// Default polling interval in seconds.
    pub fn default_poll_secs(self) -> (r: u64)
        ensures
            r == spec_capabilities(self).default_poll_secs,
    {
        self.capabilities().default_poll_secs
    }

    /// Where a task opens when the user has not overridden it.
    pub fn default_open_target(self) -> (r: OpenTarget)
        ensures
            r == spec_capabilities(self).default_open_target,
    {
        self.capabilities().default_open_target
    }
}

/// The lowercase token of an open target.
pub open spec fn open_target_token(t: OpenTarget) -> Seq<char> {
    match t {
        OpenTarget::App => "app"@,
        OpenTarget::Browser => "browser"@,
    }
}

impl OpenTarget {
    /// The lowercase token passed to the GUI (`app` / `browser`).
    pub fn token(self) -> (r: &'static str)
        ensures
            r@ == open_target_token(self),
    {
        match self {
            OpenTarget::App => "app",
            OpenTarget::Browser => "browser",
        }
    }
}

/// Semantic tint for a task row, keyed by workflow status per server.
#[derive(Debug, Clone, Copy, PartialEq, Eq, Structural)]
pub enum StatusColor {
    Danger,
    Warn,
    Success,
    Progress,
    Dimmed,
}

/// The lowercase token of a status color.
pub open spec fn status_color_token(c: StatusColor) -> Seq<char> {
    match c {
        StatusColor::Danger => "danger"@,
        StatusColor::Warn => "warn"@,
        StatusColor::Success => "success"@,
        StatusColor::Progress => "progress"@,
        StatusColor::Dimmed => "dimmed"@,
    }
}

/// The status color a token names, if any.
pub open spec fn status_color_of_token(s: Seq<char>) -> Option<StatusColor> {
    if s == "danger"@ {
        Some(StatusColor::Danger)
    } else if s == "warn"@ {
        Some(StatusColor::Warn)
    } else if s == "success"@ {
        Some(StatusColor::Success)
    } else if s == "progress"@ {
        Some(StatusColor::Progress)
    } else if s == "dimmed"@ {
        Some(StatusColor::Dimmed)
    } else {
        None
    }
}

impl StatusColor {
    /// Parse a lowercase token, `None` for anything else.
    pub fn from_token(s: &str) -> (r: Option<StatusColor>)
        ensures
            r == status_color_of_token(s@),
    {
        if str_eq(s, "danger") {
            Some(StatusColor::Danger)
        } else if str_eq(s, "warn") {
            Some(StatusColor::Warn)
        } else if str_eq(s, "success") {
            Some(StatusColor::Success)
        } else if str_eq(s, "progress") {
            Some(StatusColor::Progress)
        } else if str_eq(s, "dimmed") {
            Some(StatusColor::Dimmed)
        } else {
            None
        }
    }

    /// The lowercase token for this color (inverse of `from_token`).
    pub fn token(self) -> (r: &'static str)
        ensures
            r@ == status_color_token(self),
    {
        match self {
            StatusColor::Danger => "danger",
            StatusColor::Warn => "warn",
            StatusColor::Success => "success",
            StatusColor::Progress => "progress",
            StatusColor::Dimmed => "dimmed",
        }
    }
}

/// Parsing a color's token gives the color back, and a token parses to a color
/// exactly when it is that color's token.
pub proof fn lemma_status_color_token_roundtrip(c: StatusColor, s: Seq<char>)
    ensures
        status_color_of_token(status_color_token(c)) == Some(c),
        status_color_of_token(s) == Some(c) <==> s == status_color_token(c),
{
    reveal_strlit("danger");
    reveal_strlit("warn");
    reveal_strlit("success");
    reveal_strlit("progress");
    reveal_strlit("dimmed");
    assert("danger"@.len() == 6 && "warn"@.len() == 4 && "success"@.len() == 7);
    assert("progress"@.len() == 8 && "dimmed"@.len() == 6);
    assert("danger"@[1] != "dimmed"@[1]);
}

/// A named status filter, shown as a task-list tab.
#[derive(Debug, Clone)]
pub struct StatusFilter {
    pub label: String,
    pub statuses: Vec<String>,
}

/// Per-server timelog window start (`date` is `YYYY-MM-DD`; `auto` marks the
/// first-launch seed that the user has not confirmed).
#[derive(Debug, Clone)]
pub struct TimelogStart {
    pub date: String,
    pub auto: bool,
}

/// One configured server.
#[derive(Debug)]
pub struct ServerProfile {
    pub display_name: Option<String>,
    pub base_url: String,
    pub backend: BackendKind,
    pub timeout: u64,
    pub verify_ssl: bool,
    pub proxy: Option<String>,
    pub enabled: bool,
    pub poll_secs: Option<u64>,
    pub timelog_start: Option<TimelogStart>,
    pub status_colors: StrMap<StatusColor>,
    pub status_filters: Vec<StatusFilter>,
    pub display_fields: Vec<String>,
    pub open_content_in: Option<OpenTarget>,
}

/// The open target a profile asks for: its override, else the backend
/// default; `App` degrades to `Browser` where the backend has no detail screen.
pub open spec fn spec_effective_open_target(p: ServerProfile) -> OpenTarget {
    let want = match p.open_content_in {
        Some(t) => t,
        None => spec_capabilities(p.backend).default_open_target,
    };
    if want == OpenTarget::App && !spec_supports_task_detail(p.backend) {
        OpenTarget::Browser
    } else {
        want
    }
}

/// A profile's poll interval: an explicit positive value, else the backend's.
pub open spec fn spec_effective_poll_secs(p: ServerProfile) -> u64 {
    match p.poll_secs {
        Some(secs) if secs > 0 => secs,
        _ => spec_capabilities(p.backend).default_poll_secs,
    }
}

/// The name a profile is shown under: its display name, else its key.
pub open spec fn spec_display(p: ServerProfile, key: Seq<char>) -> Seq<char> {
    match p.display_name {
        Some(n) => n@,
        None => key,
    }
}

impl ServerProfile {
    /// A profile with the defaults a bare `{"base_url": ..}` entry gets.
    pub fn with_base_url(base_url: String) -> (p: ServerProfile)
        ensures
            p.base_url@ == base_url@,
            p.display_name is None,
            p.backend == BackendKind::OpenProject,
            p.timeout == 30,
            p.verify_ssl,
            p.proxy is None,
            p.enabled,
            p.poll_secs is None,
            p.timelog_start is None,
            p.status_colors@ == Map::<Seq<char>, StatusColor>::empty(),
            p.status_filters@.len() == 0,
            p.display_fields@.len() == 0,
            p.open_content_in is None,
    {
        ServerProfile {
            display_name: None,
            base_url,
            backend: BackendKind::OpenProject,
            timeout: 30,
            verify_ssl: true,
            proxy: None,
            enabled: true,
            poll_secs: None,
            timelog_start: None,
            status_colors: StrMap::new(),
            status_filters: Vec::new(),
            display_fields: Vec::new(),
            open_content_in: None,
        }
    }

    /// The configured tint for a task with the given status, if any.
    pub fn status_color(&self, status: &str) -> (r: Option<StatusColor>)
        ensures
            match r {
                Some(c) => self.status_colors@.dom().contains(status@)
                    && c == self.status_colors@[status@],
                None => !self.status_colors@.dom().contains(status@),
            },
    {
        match self.status_colors.get(status) {
            Some(c) => Some(*c),
            None => None,
        }
    }

    /// Effective open target: the override, else the backend default, with
    /// `App` falling back to `Browser` where there is no detail screen.
    pub fn effective_open_target(&self) -> (r: OpenTarget)
        ensures
            r == spec_effective_open_target(*self),
    {
        let want = match self.open_content_in {
            Some(t) => t,
            None => self.backend.default_open_target(),
        };
        if want == OpenTarget::App && !self.backend.supports_task_detail() {
            OpenTarget::Browser
        } else {
            want
        }
    }

    /// Full display name: `display_name` if set, else the profile's key.
    pub fn display<'a>(&'a self, key: &'a str) -> (r: &'a str)
        ensures
            r@ == spec_display(*self, key@),
    {
        match &self.display_name {
            Some(n) => n.as_str(),
            None => key,
        }
    }

    /// Effective poll interval: an explicit `poll_secs` when > 0, else the
    /// backend default. A stored 0 never disables polling.
    pub fn effective_poll_secs(&self) -> (r: u64)
        ensures
            r == spec_effective_poll_secs(*self),
            r > 0,
    {
        match self.poll_secs {
            Some(secs) => {
                if secs > 0 {
                    secs
                } else {
                    self.backend.default_poll_secs()
                }
            },
            None => self.backend.default_poll_secs(),
        }
    }
}

/// The whole configuration file.
#[derive(Debug)]
pub struct Config {
    pub schema_version: u32,
    pub default_server: Option<String>,
    pub proxy: Option<String>,
    pub servers: StrMap<ServerProfile>,
}

impl Default for Config {
    fn default() -> (c: Config)
        ensures
            c.schema_version == CONFIG_SCHEMA_VERSION,
            c.default_server is None,
            c.proxy is None,
            c.servers@ == Map::<Seq<char>, ServerProfile>::empty(),
    {
        Config {
            schema_version: CONFIG_SCHEMA_VERSION,
            default_server: None,
            proxy: None,
            servers: StrMap::new(),
        }
    }
}

/// The default server, when one is set, is a configured server.
pub open spec fn default_is_configured(c: Config) -> bool {
    match c.default_server {
        Some(d) => c.servers@.dom().contains(d@),
        None => true,
    }
}

/// The server name a command targets: the flag, else the environment's
/// choice, else the configured default.
pub open spec fn spec_chosen_server(
    flag: Option<Seq<char>>,
    env: Option<Seq<char>>,
    default_server: Option<Seq<char>>,
) -> Option<Seq<char>> {
    match flag {
        Some(f) => Some(f),
        None => match env {
            Some(e) => Some(e),
            None => default_server,
        },
    }
}

/// The view of an optional string.
pub open spec fn opt_view(o: Option<String>) -> Option<Seq<char>> {
    match o {
        Some(s) => Some(s@),
        None => None,
    }
}

/// The view of an optional string slice.
pub open spec fn opt_str_view(o: Option<&str>) -> Option<Seq<char>> {
    match o {
        Some(s) => Some(s@),
        None => None,
    }
}

/// The message of the error for a selection that names no configured server.
pub open spec fn unknown_server_message(name: Seq<char>) -> Seq<char> {
    "unknown server '"@ + name + "'"@
}

/// The message of the error when nothing selects a server.
pub open spec fn no_server_message() -> Seq<char> {
    "no server selected: pass --server or set a default (server set-default)"@
}

impl Config {
    /// Resolve the active server name: an explicit flag wins, then the
    /// environment's selection (`OPENPROJECT_SERVER`, read by the caller), then
    /// `default_server`. The chosen name must be a configured server.
    pub fn resolve_server_name(&self, flag: Option<&str>, env: Option<&str>) -> (r: Result<
        String,
        Error,
    >)
        ensures
            match spec_chosen_server(opt_str_view(flag), opt_str_view(env), opt_view(self.default_server)) {
                None => r matches Err(Error::Usage(m)) && m@ == no_server_message(),
                Some(name) => if self.servers@.dom().contains(name) {
                    r matches Ok(s) && s@ == name
                } else {
                    r matches Err(Error::Usage(m)) && m@ == unknown_server_message(name)
                },
            },
    {
        let name: String = match flag {
            Some(f) => f.to_string(),
            None => match env {
                Some(e) => e.to_string(),
                None => match &self.default_server {
                    Some(d) => d.clone(),
                    None => {
                        return Err(
                            Error::Usage(
                                "no server selected: pass --server or set a default (server set-default)".to_string(),
                            ),
                        );
                    },
                },
            },
        };
        if !self.servers.contains_key(name.as_str()) {
            let m1 = concat_str("unknown server '", name.as_str());
            let m = concat_str(m1.as_str(), "'");
            return Err(Error::Usage(m));
        }
        Ok(name)
    }
}

} // verus!
