//! Typed domain entities shared across backends: tasks, notifications and
//! comments, with the wire tokens of their open-ended kinds.

use vstd::prelude::*;
use crate::strmap::str_eq;

verus! {

/// A task's identity: the human-facing `display` string and the `raw` id the
/// backend uses for its own API calls.
#[derive(Debug, Clone)]
pub struct TaskId {
    pub display: String,
    pub raw: String,
}

/// What kind of thing a task is; `Other` keeps the backend's own label.
#[derive(Debug, Clone)]
pub enum TaskKind {
    Issue,
    PullRequest,
    WorkPackage,
    Other(String),
}

/// The wire token of a task kind.
pub open spec fn task_kind_token(k: TaskKind) -> Seq<char> {
    match k {
        TaskKind::Issue => "issue"@,
        TaskKind::PullRequest => "pullRequest"@,
        TaskKind::WorkPackage => "workPackage"@,
        TaskKind::Other(s) => s@,
    }
}

/// A token reserved for a named task kind.
pub open spec fn is_task_kind_keyword(s: Seq<char>) -> bool {
    s == "issue"@ || s == "pullRequest"@ || s == "workPackage"@
}

/// `k` is the task kind that token `s` parses to.
pub open spec fn task_kind_parses(s: Seq<char>, k: TaskKind) -> bool {
    match k {
        TaskKind::Issue => s == "issue"@,
        TaskKind::PullRequest => s == "pullRequest"@,
        TaskKind::WorkPackage => s == "workPackage"@,
        TaskKind::Other(o) => o@ == s && !is_task_kind_keyword(s),
    }
}

impl TaskKind {
    /// The wire token (`issue` / `pullRequest` / `workPackage`, or the raw
    /// label of `Other`).
    pub fn as_token(&self) -> (r: String)
        ensures
            r@ == task_kind_token(*self),
    {
        match self {
            TaskKind::Issue => "issue".to_string(),
            TaskKind::PullRequest => "pullRequest".to_string(),
            TaskKind::WorkPackage => "workPackage".to_string(),
            TaskKind::Other(s) => s.clone(),
        }
    }

    /// Parse a wire token; anything unrecognized becomes `Other`.
    pub fn from_token(s: &str) -> (r: TaskKind)
        ensures
            task_kind_parses(s@, r),
    {
        if str_eq(s, "issue") {
            TaskKind::Issue
        } else if str_eq(s, "pullRequest") {
            TaskKind::PullRequest
        } else if str_eq(s, "workPackage") {
            TaskKind::WorkPackage
        } else {
            TaskKind::Other(s.to_string())
        }
    }
}

/// Any token parses to a kind whose token is the same text; a kind parses back
/// from its own token unless it is an `Other` holding a reserved token.
pub proof fn lemma_task_kind_token_roundtrip(s: Seq<char>, k: TaskKind)
    ensures
        task_kind_parses(s, k) ==> task_kind_token(k) == s,
        !(k matches TaskKind::Other(o) && is_task_kind_keyword(o@)) ==> task_kind_parses(
            task_kind_token(k),
            k,
        ),
{
}

/// Why a task is in the user's list.
#[derive(Debug, Clone, Copy, PartialEq, Eq, Structural)]
pub enum InboxReason {
    Assigned,
    Authored,
    ReviewRequested,
    Mentioned,
    Involved,
    Own,
}

/// Normalized workflow status bucket.
#[derive(Debug, Clone, Copy, PartialEq, Eq, Structural)]
pub enum StatusCategory {
    Open,
    InProgress,
    Done,
    Unknown,
}

/// One backend-specific extra field; `value` holds the field's JSON text.
#[derive(Debug, Clone)]
pub struct CustomField {
    pub key: String,
    pub name: Option<String>,
    pub value: String,
}

/// A task (issue / pull request / work package) in the user's inbox.
#[derive(Debug, Clone)]
pub struct Task {
    pub id: TaskId,
    pub kind: TaskKind,
    pub reason: InboxReason,
    pub title: String,
    pub url: Option<String>,
    pub status: Option<String>,
    pub status_category: StatusCategory,
    pub project: Option<String>,
    pub mine: bool,
    pub assignee: Option<String>,
    pub author: Option<String>,
    pub created_at: Option<String>,
    pub updated_at: Option<String>,
    pub due_date: Option<String>,
    pub priority: Option<String>,
    pub labels: Vec<String>,
    pub custom_fields: Vec<CustomField>,
}

/// What a notification is about; `Other` keeps the backend's subject type.
#[derive(Debug, Clone)]
pub enum NotifKind {
    Issue,
    PullRequest,
    CheckSuite,
    Other(String),
}

/// The wire token of a notification kind.
pub open spec fn notif_kind_token(k: NotifKind) -> Seq<char> {
    match k {
        NotifKind::Issue => "issue"@,
        NotifKind::PullRequest => "pullRequest"@,
        NotifKind::CheckSuite => "checkSuite"@,
        NotifKind::Other(s) => s@,
    }
}

/// A token reserved for a named notification kind.
pub open spec fn is_notif_kind_keyword(s: Seq<char>) -> bool {
    s == "issue"@ || s == "pullRequest"@ || s == "checkSuite"@
}

/// `k` is the notification kind that token `s` parses to.
pub open spec fn notif_kind_parses(s: Seq<char>, k: NotifKind) -> bool {
    match k {
        NotifKind::Issue => s == "issue"@,
        NotifKind::PullRequest => s == "pullRequest"@,
        NotifKind::CheckSuite => s == "checkSuite"@,
        NotifKind::Other(o) => o@ == s && !is_notif_kind_keyword(s),
    }
}

impl NotifKind {
    /// The wire token (`issue` / `pullRequest` / `checkSuite`, or the raw label).
    pub fn as_token(&self) -> (r: String)
        ensures
            r@ == notif_kind_token(*self),
    {
        match self {
            NotifKind::Issue => "issue".to_string(),
            NotifKind::PullRequest => "pullRequest".to_string(),
            NotifKind::CheckSuite => "checkSuite".to_string(),
            NotifKind::Other(s) => s.clone(),
        }
    }

    /// Parse a wire token; anything unrecognized becomes `Other`.
    pub fn from_token(s: &str) -> (r: NotifKind)
        ensures
            notif_kind_parses(s@, r),
    {
        if str_eq(s, "issue") {
            NotifKind::Issue
        } else if str_eq(s, "pullRequest") {
            NotifKind::PullRequest
        } else if str_eq(s, "checkSuite") {
            NotifKind::CheckSuite
        } else {
            NotifKind::Other(s.to_string())
        }
    }
}

/// Any token parses to a kind with the same token; a kind parses back from its
/// own token unless it is an `Other` holding a reserved token.
pub proof fn lemma_notif_kind_token_roundtrip(s: Seq<char>, k: NotifKind)
    ensures
        notif_kind_parses(s, k) ==> notif_kind_token(k) == s,
        !(k matches NotifKind::Other(o) && is_notif_kind_keyword(o@)) ==> notif_kind_parses(
            notif_kind_token(k),
            k,
        ),
{
}

/// The outcome of a CI (check-suite) notification.
#[derive(Debug, Clone, Copy, PartialEq, Eq, Structural)]
pub enum CiOutcome {
    Failure,
    Success,
    Neutral,
}

/// A notification in the user's inbox.
#[derive(Debug, Clone)]
pub struct Notification {
    pub id: String,
    pub reason: String,
    pub kind: NotifKind,
    pub title: String,
    pub project: Option<String>,
    pub url: Option<String>,
    pub updated_at: Option<String>,
    pub read: bool,
    pub outcome: Option<CiOutcome>,
    pub wp_id: Option<i64>,
}

/// One comment on a task's detail screen.
#[derive(Debug, Clone)]
pub struct Comment {
    pub author: Option<String>,
    pub created_at: Option<String>,
    pub body: String,
}

/// A task opened with its description and comment thread.
#[derive(Debug, Clone)]
pub struct TaskDetail {
    pub task: Task,
    pub description: Option<String>,
    pub comments: Vec<Comment>,
}

} // verus!
