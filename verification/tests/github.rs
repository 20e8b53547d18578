use std::cell::RefCell;
use std::rc::Rc;

use taskstream_core::entities::{self, CiOutcome, InboxReason, NotifKind, StatusCategory};
use taskstream_core::error::Error;
use taskstream_core::github::{
    check_suite_branch, check_suite_outcome, check_suite_workflow, dedup_by_id, gh_item_of_json,
    gh_notif_of_json, gh_run_of_json, gh_status, match_run_url, notification_from_gh,
    search_plan, task_from_gh, GhRun, GhRunner, GhStatus, GithubBackend, TaskKind,
};

/// Fake runner returning canned fixtures keyed by the leading args.
struct FakeGh {
    issues: Vec<u8>,
    prs: Vec<u8>,
    notifications: Vec<u8>,
}

impl GhRunner for FakeGh {
    fn run(&self, args: &[&str]) -> Result<Vec<u8>, Error> {
        match (args.first().copied(), args.get(1).copied()) {
            (Some("search"), Some("issues")) => Ok(self.issues.clone()),
            (Some("search"), Some("prs")) => Ok(self.prs.clone()),
            (Some("api"), Some("user")) => Ok(b"testuser".to_vec()),
            (Some("api"), Some(p)) if p.starts_with("notifications") => {
                Ok(self.notifications.clone())
            }
            _ => Err(Error::Api(format!("unexpected gh args: {args:?}"))),
        }
    }
}

/// Recording runner: serves notifications, empty output for anything else.
struct RecordGh {
    notifications: Vec<u8>,
    calls: Rc<RefCell<Vec<String>>>,
}

impl RecordGh {
    fn new(notifications: Vec<u8>) -> (Self, Rc<RefCell<Vec<String>>>) {
        let calls = Rc::new(RefCell::new(Vec::new()));
        (
            Self {
                notifications,
                calls: calls.clone(),
            },
            calls,
        )
    }
}

impl GhRunner for RecordGh {
    fn run(&self, args: &[&str]) -> Result<Vec<u8>, Error> {
        self.calls.borrow_mut().push(args.join(" "));
        match (args.first().copied(), args.get(1).copied()) {
            (Some("api"), Some(p)) if p.starts_with("notifications") => {
                Ok(self.notifications.clone())
            }
            _ => Ok(Vec::new()),
        }
    }
}

struct StatusGh {
    installed: bool,
    authed: bool,
}

impl GhRunner for StatusGh {
    fn run(&self, args: &[&str]) -> Result<Vec<u8>, Error> {
        match args.first().copied() {
            Some("--version") if self.installed => Ok(Vec::new()),
            Some("--version") => Err(Error::Io("spawn gh: not found".into())),
            Some("auth") if self.authed => Ok(Vec::new()),
            Some("auth") => Err(Error::Api("not logged in".into())),
            _ => Err(Error::Api(format!("unexpected gh args: {args:?}"))),
        }
    }
}

struct CiGh {
    notifs: Vec<u8>,
    runs: Result<Vec<u8>, ()>,
}

impl GhRunner for CiGh {
    fn run(&self, args: &[&str]) -> Result<Vec<u8>, Error> {
        match (args.first().copied(), args.get(1).copied()) {
            (Some("api"), Some(p)) if p.starts_with("notifications") => Ok(self.notifs.clone()),
            (Some("api"), Some(p)) if p.contains("/actions/runs") => self
                .runs
                .clone()
                .map_err(|()| Error::Api("runs unavailable".into())),
            _ => Err(Error::Api(format!("unexpected gh args: {args:?}"))),
        }
    }
}

fn notif(json: &str) -> entities::Notification {
    let v: serde_json::Value = serde_json::from_str(json).unwrap();
    notification_from_gh(&gh_notif_of_json(&v))
}

fn runs(json: &str) -> Vec<GhRun> {
    let v: Vec<serde_json::Value> = serde_json::from_str(json).unwrap();
    v.iter().map(gh_run_of_json).collect()
}

#[test]
fn mark_notification_read_patches_the_thread() {
    let (gh, calls) = RecordGh::new(b"[]".to_vec());
    GithubBackend::new(gh).mark_notification_read(42).unwrap();
    assert_eq!(
        calls.borrow().as_slice(),
        &["api -X PATCH notifications/threads/42"]
    );
}

#[test]
fn mark_all_read_counts_unread_then_puts() {
    let notifs = br#"[{"id":"1","subject":{"title":"A"}},{"id":"2","subject":{"title":"B"}}]"#.to_vec();
    let (gh, calls) = RecordGh::new(notifs);
    let count = GithubBackend::new(gh).mark_all_notifications_read().unwrap();
    assert_eq!(count, 2);
    assert_eq!(
        calls.borrow().as_slice(),
        &["api notifications?all=true", "api -X PUT notifications"]
    );
}

#[test]
fn list_notifications_requests_read_ones_too() {
    let (gh, calls) = RecordGh::new(b"[]".to_vec());
    GithubBackend::new(gh).list_notifications().unwrap();
    assert_eq!(calls.borrow().as_slice(), &["api notifications?all=true"]);
}

#[test]
fn notification_from_gh_sets_read_flag_from_unread() {
    let read = notif(r#"{"id": "1", "unread": false, "subject": {"title": "done"}}"#);
    assert!(read.read);
    let unread = notif(r#"{"id": "2", "unread": true, "subject": {"title": "pending"}}"#);
    assert!(!unread.read);
    let absent = notif(r#"{"id": "3", "subject": {"title": "legacy"}}"#);
    assert!(!absent.read);
}

#[test]
fn gh_status_classifies_missing_unauth_ready() {
    assert_eq!(
        gh_status(&StatusGh {
            installed: false,
            authed: false
        }),
        GhStatus::Missing
    );
    assert_eq!(
        gh_status(&StatusGh {
            installed: true,
            authed: false
        }),
        GhStatus::Unauthenticated
    );
    assert_eq!(
        gh_status(&StatusGh {
            installed: true,
            authed: true
        }),
        GhStatus::Ready
    );
}

#[test]
fn notification_from_gh_browser_url_for_pr_and_fallback() {
    let pr = notif(
        r#"{"subject": {"title": "PR", "type": "PullRequest", "url": "https://api.github.com/repos/acme/app/pulls/7"},
            "repository": {"full_name": "acme/app", "html_url": "https://github.com/acme/app"}}"#,
    );
    assert_eq!(pr.url.as_deref(), Some("https://github.com/acme/app/pull/7"));
    let fallback = notif(
        r#"{"subject": {"title": "I", "type": "Issue", "url": "https://api.github.com/repos/acme/app/issues/3"},
            "repository": {"full_name": "acme/app"}}"#,
    );
    assert_eq!(
        fallback.url.as_deref(),
        Some("https://github.com/acme/app/issues/3")
    );
    let disc = notif(
        r#"{"subject": {"title": "D", "type": "Discussion", "url": "https://api.github.com/repos/acme/app/discussions/1"},
            "repository": {"full_name": "acme/app"}}"#,
    );
    assert_eq!(disc.url, None);
}

#[test]
fn notification_from_gh_check_suite_links_to_actions_page() {
    let ci = notif(
        r#"{"subject": {"title": "CI workflow run failed", "type": "CheckSuite", "url": null},
            "repository": {"full_name": "acme/app", "html_url": "https://github.com/acme/app"}}"#,
    );
    assert_eq!(ci.url.as_deref(), Some("https://github.com/acme/app/actions"));
}

#[test]
fn check_suite_outcome_classifies_by_title() {
    assert_eq!(
        check_suite_outcome("CI workflow run failed for main branch"),
        "failure"
    );
    assert_eq!(
        check_suite_outcome("CI workflow run succeeded for main branch"),
        "success"
    );
    assert_eq!(check_suite_outcome("All checks passed"), "success");
    assert_eq!(check_suite_outcome("CI workflow run cancelled"), "neutral");
    assert_eq!(check_suite_outcome(""), "neutral");
}

#[test]
fn task_from_gh_maps_to_the_typed_entity() {
    let v: serde_json::Value = serde_json::from_str(
        r#"{"number": 7, "title": "Fix gearbox", "state": "open",
            "repository": {"nameWithOwner": "acme/widgets"},
            "assignees": [{"login": "dana"}, {"login": "robin"}],
            "createdAt": "2026-07-01T09:00:00Z", "updatedAt": "2026-07-10T12:00:00Z",
            "url": "https://example.test/acme/widgets/pull/7"}"#,
    )
    .unwrap();
    let t = task_from_gh(
        &gh_item_of_json(&v),
        TaskKind::PullRequest,
        InboxReason::ReviewRequested,
    );
    assert_eq!(t.id.display, "acme/widgets#7");
    assert_eq!(t.id.raw, "7");
    assert!(matches!(t.kind, entities::TaskKind::PullRequest));
    assert_eq!(t.reason, InboxReason::ReviewRequested);
    assert_eq!(t.title, "Fix gearbox");
    assert_eq!(t.status.as_deref(), Some("open"));
    assert_eq!(t.status_category, StatusCategory::Open);
    assert_eq!(t.project.as_deref(), Some("acme/widgets"));
    assert_eq!(t.assignee.as_deref(), Some("dana, robin"));
    assert_eq!(
        t.url.as_deref(),
        Some("https://example.test/acme/widgets/pull/7")
    );
}

#[test]
fn task_without_repository_or_number() {
    let v: serde_json::Value =
        serde_json::from_str(r#"{"number": 12, "state": "MERGED", "assignees": []}"#).unwrap();
    let t = task_from_gh(&gh_item_of_json(&v), TaskKind::Issue, InboxReason::Own);
    assert_eq!(t.id.display, "12");
    assert_eq!(t.project, None);
    assert_eq!(t.assignee, None);
    assert_eq!(t.status_category, StatusCategory::Done);
    let v: serde_json::Value = serde_json::from_str(r#"{"title": "x"}"#).unwrap();
    let t = task_from_gh(&gh_item_of_json(&v), TaskKind::Issue, InboxReason::Own);
    assert_eq!(t.id.display, "");
    assert_eq!(t.id.raw, "");
    assert_eq!(t.status_category, StatusCategory::Unknown);
}

#[test]
fn notification_from_gh_maps_check_suite_with_outcome_and_browser_url() {
    let n = notif(
        r#"{"id": "42", "reason": "ci_activity", "unread": true,
            "subject": {"title": "CI workflow run failed for main branch", "type": "CheckSuite"},
            "repository": {"full_name": "acme/widgets"},
            "updated_at": "2026-07-10T12:00:00Z"}"#,
    );
    assert_eq!(n.id, "42");
    assert_eq!(n.reason, "ci_activity");
    assert!(matches!(n.kind, NotifKind::CheckSuite));
    assert_eq!(n.outcome, Some(CiOutcome::Failure));
    assert!(!n.read);
    assert_eq!(n.wp_id, None);
    let n2 = notif(
        r#"{"id": "9", "reason": "mention", "unread": false,
            "subject": {"title": "Ping", "type": "Issue",
                "url": "https://api.github.com/repos/acme/widgets/issues/3"},
            "repository": {"full_name": "acme/widgets"}}"#,
    );
    assert!(matches!(n2.kind, NotifKind::Issue));
    assert!(n2.read);
    assert_eq!(n2.outcome, None);
    assert_eq!(
        n2.url.as_deref(),
        Some("https://github.com/acme/widgets/issues/3")
    );
}

#[test]
fn list_my_tasks_merges_issues_and_prs() {
    let fake = FakeGh {
        issues: br#"[{"number": 1, "title": "I1", "state": "open",
            "repository": {"nameWithOwner": "acme/app"}, "assignees": [{"login": "me"}]}]"#
            .to_vec(),
        prs: br#"[{"number": 2, "title": "P2", "state": "open",
            "repository": {"nameWithOwner": "acme/app"}, "assignees": []}]"#
            .to_vec(),
        notifications: b"[]".to_vec(),
    };
    let out = GithubBackend::new(fake).list_my_tasks().unwrap();
    assert_eq!(out.len(), 2);
    assert!(matches!(out[0].kind, entities::TaskKind::Issue));
    assert_eq!(out[0].id.display, "acme/app#1");
    assert!(matches!(out[1].kind, entities::TaskKind::PullRequest));
    assert_eq!(out[1].id.display, "acme/app#2");
    assert_eq!(out[1].reason, InboxReason::ReviewRequested);
}

fn task(display: &str, reason: InboxReason) -> entities::Task {
    entities::Task {
        id: entities::TaskId {
            display: display.into(),
            raw: display.into(),
        },
        kind: entities::TaskKind::Issue,
        reason,
        title: String::new(),
        url: None,
        status: None,
        status_category: StatusCategory::Unknown,
        project: None,
        mine: false,
        assignee: None,
        author: None,
        created_at: None,
        updated_at: None,
        due_date: None,
        priority: None,
        labels: Vec::new(),
        custom_fields: Vec::new(),
    }
}

#[test]
fn dedup_by_id_keeps_first_occurrence_and_order() {
    let a1 = task("acme/app#1", InboxReason::ReviewRequested);
    let a1_dup = task("acme/app#1", InboxReason::Involved);
    let b2 = task("acme/app#2", InboxReason::Own);
    let out = dedup_by_id(vec![a1, b2, a1_dup]);
    assert_eq!(out.len(), 2);
    assert_eq!(out[0].id.display, "acme/app#1");
    assert_eq!(out[0].reason, InboxReason::ReviewRequested);
    assert_eq!(out[1].id.display, "acme/app#2");
}

#[test]
fn dedup_falls_back_to_url_when_display_is_empty() {
    let mut a = task("", InboxReason::Own);
    a.url = Some("https://x/1".into());
    let mut b = task("", InboxReason::Involved);
    b.url = Some("https://x/1".into());
    let mut c = task("", InboxReason::Involved);
    c.url = Some("https://x/2".into());
    let out = dedup_by_id(vec![a, b, c]);
    assert_eq!(out.len(), 2);
    assert_eq!(out[0].reason, InboxReason::Own);
    assert_eq!(out[1].url.as_deref(), Some("https://x/2"));
}

#[test]
fn parses_workflow_and_branch_from_check_suite_title() {
    let t = "CI workflow run failed for deps/keyring-core branch";
    assert_eq!(check_suite_workflow(t).as_deref(), Some("CI"));
    assert_eq!(check_suite_branch(t), Some("deps/keyring-core".to_string()));
    assert_eq!(check_suite_workflow("Deploy done"), None);
    assert_eq!(check_suite_branch("no branch marker here"), None);
}

#[test]
fn match_run_url_picks_workflow_branch_and_nearest_time() {
    let runs = runs(
        r#"[
            {"name":"CI","head_branch":"feat","updated_at":"2026-07-15T11:21:20Z",
             "html_url":"https://github.com/acme/app/actions/runs/999"},
            {"name":"CI","head_branch":"master","updated_at":"2026-07-15T11:21:19Z",
             "html_url":"https://github.com/acme/app/actions/runs/111"},
            {"name":"Audit","head_branch":"feat","updated_at":"2026-07-15T11:21:18Z",
             "html_url":"https://github.com/acme/app/actions/runs/222"},
            {"name":"CI","head_branch":"feat","updated_at":"2026-07-10T00:00:00Z",
             "html_url":"https://github.com/acme/app/actions/runs/333"}
        ]"#,
    );
    assert_eq!(
        match_run_url(
            &runs,
            "CI workflow run failed for feat branch",
            "2026-07-15T11:21:18Z"
        ),
        Some("https://github.com/acme/app/actions/runs/999".to_string())
    );
    assert_eq!(
        match_run_url(
            &runs,
            "Release workflow run failed for feat branch",
            "2026-07-15T11:21:18Z"
        ),
        None
    );
}

fn ci_notification() -> Vec<u8> {
    br#"[{
        "id":"1","reason":"ci_activity",
        "subject":{"title":"CI workflow run failed for deps/keyring-core branch",
                   "type":"CheckSuite","url":null},
        "repository":{"full_name":"acme/app","html_url":"https://github.com/acme/app"},
        "updated_at":"2026-07-15T11:21:18Z"
    }]"#
    .to_vec()
}

#[test]
fn list_notifications_links_check_suite_to_specific_run() {
    let runs = br#"{"workflow_runs":[
        {"name":"CI","head_branch":"deps/keyring-core","updated_at":"2026-07-15T11:21:20Z",
         "html_url":"https://github.com/acme/app/actions/runs/999"},
        {"name":"CI","head_branch":"master","updated_at":"2026-07-15T11:21:19Z",
         "html_url":"https://github.com/acme/app/actions/runs/111"}
    ]}"#
    .to_vec();
    let gh = CiGh {
        notifs: ci_notification(),
        runs: Ok(runs),
    };
    let out = GithubBackend::new(gh).list_notifications().unwrap();
    assert_eq!(
        out[0].url.as_deref(),
        Some("https://github.com/acme/app/actions/runs/999")
    );
}

#[test]
fn check_suite_keeps_actions_fallback_when_runs_unavailable() {
    let gh = CiGh {
        notifs: ci_notification(),
        runs: Err(()),
    };
    let out = GithubBackend::new(gh).list_notifications().unwrap();
    assert_eq!(
        out[0].url.as_deref(),
        Some("https://github.com/acme/app/actions")
    );
}

#[test]
fn list_notifications_normalizes() {
    let fake = FakeGh {
        issues: b"[]".to_vec(),
        prs: b"[]".to_vec(),
        notifications: br#"[{
            "id": "1", "reason": "assign",
            "subject": {"title": "T", "type": "PullRequest", "url": "u"},
            "repository": {"full_name": "acme/app"}, "updated_at": "2026-07-02T00:00:00Z"
        }]"#
        .to_vec(),
    };
    let out = GithubBackend::new(fake).list_notifications().unwrap();
    assert_eq!(out.len(), 1);
    assert_eq!(out[0].title, "T");
    assert_eq!(out[0].project.as_deref(), Some("acme/app"));
}

#[test]
fn unparsable_gh_output_is_an_api_error() {
    let fake = FakeGh {
        issues: b"not json".to_vec(),
        prs: b"[]".to_vec(),
        notifications: b"[]".to_vec(),
    };
    match GithubBackend::new(fake).list_my_tasks() {
        Err(Error::Api(m)) => assert!(m.starts_with("parse gh output: ")),
        other => panic!("unexpected {other:?}"),
    }
}

#[test]
fn search_plan_runs_specific_reasons_first() {
    let plan = search_plan("octo");
    assert_eq!(plan.len(), 5);
    assert_eq!(plan[0].args[2], "--involves");
    assert_eq!(plan[1].args[3], "octo");
    assert_eq!(plan[2].args[2], "--review-requested");
    assert_eq!(plan[2].reason, InboxReason::ReviewRequested);
    assert_eq!(plan[4].kind, TaskKind::PullRequest);
    assert_eq!(
        plan[4].args[7],
        "number,title,state,repository,assignees,createdAt,updatedAt,url,isDraft"
    );
}

#[test]
fn github_tasks_route_through_runner() {
    let fake = FakeGh {
        issues: br#"[{"number":1,"title":"I1","state":"open","repository":{"nameWithOwner":"acme/app"},"assignees":[]}]"#
            .to_vec(),
        prs: b"[]".to_vec(),
        notifications: b"[]".to_vec(),
    };
    let out = GithubBackend::new(fake).list_my_tasks().unwrap();
    assert_eq!(out.len(), 1);
    assert_eq!(out[0].id.display, "acme/app#1");
}

#[test]
fn github_notifications_route_through_runner() {
    let fake = FakeGh {
        issues: b"[]".to_vec(),
        prs: b"[]".to_vec(),
        notifications: br#"[{
            "id":"1","reason":"assign",
            "subject":{"title":"T","type":"Issue","url":"u"},
            "repository":{"full_name":"acme/app"},"updated_at":"2026-07-02T00:00:00Z"
        }]"#
        .to_vec(),
    };
    let out = GithubBackend::new(fake).list_notifications().unwrap();
    assert_eq!(out.len(), 1);
    assert_eq!(out[0].title, "T");
}

#[test]
fn list_my_tasks_marks_tasks_in_my_repositories() {
    let fake = FakeGh {
        issues: br#"[{"number": 1, "title": "I1", "state": "open",
            "repository": {"nameWithOwner": "testuser/tool"}},
            {"number": 2, "title": "I2", "state": "open",
            "repository": {"nameWithOwner": "testuser-team/app"}}]"#
            .to_vec(),
        prs: b"[]".to_vec(),
        notifications: b"[]".to_vec(),
    };
    let out = GithubBackend::new(fake).list_my_tasks().unwrap();
    assert_eq!(out.len(), 2);
    assert_eq!(out[0].id.display, "testuser/tool#1");
    assert!(out[0].mine);
    assert_eq!(out[1].id.display, "testuser-team/app#2");
    assert!(!out[1].mine);
}

#[test]
fn mark_all_read_counts_only_unread_threads() {
    let notifs = br#"[{"id":"1","unread":true,"subject":{"title":"A"}},
        {"id":"2","unread":false,"subject":{"title":"B"}},
        {"id":"3","subject":{"title":"C"}}]"#
        .to_vec();
    let (gh, calls) = RecordGh::new(notifs);
    let count = GithubBackend::new(gh).mark_all_notifications_read().unwrap();
    assert_eq!(count, 2);
    assert_eq!(calls.borrow().len(), 2);
}
