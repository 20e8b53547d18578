//! GitHub backend driven through the `gh` CLI: the probes that classify `gh`
//! availability, the searches that make up "my tasks", the mapping of search
//! results and notifications onto the shared entities, and the de-duplication
//! of items found by several searches.

use vstd::prelude::*;
use crate::config::opt_view;
use crate::entities::{self, InboxReason, StatusCategory, CiOutcome, NotifKind};
use crate::error::Error;
use crate::text::{
    chars_of, string_of, push_all, fmt_i64, dec_int, eq_ignore_ascii_case, eq_ascii_ci, lower_ascii_seq,
    seq_contains, contains, find_first, first_occurrence, occurs_at, slice_vec, trim, trim_ws,
    ends_with, has_suffix, after_last, after_last_char, is_digit,
};
use crate::client::{eq_lit, lower_ascii_vec, trim_end_char, trim_end_matches, opt_seq};
use crate::strmap::{compare_chars, KeyOrder, StrMap, str_eq};
use crate::datetime::{parse_rfc3339_timestamp, rfc3339_timestamp};
use crate::json::{
    json_parse, json_parse_array, json_str, json_i64, json_bool, json_has, json_array, json_bytes_parse, json_bytes_value, json_array_error,
    json_bytes_array, json_bytes_array_elems, json_at_str, json_at_i64, json_at_bool, json_at_has,
    json_at_array,
};
use crate::text::{decode_utf8_lossy, utf8_lossy, fmt_i64 as fmt_int, concat_str};

verus! {

/// Availability of the `gh` CLI.
#[derive(Debug, Clone, Copy, PartialEq, Eq, Structural)]
pub enum GhStatus {
    /// Installed and authenticated.
    Ready,
    /// Not on `PATH` (or unusable).
    Missing,
    /// Installed but not logged in.
    Unauthenticated,
}

/// The status two probes establish: `gh --version` must succeed for `gh` to be
/// there at all, then `gh auth status` decides whether it is logged in.
pub open spec fn spec_gh_status(version_ok: bool, auth_ok: bool) -> GhStatus {
    if !version_ok {
        GhStatus::Missing
    } else if auth_ok {
        GhStatus::Ready
    } else {
        GhStatus::Unauthenticated
    }
}

/// Classify `gh` availability from the outcomes of its two probes.
pub fn classify_gh_status(version_ok: bool, auth_ok: bool) -> (r: GhStatus)
    ensures
        r == spec_gh_status(version_ok, auth_ok),
{
    if !version_ok {
        GhStatus::Missing
    } else if auth_ok {
        GhStatus::Ready
    } else {
        GhStatus::Unauthenticated
    }
}

/// The texts of a list of string slices.
pub open spec fn strs_view(s: Seq<&str>) -> Seq<Seq<char>> {
    s.map_values(|a: &str| a@)
}

/// The view of what a run of `gh` gave: its stdout bytes or its error.
pub open spec fn out_view(r: Result<Vec<u8>, Error>) -> Result<Seq<u8>, Error> {
    match r {
        Ok(v) => Ok(v@),
        Err(e) => Err(e),
    }
}

/// Invoking `gh`: run it with `args` and return its captured stdout. What a
/// run gives is the implementation's (the real `gh`, or a fixture); `gives`
/// names the outcomes a run with given arguments can have, so that the
/// callers can state which arguments they hand over and what they make of
/// each outcome.
pub trait GhRunner {
    /// `out` is an outcome that running `gh` with `args` can have. An
    /// implementation that does not say admits every outcome.
    closed spec fn gives(&self, args: Seq<Seq<char>>, out: Result<Seq<u8>, Error>) -> bool {
        true
    }

    fn run(&self, args: &[&str]) -> (r: Result<Vec<u8>, Error>)
        ensures
            self.gives(strs_view(args@), out_view(r)),
    ;
}

/// Run `gh` with the given arguments.
fn run_strs<R: GhRunner>(runner: &R, args: &Vec<&str>) -> (r: Result<Vec<u8>, Error>)
    ensures
        runner.gives(strs_view(args@), out_view(r)),
{
    runner.run(args.as_slice())
}

/// The arguments of the version probe.
pub open spec fn version_args() -> Seq<Seq<char>> {
    seq!["--version"@]
}

/// The arguments of the login probe.
pub open spec fn auth_args() -> Seq<Seq<char>> {
    seq!["auth"@, "status"@]
}

/// `r` is a status the probes can establish: `Missing` when the version probe
/// fails; otherwise the login probe runs and decides between `Ready` and
/// `Unauthenticated`.
pub open spec fn probes_give<R: GhRunner>(runner: R, r: GhStatus) -> bool {
    exists|v: Result<Seq<u8>, Error>|
        #[trigger] runner.gives(version_args(), v) && if v is Err {
            r == GhStatus::Missing
        } else {
            exists|a: Result<Seq<u8>, Error>|
                #[trigger] runner.gives(auth_args(), a) && r == spec_gh_status(true, a is Ok)
        }
}

/// Classify `gh` availability by probing a runner: `gh --version` (any failure
/// means missing), then `gh auth status` (failure means not logged in). The
/// auth probe runs only when the version probe succeeded.
pub fn gh_status<R: GhRunner>(runner: &R) -> (r: GhStatus)
    ensures
        probes_give(*runner, r),
{
    let mut va: Vec<&str> = Vec::new();
    va.push("--version");
    assert(strs_view(va@) =~= version_args());
    let version = run_strs(runner, &va);
    if version.is_err() {
        return classify_gh_status(false, false);
    }
    let mut aa: Vec<&str> = Vec::new();
    aa.push("auth");
    aa.push("status");
    assert(strs_view(aa@) =~= auth_args());
    let auth = run_strs(runner, &aa);
    assert(runner.gives(auth_args(), out_view(auth)));
    classify_gh_status(true, auth.is_ok())
}

/// Whether a searched item is an issue or a pull request.
#[derive(Debug, Clone, Copy, PartialEq, Eq, Structural)]
pub enum TaskKind {
    Issue,
    PullRequest,
}

/// The status bucket of a GitHub `state`: `open` is open, `closed` / `merged`
/// are done (ASCII case ignored), anything else is unknown.
pub open spec fn spec_status_category(state: Option<Seq<char>>) -> StatusCategory {
    match state {
        Some(s) => if eq_ascii_ci(s, "open"@) {
            StatusCategory::Open
        } else if eq_ascii_ci(s, "closed"@) || eq_ascii_ci(s, "merged"@) {
            StatusCategory::Done
        } else {
            StatusCategory::Unknown
        },
        None => StatusCategory::Unknown,
    }
}

/// The status buckets of GitHub states: `open` is open, `closed` and
/// `merged` are both done, every other state (or none) is unknown, ASCII
/// case ignored throughout.
pub proof fn law_status_buckets(s: Seq<char>)
    ensures
        eq_ascii_ci(s, "open"@) ==> spec_status_category(Some(s)) == StatusCategory::Open,
        eq_ascii_ci(s, "closed"@) ==> spec_status_category(Some(s)) == StatusCategory::Done,
        eq_ascii_ci(s, "merged"@) ==> spec_status_category(Some(s)) == StatusCategory::Done,
        !eq_ascii_ci(s, "open"@) && !eq_ascii_ci(s, "closed"@) && !eq_ascii_ci(s, "merged"@)
            ==> spec_status_category(Some(s)) == StatusCategory::Unknown,
        spec_status_category(None) == StatusCategory::Unknown,
{
    reveal_strlit("open");
    reveal_strlit("closed");
    reveal_strlit("merged");
}

/// Map a GitHub issue/PR `state` to a status bucket.
pub fn status_category_from_state(state: Option<&str>) -> (r: StatusCategory)
    ensures
        r == spec_status_category(opt_seq(state)),
{
    match state {
        Some(s) => {
            let cs = chars_of(s);
            if eq_ignore_ascii_case(&cs, &chars_of("open")) {
                StatusCategory::Open
            } else if eq_ignore_ascii_case(&cs, &chars_of("closed")) || eq_ignore_ascii_case(
                &cs,
                &chars_of("merged"),
            ) {
                StatusCategory::Done
            } else {
                StatusCategory::Unknown
            }
        },
        None => StatusCategory::Unknown,
    }
}

/// The fields of one `gh search issues` / `gh search prs` element.
#[derive(Debug, Clone)]
pub struct GhItem {
    pub number: Option<i64>,
    pub title: Option<String>,
    pub state: Option<String>,
    /// `repository.nameWithOwner`.
    pub repo: Option<String>,
    /// The `login` of each assignee that has one, in order.
    pub assignees: Vec<String>,
    pub created_at: Option<String>,
    pub updated_at: Option<String>,
    pub url: Option<String>,
}

/// `parts` joined with `sep` between consecutive parts.
pub open spec fn join_with(parts: Seq<Seq<char>>, sep: Seq<char>) -> Seq<char>
    decreases parts.len(),
{
    if parts.len() == 0 {
        Seq::empty()
    } else if parts.len() == 1 {
        parts[0]
    } else {
        join_with(parts.drop_last(), sep) + sep + parts.last()
    }
}

/// The views of a list of strings.
pub open spec fn views(v: Seq<String>) -> Seq<Seq<char>> {
    v.map_values(|s: String| s@)
}

/// Join strings with a separator.
pub fn join(parts: &Vec<String>, sep: &str) -> (r: String)
    ensures
        r@ == join_with(views(parts@), sep@),
{
    let sepc = chars_of(sep);
    let mut out: Vec<char> = Vec::new();
    let mut i: usize = 0;
    while i < parts.len()
        invariant
            i <= parts@.len(),
            sepc@ == sep@,
            out@ == join_with(views(parts@.subrange(0, i as int)), sep@),
        decreases parts.len() - i,
    {
        let p = chars_of(parts[i].as_str());
        proof {
            let a = views(parts@.subrange(0, i + 1));
            assert(a.drop_last() =~= views(parts@.subrange(0, i as int)));
            assert(a.last() == parts@[i as int]@);
        }
        if i > 0 {
            push_all(&mut out, &sepc);
        }
        push_all(&mut out, &p);
        i = i + 1;
    }
    assert(parts@.subrange(0, parts@.len() as int) =~= parts@);
    string_of(&out)
}

/// The repository of an item, empty when absent.
pub open spec fn item_repo(it: GhItem) -> Seq<char> {
    match it.repo {
        Some(r) => r@,
        None => Seq::empty(),
    }
}

/// The display id of an item: `owner/repo#N`, `N` without a repository, or
/// empty without a number.
pub open spec fn item_display(it: GhItem) -> Seq<char> {
    match it.number {
        Some(n) => if item_repo(it).len() > 0 {
            item_repo(it) + "#"@ + dec_int(n as int)
        } else {
            dec_int(n as int)
        },
        None => Seq::empty(),
    }
}

/// The raw id of an item: its number, or empty.
pub open spec fn item_raw(it: GhItem) -> Seq<char> {
    match it.number {
        Some(n) => dec_int(n as int),
        None => Seq::empty(),
    }
}

/// The entity kind of a searched kind.
pub open spec fn entity_kind_matches(k: TaskKind, e: entities::TaskKind) -> bool {
    match k {
        TaskKind::Issue => e is Issue,
        TaskKind::PullRequest => e is PullRequest,
    }
}

/// `t` is the task built from item `it` found by a search of kind `k` for
/// reason `reason`.
pub open spec fn is_task_from_gh(it: GhItem, k: TaskKind, reason: InboxReason, t: entities::Task) -> bool {
    &&& is_task_fields(it, k, reason, t)
    &&& !t.mine
}

/// `t` carries the fields of item `it` found by a search of kind `k` for
/// reason `reason` (all but `mine`, which depends on who is asking).
pub open spec fn is_task_fields(it: GhItem, k: TaskKind, reason: InboxReason, t: entities::Task) -> bool {
    &&& t.id.display@ == item_display(it)
    &&& t.id.raw@ == item_raw(it)
    &&& entity_kind_matches(k, t.kind)
    &&& t.reason == reason
    &&& t.title@ == (match it.title {
        Some(s) => s@,
        None => Seq::empty(),
    })
    &&& opt_view(t.url) == opt_view(it.url)
    &&& opt_view(t.status) == opt_view(it.state)
    &&& t.status_category == spec_status_category(opt_view(it.state))
    &&& opt_view(t.project) == (if item_repo(it).len() > 0 {
        Some(item_repo(it))
    } else {
        None
    })
    &&& opt_view(t.assignee) == (if it.assignees@.len() > 0 {
        Some(join_with(views(it.assignees@), ", "@))
    } else {
        None
    })
    &&& t.author is None
    &&& opt_view(t.created_at) == opt_view(it.created_at)
    &&& opt_view(t.updated_at) == opt_view(it.updated_at)
    &&& t.due_date is None
    &&& t.priority is None
    &&& t.labels@.len() == 0
    &&& t.custom_fields@.len() == 0
}

fn clone_opt(o: &Option<String>) -> (r: Option<String>)
    ensures
        opt_view(r) == opt_view(*o),
{
    match o {
        Some(s) => Some(s.clone()),
        None => None,
    }
}

/// Build a task from one search element. `reason` comes from the search
/// that produced the item. The task is not marked mine: that depends on the
/// signed-in login, which [`GithubBackend::list_my_tasks`] compares against
/// the repository owner.
pub fn task_from_gh(it: &GhItem, kind: TaskKind, reason: InboxReason) -> (t: entities::Task)
    ensures
        is_task_from_gh(*it, kind, reason, t),
{
    let repo: String = match &it.repo {
        Some(r) => r.clone(),
        None => String::new(),
    };
    let repo_nonempty = repo.unicode_len() > 0;
    assert(repo@ == item_repo(*it));
    let display: String = match it.number {
        Some(n) => {
            let digits = fmt_i64(n);
            if repo_nonempty {
                let mut v = chars_of(repo.as_str());
                v.push('#');
                push_all(&mut v, &digits);
                proof {
                    reveal_strlit("#");
                    assert(v@ =~= item_repo(*it) + "#"@ + dec_int(n as int));
                }
                string_of(&v)
            } else {
                string_of(&digits)
            }
        },
        None => String::new(),
    };
    let raw: String = match it.number {
        Some(n) => string_of(&fmt_i64(n)),
        None => String::new(),
    };
    let status_category = match &it.state {
        Some(s) => status_category_from_state(Some(s.as_str())),
        None => status_category_from_state(None),
    };
    let assignee = if it.assignees.len() > 0 {
        Some(join(&it.assignees, ", "))
    } else {
        None
    };
    let title = match &it.title {
        Some(s) => s.clone(),
        None => String::new(),
    };
    let t = entities::Task {
        id: entities::TaskId { display, raw },
        kind: match kind {
            TaskKind::Issue => entities::TaskKind::Issue,
            TaskKind::PullRequest => entities::TaskKind::PullRequest,
        },
        reason,
        title,
        url: clone_opt(&it.url),
        status: clone_opt(&it.state),
        status_category,
        project: if repo_nonempty {
            Some(repo)
        } else {
            None
        },
        mine: false,
        assignee,
        author: None,
        created_at: clone_opt(&it.created_at),
        updated_at: clone_opt(&it.updated_at),
        due_date: None,
        priority: None,
        labels: Vec::new(),
        custom_fields: Vec::new(),
    };
    proof {
        reveal_strlit("#");
    }
    t
}

/// The classification of a check-suite title: a title mentioning `fail` is a
/// failure, one mentioning `succe` or `passed` a success, anything else
/// neutral (ASCII case ignored).
pub open spec fn spec_check_suite_outcome(title: Seq<char>) -> Seq<char> {
    let t = lower_ascii_seq(title);
    if seq_contains(t, "fail"@) {
        "failure"@
    } else if seq_contains(t, "succe"@) || seq_contains(t, "passed"@) {
        "success"@
    } else {
        "neutral"@
    }
}

/// Classify a check-suite notification's outcome from its title.
pub fn check_suite_outcome(title: &str) -> (r: &'static str)
    ensures
        r@ == spec_check_suite_outcome(title@),
{
    let t = lower_ascii_vec(&chars_of(title));
    if contains(&t, &chars_of("fail")) {
        "failure"
    } else if contains(&t, &chars_of("succe")) || contains(&t, &chars_of("passed")) {
        "success"
    } else {
        "neutral"
    }
}

/// The typed outcome of a check-suite title.
pub open spec fn spec_ci_outcome(title: Seq<char>) -> CiOutcome {
    let t = lower_ascii_seq(title);
    if seq_contains(t, "fail"@) {
        CiOutcome::Failure
    } else if seq_contains(t, "succe"@) || seq_contains(t, "passed"@) {
        CiOutcome::Success
    } else {
        CiOutcome::Neutral
    }
}

/// The typed CI outcome of a title agrees with its textual outcome: failure
/// exactly when the text says `failure`, success exactly when it says
/// `success`, neutral otherwise. A title mentioning `fail` (ASCII case
/// ignored) fails; one that does not but mentions `succe` or `passed`
/// succeeds.
pub proof fn law_ci_outcome_agrees(title: Seq<char>)
    ensures
        (spec_ci_outcome(title) == CiOutcome::Failure) <==> spec_check_suite_outcome(title) == "failure"@,
        (spec_ci_outcome(title) == CiOutcome::Success) <==> spec_check_suite_outcome(title) == "success"@,
        (spec_ci_outcome(title) == CiOutcome::Neutral) <==> spec_check_suite_outcome(title) == "neutral"@,
        seq_contains(lower_ascii_seq(title), "fail"@) ==> spec_ci_outcome(title) == CiOutcome::Failure,
        !seq_contains(lower_ascii_seq(title), "fail"@) && (seq_contains(lower_ascii_seq(title), "succe"@)
            || seq_contains(lower_ascii_seq(title), "passed"@)) ==> spec_ci_outcome(title) == CiOutcome::Success,
        !seq_contains(lower_ascii_seq(title), "fail"@) && !seq_contains(lower_ascii_seq(title), "succe"@)
            && !seq_contains(lower_ascii_seq(title), "passed"@) ==> spec_ci_outcome(title) == CiOutcome::Neutral,
{
    reveal_strlit("failure");
    reveal_strlit("success");
    reveal_strlit("neutral");
    assert("failure"@ != "success"@ && "failure"@ != "neutral"@ && "success"@ != "neutral"@) by {
        assert("failure"@[0] != "success"@[0]);
        assert("failure"@[0] != "neutral"@[0]);
        assert("success"@[0] != "neutral"@[0]);
    }
}

/// The typed CI outcome for a check-suite title.
pub fn ci_outcome_from_title(title: &str) -> (r: CiOutcome)
    ensures
        r == spec_ci_outcome(title@),
{
    let t = lower_ascii_vec(&chars_of(title));
    if contains(&t, &chars_of("fail")) {
        CiOutcome::Failure
    } else if contains(&t, &chars_of("succe")) || contains(&t, &chars_of("passed")) {
        CiOutcome::Success
    } else {
        CiOutcome::Neutral
    }
}

/// The workflow named by a check-suite title (`<workflow> workflow run …`):
/// the trimmed text before the first ` workflow run`, when non-empty.
pub open spec fn spec_check_suite_workflow(title: Seq<char>) -> Option<Seq<char>> {
    if seq_contains(title, " workflow run"@) {
        let wf = trim_ws(title.subrange(0, first_occurrence(title, " workflow run"@)));
        if wf.len() > 0 {
            Some(wf)
        } else {
            None
        }
    } else {
        None
    }
}

/// Workflow name from a check-suite title.
pub fn check_suite_workflow(title: &str) -> (r: Option<String>)
    ensures
        opt_view(r) == spec_check_suite_workflow(title@),
{
    let t = chars_of(title);
    match find_first(&t, &chars_of(" workflow run")) {
        Some(idx) => {
            let wf = trim(&slice_vec(&t, 0, idx));
            if wf.len() > 0 {
                Some(string_of(&wf))
            } else {
                None
            }
        },
        None => None,
    }
}

/// The second piece of `s` split on `sep` (the text between the first and the
/// second occurrence of `sep`, or to the end), if `sep` occurs at all.
pub open spec fn second_piece(s: Seq<char>, sep: Seq<char>) -> Option<Seq<char>> {
    if seq_contains(s, sep) {
        let rest = s.subrange(first_occurrence(s, sep) + sep.len(), s.len() as int);
        if seq_contains(rest, sep) {
            Some(rest.subrange(0, first_occurrence(rest, sep)))
        } else {
            Some(rest)
        }
    } else {
        None
    }
}

/// The branch named by a check-suite title: the second ` for `-piece,
/// trimmed, without a trailing ` branch`, trimmed again, when non-empty.
pub open spec fn spec_check_suite_branch(title: Seq<char>) -> Option<Seq<char>> {
    match second_piece(title, " for "@) {
        Some(p) => {
            let after = trim_ws(p);
            let b = trim_ws(strip_branch(after));
            if b.len() > 0 {
                Some(b)
            } else {
                None
            }
        },
        None => None,
    }
}

#[verifier::rlimit(30)]
fn second_piece_of(t: &Vec<char>, sep: &Vec<char>) -> (r: Option<Vec<char>>)
    ensures
        match r {
            Some(p) => second_piece(t@, sep@) == Some(p@),
            None => second_piece(t@, sep@) is None,
        },
{
    let i = match find_first(t, sep) {
        Some(i) => i,
        None => {
            return None;
        },
    };
    assert(occurs_at(t@, sep@, i as int));
    assert(i + sep@.len() <= t@.len());
    assert(t@.len() == t.len());
    let start: usize = i + sep.len();
    let rest = slice_vec(t, start, t.len());
    let ghost sp = second_piece(t@, sep@);
    assert(rest@ == t@.subrange(first_occurrence(t@, sep@) + sep@.len(), t@.len() as int));
    match find_first(&rest, sep) {
        Some(j) => {
            let p = slice_vec(&rest, 0, j);
            assert(sp == Some(p@));
            Some(p)
        },
        None => {
            assert(sp == Some(rest@));
            Some(rest)
        },
    }
}

/// The spec of removing one trailing ` branch`.
pub open spec fn strip_branch(after: Seq<char>) -> Seq<char> {
    if has_suffix(after, " branch"@) {
        after.subrange(0, after.len() - " branch"@.len())
    } else {
        after
    }
}

fn strip_branch_suffix(after: Vec<char>) -> (r: Vec<char>)
    ensures
        r@ == strip_branch(after@),
{
    let suffix = chars_of(" branch");
    if ends_with(&after, &suffix) {
        slice_vec(&after, 0, after.len() - suffix.len())
    } else {
        after
    }
}

/// Branch from a check-suite title.
pub fn check_suite_branch(title: &str) -> (r: Option<String>)
    ensures
        opt_view(r) == spec_check_suite_branch(title@),
{
    let t = chars_of(title);
    let sep = chars_of(" for ");
    match second_piece_of(&t, &sep) {
        Some(piece) => {
            let after = trim(&piece);
            let stripped = strip_branch_suffix(after);
            let b = trim(&stripped);
            if b.len() > 0 {
                Some(string_of(&b))
            } else {
                None
            }
        },
        None => None,
    }
}

/// The notification kind of a GitHub subject type.
pub open spec fn notif_kind_of_subject(t: Option<Seq<char>>, k: NotifKind) -> bool {
    match t {
        Some(s) => if s == "Issue"@ {
            k is Issue
        } else if s == "PullRequest"@ {
            k is PullRequest
        } else if s == "CheckSuite"@ {
            k is CheckSuite
        } else {
            k matches NotifKind::Other(o) && o@ == s
        },
        None => k matches NotifKind::Other(o) && o@.len() == 0,
    }
}

/// Map a GitHub notification subject type to a notification kind.
pub fn notif_kind_from_subject_type(t: Option<&str>) -> (k: NotifKind)
    ensures
        notif_kind_of_subject(opt_seq(t), k),
{
    match t {
        Some(s) => {
            let cs = chars_of(s);
            if eq_lit(&cs, "Issue") {
                NotifKind::Issue
            } else if eq_lit(&cs, "PullRequest") {
                NotifKind::PullRequest
            } else if eq_lit(&cs, "CheckSuite") {
                NotifKind::CheckSuite
            } else {
                NotifKind::Other(s.to_string())
            }
        },
        None => NotifKind::Other(String::new()),
    }
}

/// The fields of one `gh api notifications` element.
#[derive(Debug, Clone)]
pub struct GhNotif {
    pub id: Option<String>,
    pub reason: Option<String>,
    /// Whether the element has a `subject` at all.
    pub has_subject: bool,
    pub subject_type: Option<String>,
    pub subject_title: Option<String>,
    pub subject_url: Option<String>,
    /// Whether the element has a `repository` at all.
    pub has_repository: bool,
    pub repo_full_name: Option<String>,
    pub repo_html_url: Option<String>,
    pub unread: Option<bool>,
    pub updated_at: Option<String>,
}

/// The web address of a notification's repository: its `html_url` without
/// trailing slashes, else `https://github.com/<full_name>`.
pub open spec fn notif_repo_base(n: GhNotif) -> Option<Seq<char>> {
    match n.repo_html_url {
        Some(u) => Some(trim_end_char(u@, '/')),
        None => match n.repo_full_name {
            Some(f) => Some("https://github.com/"@ + f@),
            None => None,
        },
    }
}

/// A non-empty run of ASCII digits.
pub open spec fn is_number_text(s: Seq<char>) -> bool {
    s.len() > 0 && forall|i: int| 0 <= i < s.len() ==> is_digit(#[trigger] s[i])
}

/// The browser URL of a notification's subject: issues and pull requests link
/// to `<base>/issues/<n>` / `<base>/pull/<n>` with `n` the last segment of the
/// subject's API URL (which must be a number), check suites to
/// `<base>/actions`, anything else to nothing.
pub open spec fn spec_notification_html_url(n: GhNotif) -> Option<Seq<char>> {
    if !n.has_subject || !n.has_repository {
        None
    } else {
        match notif_repo_base(n) {
            None => None,
            Some(base) => match n.subject_type {
                None => None,
                Some(t) => if t@ == "Issue"@ || t@ == "PullRequest"@ {
                    match n.subject_url {
                        None => None,
                        Some(u) => {
                            let num = after_last(u@, '/');
                            if is_number_text(num) {
                                Some(
                                    base + "/"@ + (if t@ == "Issue"@ {
                                        "issues"@
                                    } else {
                                        "pull"@
                                    }) + "/"@ + num,
                                )
                            } else {
                                None
                            }
                        },
                    }
                } else if t@ == "CheckSuite"@ {
                    Some(base + "/actions"@)
                } else {
                    None
                },
            },
        }
    }
}

fn all_digits(v: &Vec<char>) -> (r: bool)
    ensures
        r == is_number_text(v@),
{
    if v.len() == 0 {
        return false;
    }
    let mut i: usize = 0;
    while i < v.len()
        invariant
            i <= v@.len(),
            forall|j: int| 0 <= j < i ==> is_digit(#[trigger] v@[j]),
        decreases v.len() - i,
    {
        if !('0' <= v[i] && v[i] <= '9') {
            assert(!is_digit(v@[i as int]));
            return false;
        }
        i = i + 1;
    }
    true
}

fn repo_base(n: &GhNotif) -> (r: Option<Vec<char>>)
    ensures
        match r {
            Some(b) => notif_repo_base(*n) == Some(b@),
            None => notif_repo_base(*n) is None,
        },
{
    match &n.repo_html_url {
        Some(u) => Some(trim_end_matches(&chars_of(u.as_str()), '/')),
        None => match &n.repo_full_name {
            Some(f) => {
                let mut b = chars_of("https://github.com/");
                push_all(&mut b, &chars_of(f.as_str()));
                Some(b)
            },
            None => None,
        },
    }
}

/// Browser URL for a notification's subject, when one can be built.
pub fn notification_html_url(n: &GhNotif) -> (r: Option<String>)
    ensures
        opt_view(r) == spec_notification_html_url(*n),
{
    if !n.has_subject || !n.has_repository {
        return None;
    }
    let base = match repo_base(n) {
        Some(b) => b,
        None => {
            return None;
        },
    };
    let t = match &n.subject_type {
        Some(t) => chars_of(t.as_str()),
        None => {
            return None;
        },
    };
    let is_issue = eq_lit(&t, "Issue");
    if is_issue || eq_lit(&t, "PullRequest") {
        let u = match &n.subject_url {
            Some(u) => chars_of(u.as_str()),
            None => {
                return None;
            },
        };
        let num = after_last_char(&u, '/');
        if !all_digits(&num) {
            return None;
        }
        let mut out = base;
        out.push('/');
        if is_issue {
            push_all(&mut out, &chars_of("issues"));
        } else {
            push_all(&mut out, &chars_of("pull"));
        }
        out.push('/');
        push_all(&mut out, &num);
        proof {
            reveal_strlit("/");
        }
        Some(string_of(&out))
    } else if eq_lit(&t, "CheckSuite") {
        let mut out = base;
        push_all(&mut out, &chars_of("/actions"));
        Some(string_of(&out))
    } else {
        None
    }
}

/// `n` is the notification built from element `g`.
pub open spec fn is_notification_from_gh(g: GhNotif, n: entities::Notification) -> bool {
    &&& n.id@ == (match g.id {
        Some(s) => s@,
        None => Seq::empty(),
    })
    &&& n.reason@ == (match g.reason {
        Some(s) => s@,
        None => Seq::empty(),
    })
    &&& notif_kind_of_subject(opt_view(g.subject_type), n.kind)
    &&& n.title@ == (match g.subject_title {
        Some(s) => s@,
        None => Seq::empty(),
    })
    &&& opt_view(n.project) == opt_view(g.repo_full_name)
    &&& opt_view(n.url) == spec_notification_html_url(g)
    &&& opt_view(n.updated_at) == opt_view(g.updated_at)
    &&& n.read == !(match g.unread {
        Some(u) => u,
        None => true,
    })
    &&& n.outcome == (if opt_view(g.subject_type) == Some("CheckSuite"@) {
        Some(spec_ci_outcome(n.title@))
    } else {
        None
    })
    &&& n.wp_id is None
}

/// Build a notification from one `gh api notifications` element. A missing
/// `unread` flag counts as unread; a check suite carries its run outcome.
pub fn notification_from_gh(g: &GhNotif) -> (n: entities::Notification)
    ensures
        is_notification_from_gh(*g, n),
{
    let title = match &g.subject_title {
        Some(s) => s.clone(),
        None => String::new(),
    };
    let is_check_suite = match &g.subject_type {
        Some(t) => eq_lit(&chars_of(t.as_str()), "CheckSuite"),
        None => false,
    };
    let outcome = if is_check_suite {
        Some(ci_outcome_from_title(title.as_str()))
    } else {
        None
    };
    let kind = match &g.subject_type {
        Some(t) => notif_kind_from_subject_type(Some(t.as_str())),
        None => notif_kind_from_subject_type(None),
    };
    let unread = match g.unread {
        Some(u) => u,
        None => true,
    };
    entities::Notification {
        id: match &g.id {
            Some(s) => s.clone(),
            None => String::new(),
        },
        reason: match &g.reason {
            Some(s) => s.clone(),
            None => String::new(),
        },
        kind,
        title,
        project: clone_opt(&g.repo_full_name),
        url: notification_html_url(g),
        updated_at: clone_opt(&g.updated_at),
        read: !unread,
        outcome,
        wp_id: None,
    }
}

/// The key tasks are de-duplicated by: the display id, or the URL when the
/// display id is empty.
pub open spec fn dedup_key(t: entities::Task) -> Seq<char> {
    if t.id.display@.len() == 0 {
        match t.url {
            Some(u) => u@,
            None => Seq::empty(),
        }
    } else {
        t.id.display@
    }
}

/// Some task in `s` has key `k`.
pub open spec fn key_in(s: Seq<entities::Task>, k: Seq<char>) -> bool {
    exists|j: int| 0 <= j < s.len() && dedup_key(#[trigger] s[j]) == k
}

/// The tasks of `s` whose key no earlier task has, in order.
pub open spec fn spec_dedup(s: Seq<entities::Task>) -> Seq<entities::Task>
    decreases s.len(),
{
    if s.len() == 0 {
        Seq::empty()
    } else if key_in(s.drop_last(), dedup_key(s.last())) {
        spec_dedup(s.drop_last())
    } else {
        spec_dedup(s.drop_last()).push(s.last())
    }
}

/// De-duplication loses no key: a key occurs in the result exactly when it
/// occurs in the input.
pub proof fn lemma_dedup_keys(s: Seq<entities::Task>, k: Seq<char>)
    ensures
        key_in(spec_dedup(s), k) <==> key_in(s, k),
    decreases s.len(),
{
    if s.len() > 0 {
        let p = s.drop_last();
        lemma_dedup_keys(p, k);
        let d = spec_dedup(p);
        if key_in(s, k) {
            let j = choose|j: int| 0 <= j < s.len() && dedup_key(#[trigger] s[j]) == k;
            if j < p.len() {
                assert(p[j] == s[j]);
                assert(key_in(p, k));
            }
        }
        if key_in(p, k) {
            let j = choose|j: int| 0 <= j < p.len() && dedup_key(#[trigger] p[j]) == k;
            assert(s[j] == p[j]);
        }
        if key_in(p, dedup_key(s.last())) {
        } else {
            let dd = d.push(s.last());
            if key_in(dd, k) {
                let j = choose|j: int| 0 <= j < dd.len() && dedup_key(#[trigger] dd[j]) == k;
                if j < d.len() {
                    assert(d[j] == dd[j]);
                }
            }
            if key_in(d, k) {
                let j = choose|j: int| 0 <= j < d.len() && dedup_key(#[trigger] d[j]) == k;
                assert(dd[j] == d[j]);
            }
            if dedup_key(s.last()) == k {
                assert(dd[d.len() as int] == s.last());
            }
        }
    }
}

/// No two tasks of `s` share a key.
pub open spec fn keys_distinct(s: Seq<entities::Task>) -> bool {
    forall|i: int, j: int| 0 <= i < j < s.len() ==> dedup_key(#[trigger] s[i]) != dedup_key(#[trigger] s[j])
}

/// De-duplication keeps no two tasks with one key.
pub proof fn lemma_dedup_distinct(s: Seq<entities::Task>)
    ensures
        keys_distinct(spec_dedup(s)),
    decreases s.len(),
{
    if s.len() > 0 {
        let p = s.drop_last();
        lemma_dedup_distinct(p);
        let d = spec_dedup(p);
        if !key_in(p, dedup_key(s.last())) {
            lemma_dedup_keys(p, dedup_key(s.last()));
            let dd = d.push(s.last());
            assert forall|i: int, j: int| 0 <= i < j < dd.len() implies dedup_key(#[trigger] dd[i])
                != dedup_key(#[trigger] dd[j]) by {
                if j == d.len() {
                    assert(dd[i] == d[i]);
                    if dedup_key(d[i]) == dedup_key(s.last()) {
                        assert(key_in(d, dedup_key(s.last())));
                    }
                } else {
                    assert(dd[i] == d[i] && dd[j] == d[j]);
                }
            }
        }
    }
}

/// De-duplication keeps each task at its first occurrence: every task of the
/// result is an input task that no earlier input task shares a key with.
pub proof fn law_dedup_keeps_first_occurrences(s: Seq<entities::Task>)
    ensures
        forall|j: int|
            0 <= j < spec_dedup(s).len() ==> exists|i: int|
                0 <= i < s.len() && s[i] == #[trigger] spec_dedup(s)[j] && !key_in(s.take(i), dedup_key(s[i])),
    decreases s.len(),
{
    if s.len() > 0 {
        let p = s.drop_last();
        law_dedup_keeps_first_occurrences(p);
        let d = spec_dedup(p);
        assert forall|j: int| 0 <= j < spec_dedup(s).len() implies exists|i: int|
            0 <= i < s.len() && s[i] == #[trigger] spec_dedup(s)[j] && !key_in(s.take(i), dedup_key(s[i])) by {
            if j < d.len() {
                assert(spec_dedup(s)[j] == d[j]);
                let i = choose|i: int| 0 <= i < p.len() && p[i] == d[j] && !key_in(p.take(i), dedup_key(p[i]));
                assert(s.take(i) =~= p.take(i));
                assert(s[i] == p[i]);
            } else {
                let i = s.len() - 1;
                assert(s.take(i) =~= p);
                assert(spec_dedup(s)[j] == s[i]);
            }
        }
    }
}

fn task_key(t: &entities::Task) -> (r: Vec<char>)
    ensures
        r@ == dedup_key(*t),
{
    if t.id.display.unicode_len() == 0 {
        match &t.url {
            Some(u) => chars_of(u.as_str()),
            None => Vec::new(),
        }
    } else {
        chars_of(t.id.display.as_str())
    }
}

/// Drop tasks that surfaced from more than one search, keeping the first
/// occurrence of each key (display id, else URL) and the order.
pub fn dedup_by_id(tasks: Vec<entities::Task>) -> (r: Vec<entities::Task>)
    ensures
        r@ == spec_dedup(tasks@),
        keys_distinct(r@),
{
    let ghost all = tasks@;
    assert(all.len() == tasks.len());
    let mut rest = tasks;
    let mut out: Vec<entities::Task> = Vec::new();
    let mut seen: Vec<Vec<char>> = Vec::new();
    let mut i: usize = 0;
    while rest.len() > 0
        invariant
            i + rest@.len() == all.len(),
            all.len() <= usize::MAX,
            rest@ == all.subrange(i as int, all.len() as int),
            out@ == spec_dedup(all.subrange(0, i as int)),
            seen@.len() == out@.len(),
            forall|j: int| 0 <= j < seen@.len() ==> #[trigger] seen@[j]@ == dedup_key(out@[j]),
        decreases rest.len(),
    {
        let t = rest.remove(0);
        let k = task_key(&t);
        let mut found = false;
        let mut j: usize = 0;
        while j < seen.len()
            invariant
                j <= seen@.len(),
                !found ==> forall|m: int| 0 <= m < j ==> seen@[m]@ != k@,
                found ==> key_in(out@, k@),
                seen@.len() == out@.len(),
                forall|m: int| 0 <= m < seen@.len() ==> #[trigger] seen@[m]@ == dedup_key(out@[m]),
            decreases seen.len() - j,
        {
            if compare_chars(&seen[j], &k) == KeyOrder::Equal {
                found = true;
                assert(dedup_key(out@[j as int]) == k@);
            }
            j = j + 1;
        }
        proof {
            let pre = all.subrange(0, i as int);
            let nxt = all.subrange(0, i + 1);
            assert(nxt.drop_last() =~= pre);
            assert(nxt.last() == t);
            lemma_dedup_keys(pre, k@);
            if !found {
                assert(!key_in(out@, k@)) by {
                    if key_in(out@, k@) {
                        let m = choose|m: int| 0 <= m < out@.len() && dedup_key(#[trigger] out@[m]) == k@;
                        assert(seen@[m]@ == k@);
                    }
                }
            }
            assert(rest@ =~= all.subrange(i + 1, all.len() as int));
        }
        if !found {
            out.push(t);
            seen.push(k);
        }
        i = i + 1;
    }
    proof {
        assert(all.subrange(0, i as int) =~= all);
        lemma_dedup_distinct(all);
    }
    out
}

/// The fields of one workflow run of `repos/<repo>/actions/runs`.
#[derive(Debug, Clone)]
pub struct GhRun {
    pub name: Option<String>,
    pub head_branch: Option<String>,
    pub updated_at: Option<String>,
    pub html_url: Option<String>,
}

/// A run of the given workflow (and branch, when one is named).
pub open spec fn run_is_candidate(r: GhRun, workflow: Seq<char>, branch: Option<Seq<char>>) -> bool {
    &&& opt_view(r.name) == Some(workflow)
    &&& match branch {
        Some(b) => opt_view(r.head_branch) == Some(b),
        None => true,
    }
}

/// How far a run's timestamp is from the target, in seconds; `i64::MAX` when
/// either is unknown.
pub open spec fn run_distance(target: Option<i64>, u: Option<i64>) -> int {
    match (target, u) {
        (Some(t), Some(u)) => if t >= u {
            t - u
        } else {
            u - t
        },
        _ => i64::MAX as int,
    }
}

/// Run `i` is the first candidate at the least distance.
pub open spec fn is_best_run(
    runs: Seq<GhRun>,
    ts: Seq<Option<i64>>,
    workflow: Seq<char>,
    branch: Option<Seq<char>>,
    target: Option<i64>,
    i: int,
) -> bool {
    &&& 0 <= i < runs.len()
    &&& run_is_candidate(runs[i], workflow, branch)
    &&& forall|j: int|
        0 <= j < runs.len() && run_is_candidate(#[trigger] runs[j], workflow, branch) ==> run_distance(
            target,
            ts[j],
        ) >= run_distance(target, ts[i])
    &&& forall|j: int|
        0 <= j < i && run_is_candidate(#[trigger] runs[j], workflow, branch) ==> run_distance(
            target,
            ts[j],
        ) > run_distance(target, ts[i])
}

fn opt_eq(o: &Option<String>, s: &str) -> (r: bool)
    ensures
        r == (opt_view(*o) == Some(s@)),
{
    match o {
        Some(x) => str_eq(x.as_str(), s),
        None => false,
    }
}

fn is_candidate(r: &GhRun, workflow: &str, branch: Option<&str>) -> (b: bool)
    ensures
        b == run_is_candidate(*r, workflow@, opt_seq(branch)),
{
    if !opt_eq(&r.name, workflow) {
        return false;
    }
    match branch {
        Some(b) => opt_eq(&r.head_branch, b),
        None => true,
    }
}

fn distance(target: Option<i64>, u: Option<i64>) -> (d: i128)
    ensures
        d == run_distance(target, u),
{
    match (target, u) {
        (Some(t), Some(u)) => {
            if t >= u {
                (t as i128) - (u as i128)
            } else {
                (u as i128) - (t as i128)
            }
        },
        _ => i64::MAX as i128,
    }
}

/// The first candidate run at the least distance from the target time.
pub fn pick_run(
    runs: &Vec<GhRun>,
    ts: &Vec<Option<i64>>,
    workflow: &str,
    branch: Option<&str>,
    target: Option<i64>,
) -> (r: Option<usize>)
    requires
        ts@.len() == runs@.len(),
    ensures
        match r {
            Some(i) => is_best_run(runs@, ts@, workflow@, opt_seq(branch), target, i as int),
            None => forall|j: int|
                0 <= j < runs@.len() ==> !run_is_candidate(#[trigger] runs@[j], workflow@, opt_seq(branch)),
        },
{
    let mut best: Option<usize> = None;
    let mut best_d: i128 = 0;
    let mut i: usize = 0;
    while i < runs.len()
        invariant
            ts@.len() == runs@.len(),
            i <= runs@.len(),
            match best {
                Some(b) => b < i && best_d == run_distance(target, ts@[b as int])
                    && run_is_candidate(runs@[b as int], workflow@, opt_seq(branch))
                    && (forall|j: int|
                    0 <= j < i && run_is_candidate(#[trigger] runs@[j], workflow@, opt_seq(branch))
                        ==> run_distance(target, ts@[j]) >= best_d) && (forall|j: int|
                    0 <= j < b && run_is_candidate(#[trigger] runs@[j], workflow@, opt_seq(branch))
                        ==> run_distance(target, ts@[j]) > best_d),
                None => forall|j: int|
                    0 <= j < i ==> !run_is_candidate(#[trigger] runs@[j], workflow@, opt_seq(branch)),
            },
        decreases runs.len() - i,
    {
        if is_candidate(&runs[i], workflow, branch) {
            let d = distance(target, ts[i]);
            match best {
                Some(_) => {
                    if d < best_d {
                        best = Some(i);
                        best_d = d;
                    }
                },
                None => {
                    best = Some(i);
                    best_d = d;
                },
            }
        }
        i = i + 1;
    }
    best
}

/// The timestamps of runs, as their `updated_at` parses.
pub open spec fn run_timestamps(runs: Seq<GhRun>) -> Seq<Option<i64>> {
    runs.map_values(
        |r: GhRun|
            match r.updated_at {
                Some(s) => rfc3339_timestamp(s@),
                None => None,
            },
    )
}

/// The URL a check-suite notification should link to, among a repository's
/// runs: of the runs of the workflow (and branch) the title names, the one
/// updated closest to the notification, the first of equals.
pub open spec fn is_matched_run_url(
    runs: Seq<GhRun>,
    title: Seq<char>,
    updated: Seq<char>,
    r: Option<Seq<char>>,
) -> bool {
    match spec_check_suite_workflow(title) {
        None => r is None,
        Some(wf) => {
            let br = spec_check_suite_branch(title);
            let target = rfc3339_timestamp(updated);
            let ts = run_timestamps(runs);
            ||| (exists|i: int|
                is_best_run(runs, ts, wf, br, target, i) && r == opt_view(#[trigger] runs[i].html_url))
            ||| ((forall|j: int|
                0 <= j < runs.len() ==> !run_is_candidate(#[trigger] runs[j], wf, br)) && r is None)
        },
    }
}

fn timestamps_of(runs: &Vec<GhRun>) -> (ts: Vec<Option<i64>>)
    ensures
        ts@ == run_timestamps(runs@),
{
    let mut ts: Vec<Option<i64>> = Vec::new();
    let mut i: usize = 0;
    while i < runs.len()
        invariant
            i <= runs@.len(),
            ts@.len() == i,
            forall|k: int| 0 <= k < i ==> #[trigger] ts@[k] == run_timestamps(runs@)[k],
        decreases runs.len() - i,
    {
        let t = match &runs[i].updated_at {
            Some(s) => parse_rfc3339_timestamp(s.as_str()),
            None => None,
        };
        ts.push(t);
        i = i + 1;
    }
    assert(ts@ =~= run_timestamps(runs@));
    ts
}

/// Browser URL of the workflow run a check-suite notification refers to.
#[verifier::rlimit(40)]
pub fn match_run_url(runs: &Vec<GhRun>, title: &str, notif_updated: &str) -> (r: Option<String>)
    ensures
        is_matched_run_url(runs@, title@, notif_updated@, opt_view(r)),
{
    let workflow = match check_suite_workflow(title) {
        Some(w) => w,
        None => {
            return None;
        },
    };
    let branch = check_suite_branch(title);
    let target = parse_rfc3339_timestamp(notif_updated);
    let ts = timestamps_of(runs);
    let br: Option<&str> = match &branch {
        Some(b) => Some(b.as_str()),
        None => None,
    };
    match pick_run(runs, &ts, workflow.as_str(), br, target) {
        Some(k) => {
            let u = clone_opt(&runs[k].html_url);
            assert(is_best_run(runs@, ts@, workflow@, opt_seq(br), target, k as int));
            u
        },
        None => None,
    }
}

/// One search that contributes to "my tasks".
#[derive(Debug)]
pub struct GhSearch {
    pub args: Vec<String>,
    pub kind: TaskKind,
    pub reason: InboxReason,
}

/// The fields requested for issues.
pub open spec fn issue_fields() -> Seq<char> {
    "number,title,state,repository,assignees,createdAt,updatedAt,url"@
}

/// The fields requested for pull requests.
pub open spec fn pr_fields() -> Seq<char> {
    "number,title,state,repository,assignees,createdAt,updatedAt,url,isDraft"@
}

/// The arguments of the `i`-th search of the plan for `login`.
pub open spec fn spec_search_args(i: int, login: Seq<char>) -> Seq<Seq<char>> {
    if i == 0 {
        seq!["search"@, "issues"@, "--involves"@, "@me"@, "--state"@, "open"@, "--json"@, issue_fields()]
    } else if i == 1 {
        seq!["search"@, "issues"@, "--owner"@, login, "--state"@, "open"@, "--json"@, issue_fields()]
    } else if i == 2 {
        seq!["search"@, "prs"@, "--review-requested"@, "@me"@, "--state"@, "open"@, "--json"@, pr_fields()]
    } else if i == 3 {
        seq!["search"@, "prs"@, "--involves"@, "@me"@, "--state"@, "open"@, "--json"@, pr_fields()]
    } else {
        seq!["search"@, "prs"@, "--owner"@, login, "--state"@, "open"@, "--json"@, pr_fields()]
    }
}

/// The kind of item the `i`-th search finds.
pub open spec fn spec_search_kind(i: int) -> TaskKind {
    if i < 2 {
        TaskKind::Issue
    } else {
        TaskKind::PullRequest
    }
}

/// Why an item found by the `i`-th search is in the list.
pub open spec fn spec_search_reason(i: int) -> InboxReason {
    if i == 0 || i == 3 {
        InboxReason::Involved
    } else if i == 2 {
        InboxReason::ReviewRequested
    } else {
        InboxReason::Own
    }
}

fn strings(v: Vec<&str>) -> (r: Vec<String>)
    ensures
        views(r@) == v@.map_values(|s: &str| s@),
{
    let mut r: Vec<String> = Vec::new();
    let mut i: usize = 0;
    while i < v.len()
        invariant
            i <= v@.len(),
            r@.len() == i,
            forall|k: int| 0 <= k < i ==> (#[trigger] r@[k])@ == v@[k]@,
        decreases v.len() - i,
    {
        r.push(v[i].to_string());
        i = i + 1;
    }
    assert(views(r@) =~= v@.map_values(|s: &str| s@));
    r
}

/// `plan` is the plan of searches for `login`.
pub open spec fn is_search_plan(plan: Seq<GhSearch>, login: Seq<char>) -> bool {
    &&& plan.len() == 5
    &&& forall|k: int|
        0 <= k < 5 ==> views(#[trigger] plan[k].args@) == spec_search_args(k, login) && plan[k].kind == spec_search_kind(
            k,
        ) && plan[k].reason == spec_search_reason(k)
}

/// The five searches that make up "my tasks", in order: issues involving me,
/// issues in my repositories, pull requests awaiting my review, pull requests
/// involving me, pull requests in my repositories. The more specific reason
/// comes first so that it wins on de-duplication.
pub fn search_plan(login: &str) -> (r: Vec<GhSearch>)
    ensures
        is_search_plan(r@, login@),
{
    let issue = "number,title,state,repository,assignees,createdAt,updatedAt,url";
    let pr = "number,title,state,repository,assignees,createdAt,updatedAt,url,isDraft";
    let mut r: Vec<GhSearch> = Vec::new();
    r.push(
        GhSearch {
            args: strings(vec!["search", "issues", "--involves", "@me", "--state", "open", "--json", issue]),
            kind: TaskKind::Issue,
            reason: InboxReason::Involved,
        },
    );
    r.push(
        GhSearch {
            args: strings(vec!["search", "issues", "--owner", login, "--state", "open", "--json", issue]),
            kind: TaskKind::Issue,
            reason: InboxReason::Own,
        },
    );
    r.push(
        GhSearch {
            args: strings(
                vec!["search", "prs", "--review-requested", "@me", "--state", "open", "--json", pr],
            ),
            kind: TaskKind::PullRequest,
            reason: InboxReason::ReviewRequested,
        },
    );
    r.push(
        GhSearch {
            args: strings(vec!["search", "prs", "--involves", "@me", "--state", "open", "--json", pr]),
            kind: TaskKind::PullRequest,
            reason: InboxReason::Involved,
        },
    );
    r.push(
        GhSearch {
            args: strings(vec!["search", "prs", "--owner", login, "--state", "open", "--json", pr]),
            kind: TaskKind::PullRequest,
            reason: InboxReason::Own,
        },
    );
    proof {
        assert forall|i: int|
            0 <= i < 5 implies views(#[trigger] r@[i].args@) == spec_search_args(i, login@) && r@[i].kind
                == spec_search_kind(i) && r@[i].reason == spec_search_reason(i) by {
            if i == 0 {
                assert(views(r@[0].args@) =~= spec_search_args(0, login@));
            } else if i == 1 {
                assert(views(r@[1].args@) =~= spec_search_args(1, login@));
            } else if i == 2 {
                assert(views(r@[2].args@) =~= spec_search_args(2, login@));
            } else if i == 3 {
                assert(views(r@[3].args@) =~= spec_search_args(3, login@));
            } else {
                assert(views(r@[4].args@) =~= spec_search_args(4, login@));
            }
        }
    }
    r
}

/// The logins of the assignees that have one, in order.
pub open spec fn logins(es: Seq<serde_json::Value>) -> Seq<Seq<char>>
    decreases es.len(),
{
    if es.len() == 0 {
        Seq::empty()
    } else {
        let prev = logins(es.drop_last());
        match json_at_str(es.last(), "/login"@) {
            Some(l) => prev.push(l),
            None => prev,
        }
    }
}

/// `it` holds the fields of the search element `v`.
pub open spec fn is_item_of(v: serde_json::Value, it: GhItem) -> bool {
    &&& it.number == json_at_i64(v, "/number"@)
    &&& opt_view(it.title) == json_at_str(v, "/title"@)
    &&& opt_view(it.state) == json_at_str(v, "/state"@)
    &&& opt_view(it.repo) == json_at_str(v, "/repository/nameWithOwner"@)
    &&& views(it.assignees@) == match json_at_array(v, "/assignees"@) {
        Some(a) => logins(a),
        None => Seq::empty(),
    }
    &&& opt_view(it.created_at) == json_at_str(v, "/createdAt"@)
    &&& opt_view(it.updated_at) == json_at_str(v, "/updatedAt"@)
    &&& opt_view(it.url) == json_at_str(v, "/url"@)
}

/// Read the fields of one search element.
pub fn gh_item_of_json(v: &serde_json::Value) -> (it: GhItem)
    ensures
        is_item_of(*v, it),
{
    let mut assignees: Vec<String> = Vec::new();
    match json_array(v, "/assignees") {
        Some(a) => {
            let mut i: usize = 0;
            while i < a.len()
                invariant
                    i <= a@.len(),
                    views(assignees@) == logins(a@.subrange(0, i as int)),
                decreases a.len() - i,
            {
                proof {
                    assert(a@.subrange(0, i as int + 1).drop_last() =~= a@.subrange(0, i as int));
                }
                match json_str(&a[i], "/login") {
                    Some(l) => {
                        assignees.push(l);
                        proof {
                            assert(views(assignees@) =~= logins(a@.subrange(0, i as int + 1)));
                        }
                    },
                    None => {},
                }
                i = i + 1;
            }
            proof {
                assert(a@.subrange(0, a@.len() as int) =~= a@);
            }
        },
        None => {
            assert(views(assignees@) =~= Seq::<Seq<char>>::empty());
        },
    }
    GhItem {
        number: json_i64(v, "/number"),
        title: json_str(v, "/title"),
        state: json_str(v, "/state"),
        repo: json_str(v, "/repository/nameWithOwner"),
        assignees,
        created_at: json_str(v, "/createdAt"),
        updated_at: json_str(v, "/updatedAt"),
        url: json_str(v, "/url"),
    }
}

/// `n` holds the fields of the notification element `v`.
pub open spec fn is_notif_of(v: serde_json::Value, n: GhNotif) -> bool {
    &&& opt_view(n.id) == json_at_str(v, "/id"@)
    &&& opt_view(n.reason) == json_at_str(v, "/reason"@)
    &&& n.has_subject == json_at_has(v, "/subject"@)
    &&& opt_view(n.subject_type) == json_at_str(v, "/subject/type"@)
    &&& opt_view(n.subject_title) == json_at_str(v, "/subject/title"@)
    &&& opt_view(n.subject_url) == json_at_str(v, "/subject/url"@)
    &&& n.has_repository == json_at_has(v, "/repository"@)
    &&& opt_view(n.repo_full_name) == json_at_str(v, "/repository/full_name"@)
    &&& opt_view(n.repo_html_url) == json_at_str(v, "/repository/html_url"@)
    &&& n.unread == json_at_bool(v, "/unread"@)
    &&& opt_view(n.updated_at) == json_at_str(v, "/updated_at"@)
}

/// Read the fields of one notification element.
pub fn gh_notif_of_json(v: &serde_json::Value) -> (n: GhNotif)
    ensures
        is_notif_of(*v, n),
{
    GhNotif {
        id: json_str(v, "/id"),
        reason: json_str(v, "/reason"),
        has_subject: json_has(v, "/subject"),
        subject_type: json_str(v, "/subject/type"),
        subject_title: json_str(v, "/subject/title"),
        subject_url: json_str(v, "/subject/url"),
        has_repository: json_has(v, "/repository"),
        repo_full_name: json_str(v, "/repository/full_name"),
        repo_html_url: json_str(v, "/repository/html_url"),
        unread: json_bool(v, "/unread"),
        updated_at: json_str(v, "/updated_at"),
    }
}

/// `r` holds the fields of the workflow-run element `v`.
pub open spec fn is_run_of(v: serde_json::Value, r: GhRun) -> bool {
    &&& opt_view(r.name) == json_at_str(v, "/name"@)
    &&& opt_view(r.head_branch) == json_at_str(v, "/head_branch"@)
    &&& opt_view(r.updated_at) == json_at_str(v, "/updated_at"@)
    &&& opt_view(r.html_url) == json_at_str(v, "/html_url"@)
}

/// Read the fields of one workflow run.
pub fn gh_run_of_json(v: &serde_json::Value) -> (r: GhRun)
    ensures
        is_run_of(*v, r),
{
    GhRun {
        name: json_str(v, "/name"),
        head_branch: json_str(v, "/head_branch"),
        updated_at: json_str(v, "/updated_at"),
        html_url: json_str(v, "/html_url"),
    }
}

/// The message of the error for `gh` output that does not parse.
pub open spec fn parse_error_message(detail: Seq<char>) -> Seq<char> {
    "parse gh output: "@ + detail
}

/// The error text for `gh` output `raw` that is not a JSON array.
pub open spec fn parse_error_of(raw: Seq<u8>) -> Seq<char> {
    parse_error_message(json_array_error(raw))
}

fn parse_gh_array(raw: &[u8]) -> (r: Result<Vec<serde_json::Value>, Error>)
    ensures
        r is Ok == json_bytes_array(raw@),
        r matches Ok(a) ==> a@ == json_bytes_array_elems(raw@),
        r matches Err(e) ==> is_parse_error(raw@, e),
{
    match json_parse_array(raw) {
        Ok(a) => Ok(a),
        Err(e) => {
            let m = concat_str("parse gh output: ", e.as_str());
            assert(m@ == parse_error_message(e@));
            Err(Error::Api(m))
        },
    }
}

/// The API path of one notification thread.
pub fn thread_path(id: i64) -> (r: String)
    ensures
        r@ == "notifications/threads/"@ + dec_int(id as int),
{
    let mut v = chars_of("notifications/threads/");
    push_all(&mut v, &fmt_int(id));
    string_of(&v)
}

/// The API path of a repository's recent workflow runs.
pub fn runs_path(repo: &str) -> (r: String)
    ensures
        r@ == "repos/"@ + repo@ + "/actions/runs?per_page=100"@,
{
    let mut v = chars_of("repos/");
    push_all(&mut v, &chars_of(repo));
    push_all(&mut v, &chars_of("/actions/runs?per_page=100"));
    string_of(&v)
}

/// Linking a notification to its run changes at most its URL, and only that
/// of a check suite with a repository.
pub open spec fn link_preserves(before: entities::Notification, after: entities::Notification) -> bool {
    &&& after.id == before.id
    &&& after.reason == before.reason
    &&& after.kind == before.kind
    &&& after.title == before.title
    &&& after.project == before.project
    &&& after.updated_at == before.updated_at
    &&& after.read == before.read
    &&& after.outcome == before.outcome
    &&& after.wp_id == before.wp_id
    &&& (after.url == before.url || (before.kind is CheckSuite && before.project is Some))
}

/// The `updated_at` a notification is matched to runs by (empty when it has
/// none).
pub open spec fn updated_text(n: entities::Notification) -> Seq<char> {
    match n.updated_at {
        Some(u) => u@,
        None => Seq::empty(),
    }
}

/// `after` is `before` relinked against the runs fetched per repository: a
/// check suite whose repository's runs are known takes the URL of the run
/// [`match_run_url`] picks, when it picks one; anything else is unchanged.
pub open spec fn relinked(
    runs_by_repo: Map<Seq<char>, Vec<GhRun>>,
    before: entities::Notification,
    after: entities::Notification,
) -> bool {
    if before.kind is CheckSuite && before.project is Some && runs_by_repo.dom().contains(
        before.project->0@,
    ) {
        &&& link_preserves(before, after)
        &&& exists|found: Option<Seq<char>>|
            #[trigger] is_matched_run_url(
                runs_by_repo[before.project->0@]@,
                before.title@,
                updated_text(before),
                found,
            ) && match found {
                Some(u) => opt_view(after.url) == Some(u),
                None => after.url == before.url,
            }
    } else {
        after == before
    }
}

/// `r` is `items` relinked against the runs `m` holds per repository, where
/// each repository's runs are what fetching them gave, and every check-suite
/// repository without runs in `m` is one whose fetch gave none.
pub open spec fn relinked_all<R: GhRunner>(
    runner: R,
    items: Seq<entities::Notification>,
    r: Seq<entities::Notification>,
    m: Map<Seq<char>, Vec<GhRun>>,
) -> bool {
    &&& r.len() == items.len()
    &&& forall|p: Seq<char>| #[trigger] m.dom().contains(p) ==> runs_give(runner, p, Some(m[p]))
    &&& forall|i: int|
        0 <= i < items.len() && (#[trigger] items[i]).kind is CheckSuite && items[i].project is Some
            && !m.dom().contains(items[i].project->0@) ==> runs_give(runner, items[i].project->0@, None)
    &&& forall|i: int| 0 <= i < r.len() ==> relinked(m, items[i], #[trigger] r[i])
}

fn relink(runs_by_repo: &StrMap<Vec<GhRun>>, item: entities::Notification) -> (r: entities::Notification)
    ensures
        link_preserves(item, r),
        relinked(runs_by_repo@, item, r),
{
    let ghost before = item;
    let mut item = item;
    let is_ci = match &item.kind {
        NotifKind::CheckSuite => true,
        _ => false,
    };
    if is_ci {
        match &item.project {
            Some(p) => match runs_by_repo.get(p.as_str()) {
                Some(runs) => {
                    let updated: &str = match &item.updated_at {
                        Some(u) => u.as_str(),
                        None => "",
                    };
                    proof {
                        reveal_strlit("");
                        assert(updated@ == updated_text(before));
                    }
                    let found = match_run_url(runs, item.title.as_str(), updated);
                    let ghost fv = opt_view(found);
                    match found {
                        Some(url) => {
                            item.url = Some(url);
                        },
                        None => {},
                    }
                    assert(is_matched_run_url(runs_by_repo@[before.project->0@]@, before.title@, updated_text(before), fv));
                },
                None => {},
            },
            None => {},
        }
    }
    item
}

/// The views of a list of strings and of the result of a run.
pub open spec fn text_result(r: Result<String, Error>) -> Result<Seq<char>, Error> {
    match r {
        Ok(s) => Ok(s@),
        Err(e) => Err(e),
    }
}

/// The arguments that ask for the signed-in login.
pub open spec fn login_args() -> Seq<Seq<char>> {
    seq!["api"@, "user"@, "--jq"@, ".login"@]
}

/// The login a run of the login query gives: its output decoded and trimmed.
pub open spec fn login_from(o: Result<Seq<u8>, Error>) -> Result<Seq<char>, Error> {
    match o {
        Ok(raw) => Ok(trim_ws(utf8_lossy(raw))),
        Err(e) => Err(e),
    }
}

/// `res` is what asking `runner` for the login can give.
pub open spec fn login_gives<R: GhRunner>(runner: R, res: Result<Seq<char>, Error>) -> bool {
    exists|o: Result<Seq<u8>, Error>| #[trigger] runner.gives(login_args(), o) && login_from(o) == res
}

/// `e` is the error of output `raw` that is not a JSON array.
pub open spec fn is_parse_error(raw: Seq<u8>, e: Error) -> bool {
    e matches Error::Api(m) && m@ == parse_error_of(raw)
}

/// Search `k` of the plan for `login` ran and gave a JSON array.
pub open spec fn search_ok<R: GhRunner>(runner: R, login: Seq<char>, k: int) -> bool {
    exists|raw: Seq<u8>| #[trigger] runner.gives(spec_search_args(k, login), Ok(raw)) && json_bytes_array(raw)
}

/// Searches `0..n` of the plan for `login` each ran and gave a JSON array.
pub open spec fn searches_ok<R: GhRunner>(runner: R, login: Seq<char>, n: int) -> bool {
    forall|k: int| 0 <= k < n ==> #[trigger] search_ok(runner, login, k)
}

/// Search `k` of the plan for `login` failed with `e`: the run failed, or its
/// output was not a JSON array.
pub open spec fn search_fails<R: GhRunner>(runner: R, login: Seq<char>, k: int, e: Error) -> bool {
    ||| runner.gives(spec_search_args(k, login), Err(e))
    ||| exists|raw: Seq<u8>|
        #[trigger] runner.gives(spec_search_args(k, login), Ok(raw)) && !json_bytes_array(raw) && is_parse_error(
            raw,
            e,
        )
}

/// The arguments that list my notifications, read ones too.
pub open spec fn notifications_args() -> Seq<Seq<char>> {
    seq!["api"@, "notifications?all=true"@]
}

/// `r` is what listing the notifications can give: the run's error; a parse
/// error when its output is not a JSON array; otherwise one notification per
/// element, in order, built from it and relinked against the workflow runs
/// fetched per repository.
pub open spec fn notifications_give<R: GhRunner>(runner: R, r: Result<Vec<entities::Notification>, Error>) -> bool {
    exists|o: Result<Seq<u8>, Error>|
        #[trigger] runner.gives(notifications_args(), o) && match o {
            Err(e) => r == Err::<Vec<entities::Notification>, Error>(e),
            Ok(raw) => if json_bytes_array(raw) {
                match r {
                    Ok(items) => notifications_from(runner, raw, items@),
                    Err(_) => false,
                }
            } else {
                (r matches Err(e) && is_parse_error(raw, e))
            },
        }
}

/// `items` holds one notification per element of the array `raw`, in order,
/// built from it and relinked against the runs fetched per repository.
pub open spec fn notifications_from<R: GhRunner>(runner: R, raw: Seq<u8>, items: Seq<entities::Notification>) -> bool {
    exists|base: Seq<entities::Notification>, m: Map<Seq<char>, Vec<GhRun>>|
        notifs_of(json_bytes_array_elems(raw), base) && #[trigger] relinked_all(runner, base, items, m)
}

/// The arguments that fetch a repository's recent workflow runs.
pub open spec fn runs_args(repo: Seq<char>) -> Seq<Seq<char>> {
    seq!["api"@, "repos/"@ + repo + "/actions/runs?per_page=100"@]
}

/// `runs` are the runs of the elements `vs`, in order.
pub open spec fn runs_of(vs: Seq<serde_json::Value>, runs: Seq<GhRun>) -> bool {
    &&& runs.len() == vs.len()
    &&& forall|i: int| 0 <= i < vs.len() ==> #[trigger] is_run_of(vs[i], runs[i])
}

/// `r` is what the output `raw` of a runs fetch gives: the runs of its
/// `workflow_runs` array when it parses and has one, else nothing.
pub open spec fn runs_from(raw: Seq<u8>, r: Option<Vec<GhRun>>) -> bool {
    if json_bytes_parse(raw) {
        match json_at_array(json_bytes_value(raw), "/workflow_runs"@) {
            Some(vs) => match r {
                Some(runs) => runs_of(vs, runs@),
                None => false,
            },
            None => r is None,
        }
    } else {
        r is None
    }
}

/// `r` is what fetching a repository's runs can give: nothing when the run
/// fails, else what its output gives.
pub open spec fn runs_give<R: GhRunner>(runner: R, repo: Seq<char>, r: Option<Vec<GhRun>>) -> bool {
    exists|o: Result<Seq<u8>, Error>|
        #[trigger] runner.gives(runs_args(repo), o) && match o {
            Ok(raw) => runs_from(raw, r),
            Err(_) => r is None,
        }
}

/// The arguments that mark one notification thread read.
pub open spec fn patch_args(id: i64) -> Seq<Seq<char>> {
    seq!["api"@, "-X"@, "PATCH"@, "notifications/threads/"@ + dec_int(id as int)]
}

/// The arguments that mark every notification read.
pub open spec fn put_args() -> Seq<Seq<char>> {
    seq!["api"@, "-X"@, "PUT"@, "notifications"@]
}

/// What a run that only needs to succeed gives back.
pub open spec fn unit_of(o: Result<Seq<u8>, Error>) -> Result<(), Error> {
    match o {
        Ok(_) => Ok(()),
        Err(e) => Err(e),
    }
}

/// `o` is the owner part of the repository name `x`: the text before its
/// first `/` (all of `x` when it has none).
pub open spec fn is_owner(x: Seq<char>, o: Seq<char>) -> bool {
    &&& o.len() <= x.len()
    &&& x.subrange(0, o.len() as int) == o
    &&& forall|i: int| 0 <= i < o.len() ==> #[trigger] o[i] != '/'
    &&& (o.len() == x.len() || x[o.len() as int] == '/')
}

/// A task is mine when its repository's owner is the signed-in login.
pub open spec fn is_mine(login: Seq<char>, project: Option<Seq<char>>) -> bool {
    project matches Some(x) && is_owner(x, login)
}

/// Whether the repository `project` is owned by `login`.
fn owned_by(project: &Option<String>, login: &str) -> (r: bool)
    ensures
        r == is_mine(login@, opt_view(*project)),
{
    match project {
        None => false,
        Some(p) => {
            let x = chars_of(p.as_str());
            let mut k: usize = 0;
            while k < x.len() && x[k] != '/'
                invariant
                    k <= x@.len(),
                    forall|i: int| 0 <= i < k ==> #[trigger] x@[i] != '/',
                decreases x.len() - k,
            {
                k = k + 1;
            }
            let o = slice_vec(&x, 0, k);
            let l = chars_of(login);
            let r = o.len() == l.len() && seq_eq(&o, &l);
            proof {
                if is_owner(x@, login@) {
                    let n = login@.len() as int;
                    if n < k {
                        assert(x@[n] == '/');
                    } else if n > k {
                        assert(login@[k as int] == x@[k as int]);
                    }
                    assert(o@ =~= login@);
                }
                if r {
                    assert(o@ == l@);
                    assert forall|i: int| 0 <= i < login@.len() implies #[trigger] login@[i] != '/' by {
                        assert(login@[i] == x@[i]);
                    }
                }
            }
            r
        },
    }
}

/// Two character sequences are equal.
fn seq_eq(a: &Vec<char>, b: &Vec<char>) -> (r: bool)
    requires
        a@.len() == b@.len(),
    ensures
        r == (a@ == b@),
{
    let mut i: usize = 0;
    while i < a.len()
        invariant
            a@.len() == b@.len(),
            i <= a@.len(),
            forall|j: int| 0 <= j < i ==> a@[j] == b@[j],
        decreases a.len() - i,
    {
        if a[i] != b[i] {
            return false;
        }
        i = i + 1;
    }
    assert(a@ =~= b@);
    true
}

/// `t` is the task of search element `v` found by search `k` for `login`:
/// the item's fields, marked mine when `login` owns its repository.
pub open spec fn task_of_elem(v: serde_json::Value, k: int, login: Seq<char>, t: entities::Task) -> bool {
    &&& exists|it: GhItem|
        #[trigger] is_item_of(v, it) && is_task_fields(it, spec_search_kind(k), spec_search_reason(k), t)
    &&& t.mine == is_mine(login, opt_view(t.project))
}

/// `ts` are the tasks of the elements `vs` of search `k`, in order.
pub open spec fn search_tasks(vs: Seq<serde_json::Value>, k: int, login: Seq<char>, ts: Seq<entities::Task>) -> bool {
    &&& ts.len() == vs.len()
    &&& forall|j: int| 0 <= j < vs.len() ==> #[trigger] task_of_elem(vs[j], k, login, ts[j])
}

/// The blocks one after another.
pub open spec fn concat_tasks(blocks: Seq<Seq<entities::Task>>) -> Seq<entities::Task>
    decreases blocks.len(),
{
    if blocks.len() == 0 {
        Seq::empty()
    } else {
        concat_tasks(blocks.drop_last()) + blocks.last()
    }
}

/// The first `n` searches for `login` gave the outputs `raws`, each a JSON
/// array whose elements are the tasks of block `k`.
pub open spec fn searches_gave<R: GhRunner>(
    runner: R,
    login: Seq<char>,
    n: int,
    raws: Seq<Seq<u8>>,
    blocks: Seq<Seq<entities::Task>>,
) -> bool {
    &&& raws.len() == n
    &&& blocks.len() == n
    &&& forall|k: int|
        0 <= k < n ==> {
            &&& #[trigger] runner.gives(spec_search_args(k, login), Ok(raws[k]))
            &&& json_bytes_array(raws[k])
            &&& search_tasks(json_bytes_array_elems(raws[k]), k, login, blocks[k])
        }
}

/// Counting the notifications still unread.
pub open spec fn count_unread(ns: Seq<entities::Notification>) -> nat
    decreases ns.len(),
{
    if ns.len() == 0 {
        0
    } else {
        count_unread(ns.drop_last()) + if ns.last().read {
            0nat
        } else {
            1nat
        }
    }
}

/// `n` is the notification built from notification element `v`.
pub open spec fn notif_of_elem(v: serde_json::Value, n: entities::Notification) -> bool {
    exists|g: GhNotif| #[trigger] is_notif_of(v, g) && is_notification_from_gh(g, n)
}

/// `ns` are the notifications of the elements `vs`, in order.
pub open spec fn notifs_of(vs: Seq<serde_json::Value>, ns: Seq<entities::Notification>) -> bool {
    &&& ns.len() == vs.len()
    &&& forall|j: int| 0 <= j < vs.len() ==> #[trigger] notif_of_elem(vs[j], ns[j])
}

/// GitHub backend over a [`GhRunner`].
pub struct GithubBackend<R: GhRunner> {
    runner: R,
}

impl<R: GhRunner> GithubBackend<R> {
    /// The runner the backend invokes `gh` through.
    pub closed spec fn runner(&self) -> R {
        self.runner
    }

    /// A backend over the given runner.
    pub fn new(runner: R) -> (b: Self)
        ensures
            b.runner() == runner,
    {
        GithubBackend { runner }
    }

    fn run_args(&self, args: &Vec<String>) -> (r: Result<Vec<u8>, Error>)
        ensures
            self.runner.gives(views(args@), out_view(r)),
    {
        let mut v: Vec<&str> = Vec::new();
        let mut i: usize = 0;
        while i < args.len()
            invariant
                i <= args@.len(),
                strs_view(v@) =~= views(args@.subrange(0, i as int)),
            decreases args.len() - i,
        {
            v.push(args[i].as_str());
            proof {
                assert(views(args@.subrange(0, i as int + 1)) =~= views(args@.subrange(0, i as int)).push(args@[i as int]@));
            }
            i = i + 1;
        }
        proof {
            assert(args@.subrange(0, args@.len() as int) =~= args@);
        }
        run_strs(&self.runner, &v)
    }

    /// The authenticated user's login (`gh api user --jq .login`), trimmed.
    fn my_login(&self) -> (r: Result<String, Error>)
        ensures
            login_gives(self.runner, text_result(r)),
    {
        let mut a: Vec<&str> = Vec::new();
        a.push("api");
        a.push("user");
        a.push("--jq");
        a.push(".login");
        assert(strs_view(a@) =~= login_args());
        let out = run_strs(&self.runner, &a);
        assert(self.runner.gives(login_args(), out_view(out)));
        match out {
            Ok(raw) => {
                let text = decode_utf8_lossy(raw.as_slice());
                let t = trim(&chars_of(text.as_str()));
                let s = string_of(&t);
                assert(text_result(Ok::<String, Error>(s)) == login_from(out_view(Ok::<Vec<u8>, Error>(raw))));
                Ok(s)
            },
            Err(e) => Err(e),
        }
    }

    /// Everything on GitHub that needs my attention: the results of the
    /// [`search_plan`] searches in order, mapped by [`task_from_gh`] and marked
    /// mine where the signed-in login owns the repository, with items found by
    /// several searches kept once (first occurrence). It succeeds when the
    /// login query and every search ran and gave a JSON array, and fails with
    /// the first error otherwise.
    pub fn list_my_tasks(&self) -> (r: Result<Vec<entities::Task>, Error>)
        ensures
            match r {
                Ok(ts) => keys_distinct(ts@) && exists|
                    login: Seq<char>,
                    raws: Seq<Seq<u8>>,
                    blocks: Seq<Seq<entities::Task>>,
                |
                    login_gives(self.runner(), Ok(login)) && #[trigger] searches_gave(
                        self.runner(),
                        login,
                        5,
                        raws,
                        blocks,
                    ) && ts@ == spec_dedup(concat_tasks(blocks)),
                Err(e) => login_gives(self.runner(), Err(e)) || exists|login: Seq<char>, k: int|
                    login_gives(self.runner(), Ok(login)) && 0 <= k < 5 && searches_ok(self.runner(), login, k)
                        && #[trigger] search_fails(self.runner(), login, k, e),
            },
    {
        let login = match self.my_login() {
            Ok(l) => l,
            Err(e) => {
                return Err(e);
            },
        };
        let ghost lg = login@;
        assert(login_gives(self.runner(), Ok(lg)));
        let plan = search_plan(login.as_str());
        assert(is_search_plan(plan@, lg));
        let mut out: Vec<entities::Task> = Vec::new();
        let ghost mut raws: Seq<Seq<u8>> = Seq::empty();
        let ghost mut blocks: Seq<Seq<entities::Task>> = Seq::empty();
        let mut i: usize = 0;
        while i < plan.len()
            invariant
                i <= plan@.len(),
                plan@.len() == 5,
                lg == login@,
                is_search_plan(plan@, lg),
                login_gives(self.runner(), Ok(lg)),
                searches_ok(self.runner(), lg, i as int),
                searches_gave(self.runner(), lg, i as int, raws, blocks),
                out@ == concat_tasks(blocks),
            decreases plan.len() - i,
        {
            let ghost args = spec_search_args(i as int, lg);
            assert(views(plan@[i as int].args@) == args);
            assert(plan@[i as int].kind == spec_search_kind(i as int));
            assert(plan@[i as int].reason == spec_search_reason(i as int));
            let res = self.run_args(&plan[i].args);
            let ghost o = out_view(res);
            assert(self.runner().gives(args, o));
            let raw = match res {
                Ok(raw) => raw,
                Err(e) => {
                    assert(o == Err::<Seq<u8>, Error>(e));
                    assert(search_fails(self.runner(), lg, i as int, e));
                    return Err(e);
                },
            };
            assert(o == Ok::<Seq<u8>, Error>(raw@));
            let parsed = parse_gh_array(raw.as_slice());
            let arr = match parsed {
                Ok(a) => a,
                Err(e) => {
                    assert(!json_bytes_array(raw@));
                    assert(is_parse_error(raw@, e));
                    assert(search_fails(self.runner(), lg, i as int, e));
                    return Err(e);
                },
            };
            assert(json_bytes_array(raw@));
            proof {
                assert(search_ok(self.runner(), lg, i as int)) by {
                    assert(self.runner().gives(spec_search_args(i as int, lg), Ok(raw@)));
                }
                assert forall|k: int| 0 <= k < i + 1 implies #[trigger] search_ok(self.runner(), lg, k) by {
                    if k < i {
                        assert(searches_ok(self.runner(), lg, i as int));
                    }
                }
            }
            let ghost before = out@;
            let ghost mut cur: Seq<entities::Task> = Seq::empty();
            let mut j: usize = 0;
            while j < arr.len()
                invariant
                    i < plan@.len(),
                    j <= arr@.len(),
                    plan@.len() == 5,
                    lg == login@,
                    arr@ == json_bytes_array_elems(raw@),
                    plan@[i as int].kind == spec_search_kind(i as int),
                    plan@[i as int].reason == spec_search_reason(i as int),
                    cur.len() == j,
                    forall|q: int| 0 <= q < j ==> #[trigger] task_of_elem(arr@[q], i as int, lg, cur[q]),
                    out@ == before + cur,
                decreases arr.len() - j,
            {
                let it = gh_item_of_json(&arr[j]);
                let mut t = task_from_gh(&it, plan[i].kind, plan[i].reason);
                t.mine = owned_by(&t.project, login.as_str());
                proof {
                    assert(is_item_of(arr@[j as int], it));
                    assert(task_of_elem(arr@[j as int], i as int, lg, t));
                    cur = cur.push(t);
                }
                out.push(t);
                j = j + 1;
            }
            proof {
                let ghost nraws = raws.push(raw@);
                let ghost nblocks = blocks.push(cur);
                assert(nblocks.drop_last() =~= blocks);
                assert(search_tasks(json_bytes_array_elems(raw@), i as int, lg, cur));
                assert forall|k: int| 0 <= k < i + 1 implies {
                    &&& #[trigger] self.runner().gives(spec_search_args(k, lg), Ok(nraws[k]))
                    &&& json_bytes_array(nraws[k])
                    &&& search_tasks(json_bytes_array_elems(nraws[k]), k, lg, nblocks[k])
                } by {
                    if k < i {
                        assert(nraws[k] == raws[k]);
                        assert(nblocks[k] == blocks[k]);
                        assert(self.runner().gives(spec_search_args(k, lg), Ok(raws[k])));
                    }
                }
                raws = nraws;
                blocks = nblocks;
            }
            i = i + 1;
        }
        assert(searches_ok(self.runner(), lg, 5));
        assert(searches_gave(self.runner(), lg, 5, raws, blocks));
        Ok(dedup_by_id(out))
    }

    /// My notifications (read ones too, `all=true`), each mapped by
    /// [`notification_from_gh`], with check-suite links upgraded to their run.
    pub fn list_notifications(&self) -> (r: Result<Vec<entities::Notification>, Error>)
        ensures
            notifications_give(self.runner(), r),
    {
        let mut a: Vec<&str> = Vec::new();
        a.push("api");
        a.push("notifications?all=true");
        assert(strs_view(a@) =~= notifications_args());
        let out = run_strs(&self.runner, &a);
        let ghost o = out_view(out);
        assert(self.runner().gives(notifications_args(), o));
        let raw = match out {
            Ok(raw) => raw,
            Err(e) => {
                assert(o == Err::<Seq<u8>, Error>(e));
                return Err(e);
            },
        };
        assert(o == Ok::<Seq<u8>, Error>(raw@));
        let parsed = parse_gh_array(raw.as_slice());
        let arr = match parsed {
            Ok(a) => a,
            Err(e) => {
                assert(!json_bytes_array(raw@));
                assert(is_parse_error(raw@, e));
                return Err(e);
            },
        };
        assert(json_bytes_array(raw@));
        let mut items: Vec<entities::Notification> = Vec::new();
        let mut i: usize = 0;
        while i < arr.len()
            invariant
                i <= arr@.len(),
                items@.len() == i,
                arr@ == json_bytes_array_elems(raw@),
                forall|q: int| 0 <= q < i ==> #[trigger] notif_of_elem(arr@[q], items@[q]),
            decreases arr.len() - i,
        {
            let g = gh_notif_of_json(&arr[i]);
            let n = notification_from_gh(&g);
            proof {
                assert(is_notif_of(arr@[i as int], g));
                assert(notif_of_elem(arr@[i as int], n));
            }
            items.push(n);
            i = i + 1;
        }
        let ghost base = items@;
        assert(notifs_of(json_bytes_array_elems(raw@), base));
        let r = self.link_check_suite_runs(items);
        let ghost m = choose|m: Map<Seq<char>, Vec<GhRun>>| #[trigger] relinked_all(self.runner, base, r@, m);
        let ghost res = Ok::<Vec<entities::Notification>, Error>(r);
        proof {
            assert(relinked_all(self.runner(), base, r@, m));
            assert(notifs_of(json_bytes_array_elems(raw@), base));
            assert(exists|b: Seq<entities::Notification>, mm: Map<Seq<char>, Vec<GhRun>>|
                notifs_of(json_bytes_array_elems(raw@), b) && #[trigger] relinked_all(self.runner(), b, r@, mm));
            assert(notifications_from(self.runner(), raw@, r@));
            assert(notifications_give(self.runner(), res));
            assert(notifications_give(self.runner(), res));
        }
        Ok(r)
    }

    /// A repository's recent workflow runs, or `None` when the call or its
    /// parse fails.
    fn fetch_recent_runs(&self, repo: &str) -> (r: Option<Vec<GhRun>>)
        ensures
            runs_give(self.runner, repo@, r),
    {
        let path = runs_path(repo);
        let mut a: Vec<&str> = Vec::new();
        a.push("api");
        a.push(path.as_str());
        assert(strs_view(a@) =~= runs_args(repo@));
        let out = run_strs(&self.runner, &a);
        assert(self.runner.gives(runs_args(repo@), out_view(out)));
        let raw = match out {
            Ok(raw) => raw,
            Err(_) => {
                return None;
            },
        };
        let v = match json_parse(raw.as_slice()) {
            Ok(v) => v,
            Err(_) => {
                return None;
            },
        };
        let arr = match json_array(&v, "/workflow_runs") {
            Some(a) => a,
            None => {
                return None;
            },
        };
        let mut runs: Vec<GhRun> = Vec::new();
        let mut i: usize = 0;
        while i < arr.len()
            invariant
                i <= arr@.len(),
                runs@.len() == i,
                forall|k: int| 0 <= k < i ==> #[trigger] is_run_of(arr@[k], runs@[k]),
            decreases arr.len() - i,
        {
            runs.push(gh_run_of_json(&arr[i]));
            i = i + 1;
        }
        let r = Some(runs);
        assert(runs_from(raw@, r));
        r
    }

    /// Upgrade each check-suite notification's link to the workflow run it
    /// refers to, where its repository's runs can be fetched and one matches.
    /// Each repository is fetched once, in ascending name order.
    fn link_check_suite_runs(&self, items: Vec<entities::Notification>) -> (r: Vec<entities::Notification>)
        ensures
            r@.len() == items@.len(),
            forall|i: int| 0 <= i < r@.len() ==> link_preserves(items@[i], #[trigger] r@[i]),
            exists|m: Map<Seq<char>, Vec<GhRun>>| #[trigger] relinked_all(self.runner, items@, r@, m),
    {
        let mut repos: StrMap<bool> = StrMap::new();
        let mut i: usize = 0;
        while i < items.len()
            invariant
                i <= items@.len(),
                forall|k: int|
                    0 <= k < i && (#[trigger] items@[k]).kind is CheckSuite && items@[k].project is Some
                        ==> repos@.dom().contains(items@[k].project->0@),
            decreases items.len() - i,
        {
            match &items[i].kind {
                NotifKind::CheckSuite => match &items[i].project {
                    Some(p) => {
                        repos.insert(p.clone(), true);
                    },
                    None => {},
                },
                _ => {},
            }
            i = i + 1;
        }
        let mut runs_by_repo: StrMap<Vec<GhRun>> = StrMap::new();
        let n = repos.len();
        let mut k: usize = 0;
        proof {
            use_type_invariant(&repos);
            repos.lemma_view();
        }
        while k < n
            invariant
                n == repos.keys().len(),
                k <= n,
                forall|q: Seq<char>| #[trigger] repos@.dom().contains(q) <==> repos.keys().contains(q),
                forall|p: Seq<char>| #[trigger]
                    runs_by_repo@.dom().contains(p) ==> runs_give(self.runner, p, Some(runs_by_repo@[p])),
                forall|kk: int|
                    0 <= kk < k && !runs_by_repo@.dom().contains(#[trigger] repos.keys()[kk]) ==> runs_give(
                        self.runner,
                        repos.keys()[kk],
                        None,
                    ),
                forall|kk: int|
                    k <= kk < n ==> !runs_by_repo@.dom().contains(#[trigger] repos.keys()[kk])
                        || runs_give(self.runner, repos.keys()[kk], Some(runs_by_repo@[repos.keys()[kk]])),
            decreases n - k,
        {
            let repo = repos.key_at(k);
            match self.fetch_recent_runs(repo.as_str()) {
                Some(runs) => {
                    runs_by_repo.insert(repo.clone(), runs);
                },
                None => {},
            }
            k = k + 1;
        }
        let ghost m = runs_by_repo@;
        let ghost orig = items@;
        proof {
            assert forall|i: int|
                0 <= i < orig.len() && (#[trigger] orig[i]).kind is CheckSuite && orig[i].project is Some
                    && !m.dom().contains(orig[i].project->0@) implies runs_give(
                self.runner,
                orig[i].project->0@,
                None,
            ) by {
                let p = orig[i].project->0@;
                assert(repos@.dom().contains(p));
                assert(repos.keys().contains(p));
                let kk = choose|kk: int| 0 <= kk < repos.keys().len() && repos.keys()[kk] == p;
                assert(!runs_by_repo@.dom().contains(repos.keys()[kk]));
            }
        }
        let mut rest = items;
        let mut out: Vec<entities::Notification> = Vec::new();
        let mut j: usize = 0;
        while rest.len() > 0
            invariant
                j + rest@.len() == orig.len(),
                orig.len() <= usize::MAX,
                rest@ == orig.subrange(j as int, orig.len() as int),
                out@.len() == j,
                m == runs_by_repo@,
                forall|q: int| 0 <= q < j ==> link_preserves(orig[q], #[trigger] out@[q]),
                forall|q: int| 0 <= q < j ==> relinked(m, orig[q], #[trigger] out@[q]),
            decreases rest.len(),
        {
            let item = rest.remove(0);
            proof {
                assert(orig[j as int] == item);
                assert(rest@ =~= orig.subrange(j + 1, orig.len() as int));
            }
            out.push(relink(&runs_by_repo, item));
            j = j + 1;
        }
        assert(relinked_all(self.runner, orig, out@, m));
        out
    }

    /// Mark one notification thread read: `gh api -X PATCH
    /// notifications/threads/<id>`; it fails with the run's error.
    pub fn mark_notification_read(&self, id: i64) -> (r: Result<(), Error>)
        ensures
            exists|o: Result<Seq<u8>, Error>| #[trigger] self.runner().gives(patch_args(id), o) && r == unit_of(o),
    {
        let path = thread_path(id);
        let mut a: Vec<&str> = Vec::new();
        a.push("api");
        a.push("-X");
        a.push("PATCH");
        a.push(path.as_str());
        assert(strs_view(a@) =~= patch_args(id));
        let out = run_strs(&self.runner, &a);
        assert(self.runner().gives(patch_args(id), out_view(out)));
        match out {
            Ok(_) => Ok(()),
            Err(e) => Err(e),
        }
    }

    /// Mark every notification read (`gh api -X PUT notifications`), returning
    /// how many of the current list were unread before the call. It fails with
    /// the listing's error, or else with the marking run's.
    pub fn mark_all_notifications_read(&self) -> (r: Result<u64, Error>)
        ensures
            match r {
                Ok(n) => exists|items: Vec<entities::Notification>|
                    #[trigger] notifications_give(self.runner(), Ok(items)) && n == count_unread(items@)
                        && exists|raw: Seq<u8>| #[trigger] self.runner().gives(put_args(), Ok(raw)),
                Err(e) => notifications_give(self.runner(), Err(e)) || exists|items: Vec<entities::Notification>|
                    #[trigger] notifications_give(self.runner(), Ok(items)) && self.runner().gives(
                        put_args(),
                        Err(e),
                    ),
            },
    {
        let items = match self.list_notifications() {
            Ok(items) => items,
            Err(e) => {
                return Err(e);
            },
        };
        let mut count: u64 = 0;
        let mut i: usize = 0;
        while i < items.len()
            invariant
                i <= items@.len(),
                count <= i,
                count == count_unread(items@.subrange(0, i as int)),
            decreases items.len() - i,
        {
            proof {
                assert(items@.subrange(0, i as int + 1).drop_last() =~= items@.subrange(0, i as int));
            }
            if !items[i].read {
                count = count + 1;
            }
            i = i + 1;
        }
        assert(items@.subrange(0, items@.len() as int) =~= items@);
        let mut a: Vec<&str> = Vec::new();
        a.push("api");
        a.push("-X");
        a.push("PUT");
        a.push("notifications");
        assert(strs_view(a@) =~= put_args());
        let out = run_strs(&self.runner, &a);
        assert(self.runner().gives(put_args(), out_view(out)));
        match out {
            Ok(_) => Ok(count),
            Err(e) => Err(e),
        }
    }
}

} // verus!
