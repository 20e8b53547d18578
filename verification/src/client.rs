//! The decisions the HTTP client makes around its requests: which proxy a
//! server uses, how an API path becomes a URL, which errors are worth a
//! retry, and how an attachment's content type is guessed.

use vstd::prelude::*;
use crate::error::Error;
use crate::text::{
    chars_of, concat_str, contains, eq_ignore_ascii_case, lower_ascii_char, lower_ascii_seq,
    starts_with, string_of, find, slice_vec, after_last, after_last_char, push_all, fmt_u64, is_digit, has_prefix,
    seq_contains, eq_ascii_ci, occurs_at, dec_nat,
};
use crate::strmap::str_eq;

verus! {

/// The resolved proxy decision for one server.
#[derive(Debug, Clone, PartialEq, Eq)]
pub enum ProxyChoice {
    /// Route HTTP through this proxy URL.
    Explicit(String),
    /// Force a direct connection, ignoring any ambient proxy environment.
    Direct,
    /// No configured choice: defer to the ambient environment.
    Inherit,
}

/// The spec form of a proxy decision, over character sequences.
pub enum ProxyModel {
    Explicit(Seq<char>),
    Direct,
    Inherit,
}

/// The model of a proxy decision.
pub open spec fn proxy_model(p: ProxyChoice) -> ProxyModel {
    match p {
        ProxyChoice::Explicit(s) => ProxyModel::Explicit(s@),
        ProxyChoice::Direct => ProxyModel::Direct,
        ProxyChoice::Inherit => ProxyModel::Inherit,
    }
}

/// A configured value that forces a direct connection: empty, or `direct` /
/// `none` in any ASCII case.
pub open spec fn is_direct_sentinel(s: Seq<char>) -> bool {
    s.len() == 0 || eq_ascii_ci(s, "direct"@) || eq_ascii_ci(s, "none"@)
}

/// What one configured level decides, if anything.
pub open spec fn spec_proxy_level(v: Option<Seq<char>>) -> Option<ProxyModel> {
    match v {
        None => None,
        Some(s) => if is_direct_sentinel(s) {
            Some(ProxyModel::Direct)
        } else {
            Some(ProxyModel::Explicit(s))
        },
    }
}

/// The effective proxy: the first level that decides, highest first
/// (override, profile, global), else inherit the environment.
pub open spec fn spec_resolve_proxy(
    over: Option<Seq<char>>,
    profile: Option<Seq<char>>,
    global: Option<Seq<char>>,
) -> ProxyModel {
    match spec_proxy_level(over) {
        Some(c) => c,
        None => match spec_proxy_level(profile) {
            Some(c) => c,
            None => match spec_proxy_level(global) {
                Some(c) => c,
                None => ProxyModel::Inherit,
            },
        },
    }
}

/// A proxy override of `none` forces a direct connection whatever the profile
/// and the global setting hold; with no override, a profile proxy wins over
/// the global one.
pub proof fn law_proxy_precedence(profile: Option<Seq<char>>, global: Option<Seq<char>>, p: Seq<char>)
    requires
        !is_direct_sentinel(p),
    ensures
        spec_resolve_proxy(Some("none"@), profile, global) == ProxyModel::Direct,
        spec_resolve_proxy(None, Some(p), global) == ProxyModel::Explicit(p),
{
    reveal_strlit("none");
    reveal_strlit("direct");
    assert(eq_ascii_ci("none"@, "none"@));
}

/// The view of an optional string slice.
pub open spec fn opt_seq(o: Option<&str>) -> Option<Seq<char>> {
    match o {
        Some(s) => Some(s@),
        None => None,
    }
}

/// Whether the characters spell `lit`.
pub fn eq_lit(v: &[char], lit: &str) -> (r: bool)
    ensures
        r == (v@ == lit@),
{
    let l = chars_of(lit);
    if v.len() != l.len() {
        return false;
    }
    let mut i: usize = 0;
    while i < v.len()
        invariant
            v@.len() == l@.len(),
            l@ == lit@,
            i <= v@.len(),
            forall|j: int| 0 <= j < i ==> v@[j] == l@[j],
        decreases v.len() - i,
    {
        if v[i] != l[i] {
            return false;
        }
        i = i + 1;
    }
    assert(v@ =~= l@);
    true
}

fn proxy_level(v: Option<&str>) -> (r: Option<ProxyChoice>)
    ensures
        match r {
            Some(c) => spec_proxy_level(opt_seq(v)) == Some(proxy_model(c)),
            None => spec_proxy_level(opt_seq(v)) is None,
        },
{
    match v {
        None => None,
        Some(s) => {
            let cs = chars_of(s);
            let direct = chars_of("direct");
            let none = chars_of("none");
            if cs.len() == 0 || eq_ignore_ascii_case(&cs, &direct) || eq_ignore_ascii_case(
                &cs,
                &none,
            ) {
                Some(ProxyChoice::Direct)
            } else {
                Some(ProxyChoice::Explicit(s.to_string()))
            }
        },
    }
}

/// Resolve the effective proxy for a server. Precedence, highest first: the
/// invocation override, the per-server value, the global default, then the
/// ambient environment. At any level a URL selects that proxy and
/// `direct` / `none` / empty forces a direct connection.
pub fn resolve_proxy(override_: Option<&str>, profile: Option<&str>, global: Option<&str>) -> (r:
    ProxyChoice)
    ensures
        proxy_model(r) == spec_resolve_proxy(opt_seq(override_), opt_seq(profile), opt_seq(global)),
{
    match proxy_level(override_) {
        Some(c) => c,
        None => match proxy_level(profile) {
            Some(c) => c,
            None => match proxy_level(global) {
                Some(c) => c,
                None => ProxyChoice::Inherit,
            },
        },
    }
}

/// `s` with every leading `c` removed.
pub open spec fn trim_start_char(s: Seq<char>, c: char) -> Seq<char>
    decreases s.len(),
{
    if s.len() > 0 && s[0] == c {
        trim_start_char(s.drop_first(), c)
    } else {
        s
    }
}

/// `s` with every trailing `c` removed.
pub open spec fn trim_end_char(s: Seq<char>, c: char) -> Seq<char>
    decreases s.len(),
{
    if s.len() > 0 && s.last() == c {
        trim_end_char(s.drop_last(), c)
    } else {
        s
    }
}

proof fn lemma_trim_start_step(s: Seq<char>, c: char, i: int)
    requires
        0 <= i < s.len(),
        forall|j: int| 0 <= j <= i ==> s[j] == c,
    ensures
        trim_start_char(s, c) == trim_start_char(s.subrange(i + 1, s.len() as int), c),
    decreases i,
{
    if i > 0 {
        lemma_trim_start_step(s.drop_first(), c, i - 1);
        assert(s.drop_first().subrange(i, s.len() - 1) =~= s.subrange(i + 1, s.len() as int));
    } else {
        assert(s.drop_first() =~= s.subrange(1, s.len() as int));
    }
}

proof fn lemma_trim_end_step(s: Seq<char>, c: char, k: int)
    requires
        0 <= k < s.len(),
        forall|j: int| k <= j < s.len() ==> s[j] == c,
    ensures
        trim_end_char(s, c) == trim_end_char(s.subrange(0, k), c),
    decreases s.len() - k,
{
    if k < s.len() - 1 {
        lemma_trim_end_step(s.drop_last(), c, k);
        assert(s.drop_last().subrange(0, k) =~= s.subrange(0, k));
    } else {
        assert(s.drop_last() =~= s.subrange(0, k));
    }
}

/// `s` without its leading copies of `c`.
pub fn trim_start_matches(s: &[char], c: char) -> (r: Vec<char>)
    ensures
        r@ == trim_start_char(s@, c),
{
    let mut i: usize = 0;
    while i < s.len() && s[i] == c
        invariant
            i <= s@.len(),
            forall|j: int| 0 <= j < i ==> s@[j] == c,
        decreases s.len() - i,
    {
        i = i + 1;
    }
    proof {
        if i > 0 {
            lemma_trim_start_step(s@, c, i - 1);
        }
        assert(s@.subrange(0, s@.len() as int) =~= s@);
    }
    slice_vec(s, i, s.len())
}

/// `s` without its trailing copies of `c`.
pub fn trim_end_matches(s: &[char], c: char) -> (r: Vec<char>)
    ensures
        r@ == trim_end_char(s@, c),
{
    let mut k: usize = s.len();
    while k > 0 && s[k - 1] == c
        invariant
            k <= s@.len(),
            forall|j: int| k <= j < s@.len() ==> s@[j] == c,
        decreases k,
    {
        k = k - 1;
    }
    proof {
        if k < s@.len() {
            lemma_trim_end_step(s@, c, k as int);
        }
        assert(s@.subrange(0, s@.len() as int) =~= s@);
    }
    slice_vec(s, 0, k)
}

/// A base URL without trailing slashes, the form the client stores.
pub fn normalize_base_url(url: &str) -> (r: String)
    ensures
        r@ == trim_end_char(url@, '/'),
{
    let cs = chars_of(url);
    let t = trim_end_matches(&cs, '/');
    string_of(&t)
}

/// Normalizing a base URL twice gives what normalizing once gave: the stored
/// form is a fixed point, so the config migration that trims stored URLs can
/// run again harmlessly.
pub proof fn law_normalize_base_url_idempotent(s: Seq<char>, c: char)
    ensures
        trim_end_char(trim_end_char(s, c), c) == trim_end_char(s, c),
    decreases s.len(),
{
    if s.len() > 0 && s.last() == c {
        law_normalize_base_url_idempotent(s.drop_last(), c);
    }
}

/// The absolute URL of an API path: a path that already holds `api/v3/`
/// (such as a deployment-subpath href) is cut to the part from there on;
/// any other path is placed under `/api/v3/`.
pub open spec fn spec_api_url(base: Seq<char>, path: Seq<char>) -> Seq<char> {
    let p = trim_start_char(path, '/');
    if seq_contains(p, "api/v3/"@) {
        let idx = choose|i: int| occurs_at(p, "api/v3/"@, i) && forall|j: int| 0 <= j < i ==> !occurs_at(p, "api/v3/"@, j);
        base + "/"@ + p.subrange(idx, p.len() as int)
    } else {
        base + "/api/v3/"@ + p
    }
}

/// Build an absolute API URL from a (slash-trimmed) base URL and a path.
pub fn api_url(base_url: &str, path: &str) -> (r: String)
    ensures
        r@ == spec_api_url(base_url@, path@),
{
    let pc = chars_of(path);
    let p = trim_start_matches(&pc, '/');
    let marker = chars_of("api/v3/");
    let mut out = chars_of(base_url);
    match find(&p, &marker) {
        Some(idx) => {
            let slash = chars_of("/");
            push_all(&mut out, &slash);
            let tail = slice_vec(&p, idx, p.len());
            push_all(&mut out, &tail);
            proof {
                let ghost pp = p@;
                assert(seq_contains(pp, "api/v3/"@));
                let ghost w = choose|i: int| occurs_at(pp, "api/v3/"@, i) && forall|j: int| 0 <= j < i ==> !occurs_at(pp, "api/v3/"@, j);
                if w < idx {
                    assert(!occurs_at(pp, "api/v3/"@, w));
                } else if w > idx {
                    assert(!occurs_at(pp, "api/v3/"@, idx as int));
                }
            }
        },
        None => {
            let pre = chars_of("/api/v3/");
            push_all(&mut out, &pre);
            push_all(&mut out, &p);
        },
    }
    string_of(&out)
}

/// An API error message that marks a retriable server status.
pub open spec fn has_retriable_status(m: Seq<char>) -> bool {
    ||| seq_contains(m, "HTTP 429"@)
    ||| seq_contains(m, "HTTP 500"@)
    ||| seq_contains(m, "HTTP 502"@)
    ||| seq_contains(m, "HTTP 503"@)
    ||| seq_contains(m, "HTTP 504"@)
}

/// An API error message that marks a transient transport failure.
pub open spec fn is_transient_transport(m: Seq<char>) -> bool {
    has_prefix(m, "request "@) && (seq_contains(m, "timed out"@) || seq_contains(m, "timeout"@)
        || seq_contains(m, "connect"@) || seq_contains(m, "connection"@) || seq_contains(
        m,
        "dns"@,
    ) || seq_contains(m, "reset"@))
}

/// Whether an error is worth retrying: an API error with a 429/5xx status,
/// or a transient transport failure.
pub open spec fn spec_is_retriable(e: Error) -> bool {
    match e {
        Error::Api(m) => has_retriable_status(m@) || is_transient_transport(m@),
        _ => false,
    }
}

/// An API error whose message carries any of the statuses 429, 500, 502,
/// 503 or 504 is retried; an error of any other kind never is.
pub proof fn law_retriable_statuses(m: String, e: Error)
    ensures
        seq_contains(m@, "HTTP 429"@) ==> spec_is_retriable(Error::Api(m)),
        seq_contains(m@, "HTTP 500"@) ==> spec_is_retriable(Error::Api(m)),
        seq_contains(m@, "HTTP 502"@) ==> spec_is_retriable(Error::Api(m)),
        seq_contains(m@, "HTTP 503"@) ==> spec_is_retriable(Error::Api(m)),
        seq_contains(m@, "HTTP 504"@) ==> spec_is_retriable(Error::Api(m)),
        !(e is Api) ==> !spec_is_retriable(e),
        !seq_contains(m@, "HTTP 429"@) && !seq_contains(m@, "HTTP 500"@) && !seq_contains(m@, "HTTP 502"@)
            && !seq_contains(m@, "HTTP 503"@) && !seq_contains(m@, "HTTP 504"@) && !is_transient_transport(m@)
            ==> !spec_is_retriable(Error::Api(m)),
{
}

/// Whether an error is worth retrying.
pub fn is_retriable(e: &Error) -> (r: bool)
    ensures
        r == spec_is_retriable(*e),
{
    match e {
        Error::Api(msg) => {
            let m = chars_of(msg.as_str());
            if contains(&m, &chars_of("HTTP 429")) || contains(&m, &chars_of("HTTP 500")) || contains(
                &m,
                &chars_of("HTTP 502"),
            ) || contains(&m, &chars_of("HTTP 503")) || contains(&m, &chars_of("HTTP 504")) {
                return true;
            }
            if starts_with(&m, &chars_of("request ")) && (contains(&m, &chars_of("timed out"))
                || contains(&m, &chars_of("timeout")) || contains(&m, &chars_of("connect"))
                || contains(&m, &chars_of("connection")) || contains(&m, &chars_of("dns"))
                || contains(&m, &chars_of("reset"))) {
                return true;
            }
            false
        },
        _ => false,
    }
}

/// The content type registered for a (lowercase) extension.
pub open spec fn content_type_for_ext(e: Seq<char>) -> Seq<char> {
    if e == "txt"@ || e == "log"@ {
        "text/plain"@
    } else if e == "csv"@ {
        "text/csv"@
    } else if e == "html"@ || e == "htm"@ {
        "text/html"@
    } else if e == "json"@ {
        "application/json"@
    } else if e == "xml"@ {
        "application/xml"@
    } else if e == "pdf"@ {
        "application/pdf"@
    } else if e == "zip"@ {
        "application/zip"@
    } else if e == "png"@ {
        "image/png"@
    } else if e == "jpg"@ || e == "jpeg"@ {
        "image/jpeg"@
    } else if e == "gif"@ {
        "image/gif"@
    } else if e == "svg"@ {
        "image/svg+xml"@
    } else if e == "doc"@ {
        "application/msword"@
    } else if e == "docx"@ {
        "application/vnd.openxmlformats-officedocument.wordprocessingml.document"@
    } else if e == "xls"@ {
        "application/vnd.ms-excel"@
    } else if e == "xlsx"@ {
        "application/vnd.openxmlformats-officedocument.spreadsheetml.sheet"@
    } else {
        "application/octet-stream"@
    }
}

/// Lowercase every ASCII letter of a character vector.
pub fn lower_ascii_vec(v: &[char]) -> (r: Vec<char>)
    ensures
        r@ == lower_ascii_seq(v@),
{
    let mut r: Vec<char> = Vec::new();
    let mut i: usize = 0;
    while i < v.len()
        invariant
            i <= v@.len(),
            r@ == lower_ascii_seq(v@.subrange(0, i as int)),
        decreases v.len() - i,
    {
        r.push(lower_ascii_char(v[i]));
        proof {
            assert(lower_ascii_seq(v@.subrange(0, i + 1)) =~= lower_ascii_seq(
                v@.subrange(0, i as int),
            ).push(crate::text::lower_ascii(v@[i as int])));
        }
        i = i + 1;
    }
    assert(v@.subrange(0, v@.len() as int) =~= v@);
    r
}

/// Guess an attachment's content type from the extension of its file name
/// (ASCII case ignored); unknown extensions are `application/octet-stream`.
pub fn guess_content_type(name: &str) -> (r: &'static str)
    ensures
        r@ == content_type_for_ext(lower_ascii_seq(after_last(name@, '.'))),
{
    let cs = chars_of(name);
    let raw = after_last_char(&cs, '.');
    let e = lower_ascii_vec(&raw);
    if eq_lit(&e, "txt") || eq_lit(&e, "log") {
        "text/plain"
    } else if eq_lit(&e, "csv") {
        "text/csv"
    } else if eq_lit(&e, "html") || eq_lit(&e, "htm") {
        "text/html"
    } else if eq_lit(&e, "json") {
        "application/json"
    } else if eq_lit(&e, "xml") {
        "application/xml"
    } else if eq_lit(&e, "pdf") {
        "application/pdf"
    } else if eq_lit(&e, "zip") {
        "application/zip"
    } else if eq_lit(&e, "png") {
        "image/png"
    } else if eq_lit(&e, "jpg") || eq_lit(&e, "jpeg") {
        "image/jpeg"
    } else if eq_lit(&e, "gif") {
        "image/gif"
    } else if eq_lit(&e, "svg") {
        "image/svg+xml"
    } else if eq_lit(&e, "doc") {
        "application/msword"
    } else if eq_lit(&e, "docx") {
        "application/vnd.openxmlformats-officedocument.wordprocessingml.document"
    } else if eq_lit(&e, "xls") {
        "application/vnd.ms-excel"
    } else if eq_lit(&e, "xlsx") {
        "application/vnd.openxmlformats-officedocument.spreadsheetml.sheet"
    } else {
        "application/octet-stream"
    }
}

/// A key of the form `customField<digits>` with a non-empty digit suffix.
pub open spec fn spec_is_custom_field_key(k: Seq<char>) -> bool {
    &&& has_prefix(k, "customField"@)
    &&& k.len() > "customField"@.len()
    &&& forall|i: int| "customField"@.len() <= i < k.len() ==> is_digit(#[trigger] k[i])
}

/// Whether a payload key names a custom field (`customField<digits>`).
pub fn is_custom_field_key(key: &str) -> (r: bool)
    ensures
        r == spec_is_custom_field_key(key@),
{
    let k = chars_of(key);
    let p = chars_of("customField");
    if !starts_with(&k, &p) {
        return false;
    }
    if k.len() == p.len() {
        return false;
    }
    let mut i: usize = p.len();
    while i < k.len()
        invariant
            p@ == "customField"@,
            k@ == key@,
            p@.len() <= i <= k@.len(),
            forall|j: int| p@.len() <= j < i ==> is_digit(#[trigger] k@[j]),
        decreases k.len() - i,
    {
        if !('0' <= k[i] && k[i] <= '9') {
            proof {
                assert(!is_digit(key@[i as int]));
                assert("customField"@.len() <= i < key@.len());
            }
            return false;
        }
        i = i + 1;
    }
    true
}

/// The file name an upload goes under: the explicit name, else the path's
/// file name, else `file`.
pub open spec fn spec_upload_name(explicit: Option<Seq<char>>, from_path: Option<Seq<char>>) -> Seq<
    char,
> {
    match explicit {
        Some(n) => n,
        None => match from_path {
            Some(n) => n,
            None => "file"@,
        },
    }
}

/// Choose an upload's file name.
pub fn upload_name(explicit: Option<&str>, from_path: Option<&str>) -> (r: String)
    ensures
        r@ == spec_upload_name(opt_seq(explicit), opt_seq(from_path)),
{
    match explicit {
        Some(n) => n.to_string(),
        None => match from_path {
            Some(n) => n.to_string(),
            None => "file".to_string(),
        },
    }
}

/// Choose an upload's content type: the explicit one, else the guess from
/// the file name.
pub fn upload_content_type(explicit: Option<&str>, name: &str) -> (r: String)
    ensures
        r@ == match opt_seq(explicit) {
            Some(c) => c,
            None => content_type_for_ext(lower_ascii_seq(after_last(name@, '.'))),
        },
{
    match explicit {
        Some(c) => c.to_string(),
        None => guess_content_type(name).to_string(),
    }
}

/// Size and SHA-256 (lowercase hex) of a downloaded attachment body.
#[derive(Debug, Clone)]
pub struct DownloadInfo {
    pub bytes: u64,
    pub sha256: String,
}

/// The message of the error raised when a download passes its size limit.
pub open spec fn exceeds_limit_message(limit: u64) -> Seq<char> {
    "attachment exceeds max-bytes "@ + dec_nat(limit as nat)
}

/// Check a download's running size against its optional limit.
pub fn check_download_limit(total: u64, max_bytes: Option<u64>) -> (r: Result<(), Error>)
    ensures
        match max_bytes {
            Some(limit) => if total > limit {
                r matches Err(Error::Usage(m)) && m@ == exceeds_limit_message(limit)
            } else {
                r is Ok
            },
            None => r is Ok,
        },
{
    match max_bytes {
        Some(limit) => {
            if total > limit {
                let mut m = chars_of("attachment exceeds max-bytes ");
                let d = fmt_u64(limit);
                push_all(&mut m, &d);
                Err(Error::Usage(string_of(&m)))
            } else {
                Ok(())
            }
        },
        None => Ok(()),
    }
}

/// The error of a failed request: `HTTP <status>: <message>`, the message
/// being the body's JSON `message` when it has one, else the body.
pub open spec fn spec_api_error(status: u16, message: Option<Seq<char>>, body: Seq<char>) -> Seq<char> {
    "HTTP "@ + dec_nat(status as nat) + ": "@ + match message {
        Some(m) => m,
        None => body,
    }
}

/// The error of a failed request, from its status, the `message` found in
/// its JSON body (if any) and the body text.
pub fn api_error_from(status: u16, message: Option<String>, body: String) -> (e: Error)
    ensures
        e matches Error::Api(m) && m@ == spec_api_error(status, opt_view(message), body@),
{
    let code = string_of(&fmt_u64(status as u64));
    let a = concat_str("HTTP ", code.as_str());
    let b = concat_str(a.as_str(), ": ");
    let m = match message {
        Some(x) => concat_str(b.as_str(), x.as_str()),
        None => concat_str(b.as_str(), body.as_str()),
    };
    Error::Api(m)
}

/// The view of an optional string.
pub open spec fn opt_view(o: Option<String>) -> Option<Seq<char>> {
    match o {
        Some(s) => Some(s@),
        None => None,
    }
}

/// The `message` of a failed request's body: the string at `/message` of
/// the JSON document the body parses into; none when it does not parse.
pub open spec fn body_message(body: Seq<char>) -> Option<Seq<char>> {
    if crate::api_call::json_parses(body) {
        crate::json::json_at_str(crate::api_call::json_value_of(body), "/message"@)
    } else {
        None
    }
}

/// The error of a failed request with body `body`: the JSON `message` when
/// the body parses and holds one, else the body itself.
pub fn api_error(status: u16, body: String) -> (e: Error)
    ensures
        e matches Error::Api(m) && m@ == spec_api_error(status, body_message(body@), body@),
{
    let message = match crate::api_call::json_from_str(body.as_str()) {
        Some(v) => crate::json::json_str(&v, "/message"),
        None => None,
    };
    api_error_from(status, message, body)
}

/// The base wait before retry `attempt` (counted from 0): 200 ms, doubled
/// per attempt, capped at 5 s.
pub open spec fn spec_retry_base_ms(attempt: nat) -> nat
    decreases attempt,
{
    if attempt == 0 {
        200
    } else {
        let p = 2 * spec_retry_base_ms((attempt - 1) as nat);
        if p > 5000 {
            5000
        } else {
            p
        }
    }
}

/// Once the wait reaches its cap it stays there.
proof fn lemma_retry_base_capped(a: nat, b: nat)
    requires
        a <= b,
        spec_retry_base_ms(a) == 5000,
    ensures
        spec_retry_base_ms(b) == 5000,
    decreases b - a,
{
    if a < b {
        lemma_retry_base_capped(a, (b - 1) as nat);
    }
}

/// Whether a failed GET is tried again: the error is retriable and fewer
/// than `retries` retries were made (`attempt` counts them from 0).
pub fn should_retry(e: &Error, attempt: u32, retries: u32) -> (r: bool)
    ensures
        r == (spec_is_retriable(*e) && attempt < retries),
{
    is_retriable(e) && attempt < retries
}

/// The base wait, in milliseconds, before retry `attempt` (the caller adds
/// jitter).
pub fn retry_base_ms(attempt: u32) -> (r: u64)
    ensures
        r == spec_retry_base_ms(attempt as nat),
{
    let mut ms: u64 = 200;
    let mut i: u32 = 0;
    while i < attempt && ms < 5000
        invariant
            i <= attempt,
            ms == spec_retry_base_ms(i as nat),
            ms <= 5000,
        decreases attempt - i,
    {
        let p = ms * 2;
        ms = if p > 5000 {
            5000
        } else {
            p
        };
        i = i + 1;
    }
    proof {
        if i < attempt {
            lemma_retry_base_capped(i as nat, attempt as nat);
        }
    }
    ms
}

/// Collecting a paged collection stops after an empty page or once the
/// collected count reaches the reported total (the count itself when no
/// total is reported).
pub fn collect_done(page_len: usize, collected: usize, total: Option<u64>) -> (r: bool)
    ensures
        r == (page_len == 0 || collected >= match total {
            Some(t) => t as int,
            None => collected as int,
        }),
{
    page_len == 0 || match total {
        Some(t) => collected as u64 >= t,
        None => true,
    }
}

/// The host `reqwest::Url::parse(s)` then `host_str` finds in the URL text
/// `s`: `Err` with the parse error's text when it does not parse, `Ok(None)`
/// for a URL without a host.
pub uninterp spec fn url_host_of(s: Seq<char>) -> Result<Option<Seq<char>>, Seq<char>>;

/// `reqwest::Url::parse` then `host_str`; the result is named by
/// [`url_host_of`].
#[verifier::external_body]
fn url_host(s: &str) -> (r: Result<Option<String>, String>)
    ensures
        host_view(r) == url_host_of(s@),
{
    match reqwest::Url::parse(s) {
        Ok(u) => Ok(u.host_str().map(|h| h.to_string())),
        Err(e) => Err(e.to_string()),
    }
}

/// `path` is an absolute `http://` or `https://` URL.
pub open spec fn is_absolute(path: Seq<char>) -> bool {
    has_prefix(path, "http://"@) || has_prefix(path, "https://"@)
}

/// The outcome of checking an absolute request URL.
pub enum UrlOutcome {
    /// Send it.
    Go(Seq<char>),
    /// Refuse it as a usage error with this message.
    Usage(Seq<char>),
    /// Fail with an internal error with this message.
    Internal(Seq<char>),
}

/// `r` is the result the outcome `o` stands for.
pub open spec fn is_outcome(r: Result<String, Error>, o: UrlOutcome) -> bool {
    match o {
        UrlOutcome::Go(u) => r matches Ok(x) && x@ == u,
        UrlOutcome::Usage(m) => r matches Err(Error::Usage(x)) && x@ == m,
        UrlOutcome::Internal(m) => r matches Err(Error::Internal(x)) && x@ == m,
    }
}

/// The view of a host lookup.
pub open spec fn host_view(h: Result<Option<String>, String>) -> Result<Option<Seq<char>>, Seq<char>> {
    match h {
        Ok(o) => Ok(opt_view(o)),
        Err(e) => Err(e@),
    }
}

/// Where an absolute request URL goes, from the hosts the URLs name: it must
/// name the base URL's host (ASCII case ignored), else the token could leak
/// to a foreign host.
pub open spec fn spec_checked_url(
    path: Seq<char>,
    target_host: Result<Option<Seq<char>>, Seq<char>>,
    base_host: Result<Option<Seq<char>>, Seq<char>>,
) -> UrlOutcome {
    match target_host {
        Err(e) => UrlOutcome::Usage("invalid url '"@ + path + "': "@ + e),
        Ok(th) => match base_host {
            Err(e) => UrlOutcome::Internal("invalid base_url: "@ + e),
            Ok(bh) => {
                let same = match (th, bh) {
                    (Some(a), Some(b)) => eq_ascii_ci(a, b),
                    _ => false,
                };
                if same {
                    UrlOutcome::Go(path)
                } else {
                    UrlOutcome::Usage("refusing request to foreign host '"@ + match th {
                        Some(a) => a,
                        None => Seq::<char>::empty(),
                    } + "'"@)
                }
            },
        },
    }
}

/// Check an absolute request URL against the base URL's host.
pub fn checked_url(
    path: &str,
    target_host: Result<Option<String>, String>,
    base_host: Result<Option<String>, String>,
) -> (r: Result<String, Error>)
    ensures
        is_outcome(r, spec_checked_url(path@, host_view(target_host), host_view(base_host))),
{
    match target_host {
        Err(e) => {
            let a = concat_str("invalid url '", path);
            let b = concat_str(a.as_str(), "': ");
            Err(Error::Usage(concat_str(b.as_str(), e.as_str())))
        },
        Ok(th) => match base_host {
            Err(e) => Err(Error::Internal(concat_str("invalid base_url: ", e.as_str()))),
            Ok(bh) => {
                let same = match (&th, &bh) {
                    (Some(a), Some(b)) => eq_ignore_ascii_case(&chars_of(a.as_str()), &chars_of(b.as_str())),
                    _ => false,
                };
                if same {
                    Ok(path.to_string())
                } else {
                    let h = match &th {
                        Some(a) => a.clone(),
                        None => String::new(),
                    };
                    let a = concat_str("refusing request to foreign host '", h.as_str());
                    Err(Error::Usage(concat_str(a.as_str(), "'")))
                }
            },
        },
    }
}

/// Resolve a request URL: a relative path goes under the API root; an
/// absolute `http(s)://` URL is sent as given only when it names the base
/// URL's host.
pub fn resolve_url(base_url: &str, path: &str) -> (r: Result<String, Error>)
    ensures
        !is_absolute(path@) ==> (r matches Ok(u) && u@ == spec_api_url(base_url@, path@)),
        is_absolute(path@) ==> is_outcome(
            r,
            spec_checked_url(path@, url_host_of(path@), url_host_of(base_url@)),
        ),
{
    let pc = chars_of(path);
    if starts_with(&pc, &chars_of("http://")) || starts_with(&pc, &chars_of("https://")) {
        checked_url(path, url_host(path), url_host(base_url))
    } else {
        Ok(api_url(base_url, path))
    }
}

/// The scheme `reqwest::Url::parse(s)` finds in the URL text `s`; `None`
/// when it does not parse.
pub uninterp spec fn url_scheme_of(s: Seq<char>) -> Option<Seq<char>>;

/// `reqwest::Url::parse` then `scheme`; the result is named by
/// [`url_scheme_of`].
#[verifier::external_body]
fn url_scheme(s: &str) -> (r: Option<String>)
    ensures
        opt_view(r) == url_scheme_of(s@),
{
    reqwest::Url::parse(s).ok().map(|u| u.scheme().to_string())
}

/// A host name that stays on this machine: `localhost`, `127.*` or `::1`.
pub open spec fn is_loopback(h: Seq<char>) -> bool {
    h == "localhost"@ || has_prefix(h, "127."@) || h == "::1"@
}

/// The scheme a base URL would send the token in clear text over: a parsed
/// URL whose scheme is not `https` and whose host is not a loopback name.
pub open spec fn spec_plaintext_scheme(base: Seq<char>) -> Option<Seq<char>> {
    match url_scheme_of(base) {
        Some(sc) => {
            let loopback = match url_host_of(base) {
                Ok(Some(h)) => is_loopback(h),
                _ => false,
            };
            if sc != "https"@ && !loopback {
                Some(sc)
            } else {
                None
            }
        },
        None => None,
    }
}

/// The scheme of an OpenProject base URL that would carry the API token
/// unencrypted, for a warning; `None` for `https`, a loopback host, or a URL
/// that does not parse.
pub fn plaintext_scheme(base_url: &str) -> (r: Option<String>)
    ensures
        opt_view(r) == spec_plaintext_scheme(base_url@),
{
    let sc = match url_scheme(base_url) {
        Some(sc) => sc,
        None => {
            return None;
        },
    };
    let loopback = match url_host(base_url) {
        Ok(Some(h)) => {
            let hc = chars_of(h.as_str());
            str_eq(h.as_str(), "localhost") || starts_with(&hc, &chars_of("127.")) || str_eq(h.as_str(), "::1")
        },
        _ => false,
    };
    if !str_eq(sc.as_str(), "https") && !loopback {
        Some(sc)
    } else {
        None
    }
}

} // verus!
