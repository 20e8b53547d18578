//! Rules of the command-line front end: which commands a backend serves, how
//! `key=value` request fields split, and which API token a command uses.

use vstd::prelude::*;
use crate::config::{BackendKind, ServerProfile, opt_view};
use crate::github::GhStatus;
use crate::error::Error;
use crate::text::{chars_of, string_of, slice_vec, concat_str};

verus! {

/// The message refusing a command on the GitHub backend.
pub open spec fn github_unsupported_message(what: Seq<char>) -> Seq<char> {
    what + " is not supported by the github backend (read-only: 'wp list', 'notification list')"@
}

/// Reject a command (named `what` in the error) that only the OpenProject
/// backend serves.
pub fn require_openproject(profile: &ServerProfile, what: &str) -> (r: Result<(), Error>)
    ensures
        profile.backend == BackendKind::OpenProject ==> r is Ok,
        profile.backend == BackendKind::Github ==> (r matches Err(Error::Usage(m)) && m@
            == github_unsupported_message(what@)),
{
    match profile.backend {
        BackendKind::OpenProject => Ok(()),
        BackendKind::Github => Err(
            Error::Usage(
                concat_str(what, " is not supported by the github backend (read-only: 'wp list', 'notification list')"),
            ),
        ),
    }
}

/// The position of the first `c` in `s`, if any.
pub open spec fn first_index(s: Seq<char>, c: char) -> Option<int>
    decreases s.len(),
{
    if s.len() == 0 {
        None
    } else if s[0] == c {
        Some(0)
    } else {
        match first_index(s.drop_first(), c) {
            Some(i) => Some(i + 1),
            None => None,
        }
    }
}

/// A `key=value` field split at its first `=`, or the usage error for a
/// field without one.
pub open spec fn spec_parse_field(raw: Seq<char>) -> Result<(Seq<char>, Seq<char>), Seq<char>> {
    match first_index(raw, '=') {
        Some(i) => Ok((raw.subrange(0, i), raw.subrange(i + 1, raw.len() as int))),
        None => Err("Invalid field '"@ + raw + "'; expected key=value."@),
    }
}

proof fn lemma_first_index(s: Seq<char>, c: char, k: int)
    requires
        0 <= k <= s.len(),
        forall|j: int| 0 <= j < k ==> s[j] != c,
    ensures
        k < s.len() && s[k] == c ==> first_index(s, c) == Some(k),
        k == s.len() ==> first_index(s, c) is None,
    decreases k,
{
    if k > 0 {
        lemma_first_index(s.drop_first(), c, k - 1);
    } else if s.len() > 0 {
    }
}

/// Split a `key=value` field on the first `=`.
pub fn parse_field(raw: &str) -> (r: Result<(String, String), Error>)
    ensures
        match spec_parse_field(raw@) {
            Ok((k, v)) => r matches Ok((a, b)) && a@ == k && b@ == v,
            Err(m) => r matches Err(Error::Usage(e)) && e@ == m,
        },
{
    let v = chars_of(raw);
    let mut k: usize = 0;
    while k < v.len() && v[k] != '='
        invariant
            v@ == raw@,
            k <= v@.len(),
            forall|j: int| 0 <= j < k ==> v@[j] != '=',
        decreases v.len() - k,
    {
        k = k + 1;
    }
    proof {
        lemma_first_index(raw@, '=', k as int);
    }
    if k == v.len() {
        let a = concat_str("Invalid field '", raw);
        return Err(Error::Usage(concat_str(a.as_str(), "'; expected key=value.")));
    }
    Ok((string_of(&slice_vec(&v, 0, k)), string_of(&slice_vec(&v, k + 1, v.len()))))
}

/// The view of a list of fields.
pub open spec fn fields_view(v: Seq<(String, String)>) -> Seq<(Seq<char>, Seq<char>)> {
    v.map_values(|f: (String, String)| (f.0@, f.1@))
}

/// Split every field; the first field without `=` is the error.
pub fn parse_fields(raw: &Vec<String>) -> (r: Result<Vec<(String, String)>, Error>)
    ensures
        match r {
            Ok(v) => v@.len() == raw@.len() && forall|i: int| 0 <= i < raw@.len() ==> spec_parse_field(
                #[trigger] raw@[i]@,
            ) == Ok::<(Seq<char>, Seq<char>), Seq<char>>(fields_view(v@)[i]),
            Err(e) => exists|i: int| 0 <= i < raw@.len() && (forall|j: int| 0 <= j < i ==> #[trigger] spec_parse_field(
                raw@[j]@,
            ) is Ok) && (spec_parse_field(#[trigger] raw@[i]@) matches Err(m) && (e matches Error::Usage(em) && em@ == m)),
        },
{
    let mut out: Vec<(String, String)> = Vec::new();
    let mut i: usize = 0;
    while i < raw.len()
        invariant
            i <= raw@.len(),
            out@.len() == i,
            forall|j: int| 0 <= j < i ==> spec_parse_field(#[trigger] raw@[j]@) == Ok::<
                (Seq<char>, Seq<char>),
                Seq<char>,
            >(fields_view(out@)[j]),
        decreases raw.len() - i,
    {
        match parse_field(raw[i].as_str()) {
            Ok(f) => {
                let ghost before = out@;
                out.push(f);
                proof {
                    assert forall|j: int| 0 <= j < i + 1 implies spec_parse_field(#[trigger] raw@[j]@) == Ok::<
                        (Seq<char>, Seq<char>),
                        Seq<char>,
                    >(fields_view(out@)[j]) by {
                        if j < i {
                            assert(out@[j] == before[j]);
                        }
                    }
                }
            },
            Err(e) => {
                proof {
                    assert forall|j: int| 0 <= j < i implies #[trigger] spec_parse_field(raw@[j]@) is Ok by {
                        assert(spec_parse_field(raw@[j]@) == Ok::<(Seq<char>, Seq<char>), Seq<char>>(
                            fields_view(out@)[j],
                        ));
                    }
                    assert(spec_parse_field(raw@[i as int]@) matches Err(mm) && (e matches Error::Usage(em)
                        && em@ == mm));
                }
                return Err(e);
            },
        }
        i = i + 1;
    }
    Ok(out)
}

/// The message when no token is available for a server.
pub open spec fn no_token_message(name: Seq<char>) -> Seq<char> {
    "no token for '"@ + name + "'"@
}

/// The token a command uses: the one given (flag or environment), else the
/// stored one; with neither it is an authentication error.
pub fn pick_token(given: Option<String>, stored: Option<String>, name: &str) -> (r: Result<String, Error>)
    ensures
        match (given, stored) {
            (Some(t), _) => r matches Ok(x) && x@ == t@,
            (None, Some(t)) => r matches Ok(x) && x@ == t@,
            (None, None) => r matches Err(Error::Auth(m)) && m@ == no_token_message(name@),
        },
{
    match given {
        Some(t) => Ok(t),
        None => match stored {
            Some(t) => Ok(t),
            None => {
                let a = concat_str("no token for '", name);
                Err(Error::Auth(concat_str(a.as_str(), "'")))
            },
        },
    }
}

/// The message when `gh` is not installed.
pub open spec fn gh_missing_message() -> Seq<char> {
    "the github backend needs the GitHub CLI (gh), which is not installed. Install it: https://github.com/cli/cli#installation"@
}

/// The message when `gh` is not signed in.
pub open spec fn gh_signed_out_message() -> Seq<char> {
    "the github backend needs the GitHub CLI signed in. Run 'gh auth login', then retry."@
}

/// Whether a command on this profile can go on, given the `gh` probe (taken
/// by the caller for GitHub profiles only): an OpenProject profile always can;
/// a GitHub one needs `gh` installed and signed in.
pub fn gh_ready(profile: &ServerProfile, status: GhStatus) -> (r: Result<(), Error>)
    ensures
        profile.backend == BackendKind::OpenProject ==> r is Ok,
        profile.backend == BackendKind::Github ==> match status {
            GhStatus::Ready => r is Ok,
            GhStatus::Missing => r matches Err(Error::Usage(m)) && m@ == gh_missing_message(),
            GhStatus::Unauthenticated => r matches Err(Error::Usage(m)) && m@ == gh_signed_out_message(),
        },
{
    match profile.backend {
        BackendKind::OpenProject => Ok(()),
        BackendKind::Github => match status {
            GhStatus::Ready => Ok(()),
            GhStatus::Missing => Err(
                Error::Usage(
                    "the github backend needs the GitHub CLI (gh), which is not installed. Install it: https://github.com/cli/cli#installation".to_string(),
                ),
            ),
            GhStatus::Unauthenticated => Err(
                Error::Usage(
                    "the github backend needs the GitHub CLI signed in. Run 'gh auth login', then retry.".to_string(),
                ),
            ),
        },
    }
}

} // verus!
