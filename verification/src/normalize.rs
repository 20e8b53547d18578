//! Reading HAL (`_links`) fields of OpenProject payloads: the JSON pointer of
//! a link's member and the numeric id at the tail of a link's `href`.

use vstd::prelude::*;
use crate::json::json_str;
use crate::text::{chars_of, string_of, after_last, after_last_char, spec_parse_i64, parse_i64};

verus! {

/// A name as one JSON-pointer reference token: `~` written `~0`, `/` written
/// `~1` (RFC 6901).
pub open spec fn escape_token(s: Seq<char>) -> Seq<char>
    decreases s.len(),
{
    if s.len() == 0 {
        s
    } else {
        let prev = escape_token(s.drop_last());
        if s.last() == '~' {
            prev + seq!['~', '0']
        } else if s.last() == '/' {
            prev + seq!['~', '1']
        } else {
            prev.push(s.last())
        }
    }
}

/// The pointer of member `field` of the link `name`: `/_links/<name>/<field>`.
pub open spec fn link_pointer_spec(name: Seq<char>, field: Seq<char>) -> Seq<char> {
    "/_links/"@ + escape_token(name) + "/"@ + field
}

/// Escape a name as a JSON-pointer reference token.
pub fn escape_pointer_token(name: &str) -> (r: String)
    ensures
        r@ == escape_token(name@),
{
    let v = chars_of(name);
    let mut out: Vec<char> = Vec::new();
    let mut i: usize = 0;
    while i < v.len()
        invariant
            v@ == name@,
            i <= v@.len(),
            out@ == escape_token(v@.take(i as int)),
        decreases v.len() - i,
    {
        let c = v[i];
        proof {
            assert(v@.take(i + 1).drop_last() =~= v@.take(i as int));
            assert(v@.take(i + 1).last() == c);
        }
        if c == '~' {
            out.push('~');
            out.push('0');
        } else if c == '/' {
            out.push('~');
            out.push('1');
        } else {
            out.push(c);
        }
        proof {
            assert(out@ =~= escape_token(v@.take(i + 1)));
        }
        i = i + 1;
    }
    proof {
        assert(v@.take(v@.len() as int) =~= v@);
    }
    string_of(&out)
}

/// The pointer of member `field` of the link `name`.
pub fn link_pointer(name: &str, field: &str) -> (r: String)
    ensures
        r@ == link_pointer_spec(name@, field@),
{
    let t = escape_pointer_token(name);
    let mut v = chars_of("/_links/");
    let tv = chars_of(t.as_str());
    let mut i: usize = 0;
    while i < tv.len()
        invariant
            v@ == "/_links/"@ + tv@.take(i as int),
            i <= tv@.len(),
        decreases tv.len() - i,
    {
        v.push(tv[i]);
        proof {
            assert(tv@.take(i + 1) =~= tv@.take(i as int).push(tv@[i as int]));
        }
        i = i + 1;
    }
    v.push('/');
    let fv = chars_of(field);
    let mut j: usize = 0;
    let ghost base = v@;
    while j < fv.len()
        invariant
            v@ == base + fv@.take(j as int),
            j <= fv@.len(),
        decreases fv.len() - j,
    {
        v.push(fv[j]);
        proof {
            assert(fv@.take(j + 1) =~= fv@.take(j as int).push(fv@[j as int]));
        }
        j = j + 1;
    }
    proof {
        assert(tv@.take(tv@.len() as int) =~= tv@);
        assert(fv@.take(fv@.len() as int) =~= fv@);
        reveal_strlit("/");
        assert("/"@ =~= seq!['/']);
        assert(v@ =~= link_pointer_spec(name@, field@));
    }
    string_of(&v)
}

/// The id a link `href` ends in: the segment after its last `/`, read as a
/// decimal `i64`; `None` when that segment is not a number (an identifier).
pub open spec fn spec_href_id(href: Seq<char>) -> Option<i64> {
    spec_parse_i64(after_last(href, '/'))
}

/// The numeric id at the tail of a link `href`.
pub fn href_id(href: &str) -> (r: Option<i64>)
    ensures
        r == spec_href_id(href@),
{
    let tail = string_of(&after_last_char(&chars_of(href), '/'));
    parse_i64(tail.as_str())
}

/// The numeric id of the link `name` of a payload, from its `href`; `None`
/// when the link or its `href` is missing or the tail is not a number.
pub fn link_id(p: &serde_json::Value, name: &str) -> (r: Option<i64>)
    ensures
        r == match crate::json::json_at_str(*p, link_pointer_spec(name@, "href"@)) {
            Some(h) => spec_href_id(h),
            None => None,
        },
{
    let ptr = link_pointer(name, "href");
    match json_str(p, ptr.as_str()) {
        Some(h) => href_id(h.as_str()),
        None => None,
    }
}

/// Where a flattened field's value is read from, given the name of a member
/// or a link of the payload.
#[derive(Debug, Clone, Copy, PartialEq, Eq, Structural)]
pub enum Source {
    /// The member itself (`null` when absent).
    Member,
    /// The `title` of the link.
    LinkTitle,
    /// The numeric id at the tail of the link's `href`.
    LinkId,
    /// The link's `href`.
    LinkHref,
    /// A formattable member's `raw` text, the member itself when it has none.
    Raw,
    /// The `raw` texts of the object items of an array member; `null` when
    /// there are none.
    Details,
    /// An ISO 8601 duration member, read as hours.
    Hours,
    /// A boolean member, `false` when absent.
    Flag,
}

/// The resources whose payloads are flattened.
#[derive(Debug, Clone, Copy, PartialEq, Eq, Structural)]
pub enum Resource {
    /// A work package.
    WorkPackage,
    /// A time entry.
    TimeEntry,
    /// An in-app notification.
    Notification,
    /// An activity (comment or change).
    Comment,
    /// An attachment.
    Attachment,
    /// A relation between work packages.
    Relation,
}

/// One field of a flattened object: its key, where it is read from, and the
/// payload member or link it is read from.
#[derive(Debug, Clone, Copy)]
pub struct Column {
    pub key: &'static str,
    pub source: Source,
    pub from: &'static str,
}

/// The view of a column.
pub open spec fn column_view(c: Column) -> (Seq<char>, Source, Seq<char>) {
    (c.key@, c.source, c.from@)
}

/// The views of a list of columns.
pub open spec fn columns_view(v: Seq<Column>) -> Seq<(Seq<char>, Source, Seq<char>)> {
    v.map_values(|c: Column| column_view(c))
}

/// The fields a resource is flattened into, in output order (the column
/// order of the human output).
pub open spec fn spec_columns(r: Resource) -> Seq<(Seq<char>, Source, Seq<char>)> {
    match r {
        Resource::WorkPackage => seq![
                ("id"@, Source::Member, "id"@),
                ("subject"@, Source::Member, "subject"@),
                ("type"@, Source::LinkTitle, "type"@),
                ("status"@, Source::LinkTitle, "status"@),
                ("priority"@, Source::LinkTitle, "priority"@),
                ("project"@, Source::LinkTitle, "project"@),
                ("projectId"@, Source::LinkId, "project"@),
                ("author"@, Source::LinkTitle, "author"@),
                ("assignee"@, Source::LinkTitle, "assignee"@),
                ("percentageDone"@, Source::Member, "percentageDone"@),
                ("startDate"@, Source::Member, "startDate"@),
                ("dueDate"@, Source::Member, "dueDate"@),
                ("createdAt"@, Source::Member, "createdAt"@),
                ("updatedAt"@, Source::Member, "updatedAt"@),
                ("lockVersion"@, Source::Member, "lockVersion"@),
                ("description"@, Source::Raw, "description"@),
            ],
        Resource::TimeEntry => seq![
                ("id"@, Source::Member, "id"@),
                ("hours"@, Source::Hours, "hours"@),
                ("spentOn"@, Source::Member, "spentOn"@),
                ("comment"@, Source::Raw, "comment"@),
                ("user"@, Source::LinkTitle, "user"@),
                ("userId"@, Source::LinkId, "user"@),
                ("workPackage"@, Source::LinkTitle, "workPackage"@),
                ("workPackageId"@, Source::LinkId, "workPackage"@),
                ("project"@, Source::LinkTitle, "project"@),
                ("activity"@, Source::LinkTitle, "activity"@),
                ("createdAt"@, Source::Member, "createdAt"@),
                ("updatedAt"@, Source::Member, "updatedAt"@),
            ],
        Resource::Notification => seq![
                ("id"@, Source::Member, "id"@),
                ("reason"@, Source::Member, "reason"@),
                ("read"@, Source::Flag, "readIAN"@),
                ("wpId"@, Source::LinkId, "resource"@),
                ("wpTitle"@, Source::LinkTitle, "resource"@),
                ("project"@, Source::LinkTitle, "project"@),
                ("actor"@, Source::LinkTitle, "actor"@),
                ("activityHref"@, Source::LinkHref, "activity"@),
                ("createdAt"@, Source::Member, "createdAt"@),
            ],
        Resource::Comment => seq![
                ("id"@, Source::Member, "id"@),
                ("type"@, Source::Member, "_type"@),
                ("comment"@, Source::Raw, "comment"@),
                ("details"@, Source::Details, "details"@),
                ("user"@, Source::LinkTitle, "user"@),
                ("userId"@, Source::LinkId, "user"@),
                ("createdAt"@, Source::Member, "createdAt"@),
                ("version"@, Source::Member, "version"@),
            ],
        Resource::Attachment => seq![
                ("id"@, Source::Member, "id"@),
                ("fileName"@, Source::Member, "fileName"@),
                ("fileSize"@, Source::Member, "fileSize"@),
                ("contentType"@, Source::Member, "contentType"@),
                ("description"@, Source::Raw, "description"@),
                ("author"@, Source::LinkTitle, "author"@),
                ("createdAt"@, Source::Member, "createdAt"@),
                ("downloadUrl"@, Source::LinkHref, "downloadLocation"@),
            ],
        Resource::Relation => seq![
                ("id"@, Source::Member, "id"@),
                ("type"@, Source::Member, "type"@),
                ("reverseType"@, Source::Member, "reverseType"@),
                ("description"@, Source::Member, "description"@),
                ("from"@, Source::LinkId, "from"@),
                ("to"@, Source::LinkId, "to"@),
                ("lockVersion"@, Source::Member, "lockVersion"@),
            ],
    }
}

/// The output keys whose value is read from a payload member or link of
/// another name: ids and titles read from a link, the read flag, the
/// activity type and the download location.
pub open spec fn renamed_from(key: Seq<char>, from: Seq<char>) -> bool {
    ||| (key == "projectId"@ && from == "project"@)
    ||| (key == "userId"@ && from == "user"@)
    ||| (key == "workPackageId"@ && from == "workPackage"@)
    ||| (key == "wpId"@ && from == "resource"@)
    ||| (key == "wpTitle"@ && from == "resource"@)
    ||| (key == "activityHref"@ && from == "activity"@)
    ||| (key == "read"@ && from == "readIAN"@)
    ||| (key == "type"@ && from == "_type"@)
    ||| (key == "downloadUrl"@ && from == "downloadLocation"@)
}

/// Every flattened field is read from the payload member or link of its own
/// name, but for the few [`renamed_from`] ones: the assignee column is the
/// `assignee` link's, the author column the `author` link's, and so on.
pub proof fn law_columns_read_their_own_name(r: Resource, i: int)
    requires
        0 <= i < spec_columns(r).len(),
    ensures
        spec_columns(r)[i].2 == spec_columns(r)[i].0 || renamed_from(spec_columns(r)[i].0, spec_columns(r)[i].2),
{
}

fn col(key: &'static str, source: Source, from: &'static str) -> (c: Column)
    ensures
        c.key@ == key@ && c.source == source && c.from@ == from@,
{
    Column { key, source, from }
}

/// The fields a resource is flattened into, in output order.
pub fn columns(r: Resource) -> (c: Vec<Column>)
    ensures
        columns_view(c@) == spec_columns(r),
{
    let c = match r {
        Resource::WorkPackage => vec![
            col("id", Source::Member, "id"),
            col("subject", Source::Member, "subject"),
            col("type", Source::LinkTitle, "type"),
            col("status", Source::LinkTitle, "status"),
            col("priority", Source::LinkTitle, "priority"),
            col("project", Source::LinkTitle, "project"),
            col("projectId", Source::LinkId, "project"),
            col("author", Source::LinkTitle, "author"),
            col("assignee", Source::LinkTitle, "assignee"),
            col("percentageDone", Source::Member, "percentageDone"),
            col("startDate", Source::Member, "startDate"),
            col("dueDate", Source::Member, "dueDate"),
            col("createdAt", Source::Member, "createdAt"),
            col("updatedAt", Source::Member, "updatedAt"),
            col("lockVersion", Source::Member, "lockVersion"),
            col("description", Source::Raw, "description"),
        ],
        Resource::TimeEntry => vec![
            col("id", Source::Member, "id"),
            col("hours", Source::Hours, "hours"),
            col("spentOn", Source::Member, "spentOn"),
            col("comment", Source::Raw, "comment"),
            col("user", Source::LinkTitle, "user"),
            col("userId", Source::LinkId, "user"),
            col("workPackage", Source::LinkTitle, "workPackage"),
            col("workPackageId", Source::LinkId, "workPackage"),
            col("project", Source::LinkTitle, "project"),
            col("activity", Source::LinkTitle, "activity"),
            col("createdAt", Source::Member, "createdAt"),
            col("updatedAt", Source::Member, "updatedAt"),
        ],
        Resource::Notification => vec![
            col("id", Source::Member, "id"),
            col("reason", Source::Member, "reason"),
            col("read", Source::Flag, "readIAN"),
            col("wpId", Source::LinkId, "resource"),
            col("wpTitle", Source::LinkTitle, "resource"),
            col("project", Source::LinkTitle, "project"),
            col("actor", Source::LinkTitle, "actor"),
            col("activityHref", Source::LinkHref, "activity"),
            col("createdAt", Source::Member, "createdAt"),
        ],
        Resource::Comment => vec![
            col("id", Source::Member, "id"),
            col("type", Source::Member, "_type"),
            col("comment", Source::Raw, "comment"),
            col("details", Source::Details, "details"),
            col("user", Source::LinkTitle, "user"),
            col("userId", Source::LinkId, "user"),
            col("createdAt", Source::Member, "createdAt"),
            col("version", Source::Member, "version"),
        ],
        Resource::Attachment => vec![
            col("id", Source::Member, "id"),
            col("fileName", Source::Member, "fileName"),
            col("fileSize", Source::Member, "fileSize"),
            col("contentType", Source::Member, "contentType"),
            col("description", Source::Raw, "description"),
            col("author", Source::LinkTitle, "author"),
            col("createdAt", Source::Member, "createdAt"),
            col("downloadUrl", Source::LinkHref, "downloadLocation"),
        ],
        Resource::Relation => vec![
            col("id", Source::Member, "id"),
            col("type", Source::Member, "type"),
            col("reverseType", Source::Member, "reverseType"),
            col("description", Source::Member, "description"),
            col("from", Source::LinkId, "from"),
            col("to", Source::LinkId, "to"),
            col("lockVersion", Source::Member, "lockVersion"),
        ],
    };
    proof {
        assert(columns_view(c@) =~= spec_columns(r));
    }
    c
}

} // verus!
