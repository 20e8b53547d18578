use serde_json::Value;
use taskstream_core::duration::iso_parts;
use taskstream_core::hal::{cell_of, custom_field_names, flatten, raw_custom_fields, Cell, CfValue};
use taskstream_core::normalize::{columns, Resource, Source};

fn parse(text: &str) -> Value {
    serde_json::from_str(text).unwrap()
}

/// ISO 8601 hours as a float, the way the command output shows them.
fn hours_of(text: &str) -> Value {
    match iso_parts(text) {
        Some(p) => {
            let num = |o: &Option<String>| o.as_deref().map(|s| s.parse::<f64>().unwrap()).unwrap_or(0.0);
            Value::from(num(&p.days) * 24.0 + num(&p.hours) + num(&p.minutes) / 60.0 + num(&p.seconds) / 3600.0)
        }
        None => Value::Null,
    }
}

fn value_of(c: Cell) -> Value {
    match c {
        Cell::Null => Value::Null,
        Cell::Json(v) => v,
        Cell::Id(n) => Value::from(n),
        Cell::Duration(s) => hours_of(&s),
        Cell::Flag(b) => Value::Bool(b),
        Cell::List(items) => Value::Array(items),
    }
}

fn flat(p: &Value, r: Resource) -> Value {
    let mut m = serde_json::Map::new();
    for (k, c) in flatten(p, r) {
        m.insert(k, value_of(c));
    }
    Value::Object(m)
}

fn keys(v: &Value) -> Vec<String> {
    flatten_keys(v)
}

fn flatten_keys(v: &Value) -> Vec<String> {
    v.as_object().unwrap().keys().cloned().collect()
}

fn ordered_keys(p: &Value, r: Resource) -> Vec<String> {
    flatten(p, r).into_iter().map(|(k, _)| k).collect()
}

fn source_of(r: Resource, key: &str) -> (Source, &'static str) {
    let c = columns(r).into_iter().find(|c| c.key == key).unwrap();
    (c.source, c.from)
}

#[test]
fn text_unwraps_raw_and_passes_string() {
    let p = parse(r#"{"a": {"raw": "x"}, "b": "plain"}"#);
    assert_eq!(value_of(cell_of(&p, Source::Raw, "a")), parse(r#""x""#));
    assert_eq!(value_of(cell_of(&p, Source::Raw, "b")), parse(r#""plain""#));
}

#[test]
fn details_collects_raw_and_rejects_non_array() {
    let p = parse(r#"{"two": [{"raw": "a"}, {"raw": "b"}], "nope": "nope", "none": []}"#);
    assert_eq!(value_of(cell_of(&p, Source::Details, "two")), parse(r#"["a", "b"]"#));
    assert_eq!(value_of(cell_of(&p, Source::Details, "nope")), Value::Null);
    assert_eq!(value_of(cell_of(&p, Source::Details, "none")), Value::Null);
}

#[test]
fn work_package_order_and_values() {
    let p = parse(
        r#"{
            "id": 1,
            "subject": "S",
            "percentageDone": 50,
            "startDate": "2026-01-01",
            "dueDate": "2026-01-02",
            "createdAt": "c",
            "updatedAt": "u",
            "lockVersion": 3,
            "description": { "raw": "D" },
            "_links": {
                "type": { "title": "Task" },
                "status": { "title": "New" },
                "priority": { "title": "Normal" },
                "project": { "href": "/api/v3/projects/7", "title": "P" },
                "author": { "title": "A" },
                "assignee": { "title": "B" }
            }
        }"#,
    );
    let order = ordered_keys(&p, Resource::WorkPackage);
    assert_eq!(
        order,
        vec![
            "id",
            "subject",
            "type",
            "status",
            "priority",
            "project",
            "projectId",
            "author",
            "assignee",
            "percentageDone",
            "startDate",
            "dueDate",
            "createdAt",
            "updatedAt",
            "lockVersion",
            "description"
        ]
    );
    let v = flat(&p, Resource::WorkPackage);
    assert_eq!(v["type"], parse(r#""Task""#));
    assert_eq!(v["projectId"], parse("7"));
    assert_eq!(v["description"], parse(r#""D""#));
}

#[test]
fn time_entry_order_and_hours() {
    let p = parse(
        r#"{
            "id": 2,
            "hours": "PT1H30M",
            "spentOn": "2026-01-01",
            "comment": { "raw": "note" },
            "createdAt": "c",
            "updatedAt": "u",
            "_links": {
                "user": { "href": "/api/v3/users/5", "title": "U" },
                "workPackage": { "href": "/api/v3/work_packages/9", "title": "WP" },
                "project": { "title": "P" },
                "activity": { "title": "Dev" }
            }
        }"#,
    );
    assert_eq!(
        ordered_keys(&p, Resource::TimeEntry),
        vec![
            "id",
            "hours",
            "spentOn",
            "comment",
            "user",
            "userId",
            "workPackage",
            "workPackageId",
            "project",
            "activity",
            "createdAt",
            "updatedAt"
        ]
    );
    let v = flat(&p, Resource::TimeEntry);
    assert_eq!(v["hours"], Value::from(1.5));
    assert_eq!(v["userId"], parse("5"));
    assert_eq!(v["workPackageId"], parse("9"));
}

#[test]
fn notification_order_and_read() {
    let p = parse(
        r#"{
            "id": 3,
            "reason": "mentioned",
            "readIAN": true,
            "createdAt": "c",
            "_links": {
                "resource": { "href": "/api/v3/work_packages/11", "title": "WP11" },
                "project": { "title": "P" },
                "actor": { "title": "Actor" },
                "activity": { "href": "/api/v3/activities/1" }
            }
        }"#,
    );
    assert_eq!(
        ordered_keys(&p, Resource::Notification),
        vec!["id", "reason", "read", "wpId", "wpTitle", "project", "actor", "activityHref", "createdAt"]
    );
    let v = flat(&p, Resource::Notification);
    assert_eq!(v["read"], Value::Bool(true));
    assert_eq!(v["wpId"], parse("11"));
}

#[test]
fn comment_order_and_type() {
    let p = parse(
        r#"{
            "id": 4,
            "_type": "Activity::Comment",
            "comment": { "raw": "hi" },
            "details": [{ "raw": "d1" }],
            "createdAt": "c",
            "version": 2,
            "_links": { "user": { "href": "/api/v3/users/8", "title": "U" } }
        }"#,
    );
    assert_eq!(
        ordered_keys(&p, Resource::Comment),
        vec!["id", "type", "comment", "details", "user", "userId", "createdAt", "version"]
    );
    let v = flat(&p, Resource::Comment);
    assert_eq!(v["type"], parse(r#""Activity::Comment""#));
    assert_eq!(v["details"], parse(r#"["d1"]"#));
}

#[test]
fn attachment_order_and_download_url() {
    let p = parse(
        r#"{
            "id": 5,
            "fileName": "f.pdf",
            "fileSize": 100,
            "contentType": "application/pdf",
            "description": { "raw": "desc" },
            "createdAt": "c",
            "_links": {
                "author": { "title": "A" },
                "downloadLocation": { "href": "https://op/dl/5" }
            }
        }"#,
    );
    assert_eq!(
        ordered_keys(&p, Resource::Attachment),
        vec!["id", "fileName", "fileSize", "contentType", "description", "author", "createdAt", "downloadUrl"]
    );
    let v = flat(&p, Resource::Attachment);
    assert_eq!(v["downloadUrl"], parse(r#""https://op/dl/5""#));
}

#[test]
fn relation_order_and_ids() {
    let p = parse(
        r#"{
            "id": 6,
            "type": "relates",
            "reverseType": "relates",
            "description": "r",
            "lockVersion": 0,
            "_links": {
                "from": { "href": "/api/v3/work_packages/1" },
                "to": { "href": "/api/v3/work_packages/2" }
            }
        }"#,
    );
    assert_eq!(
        ordered_keys(&p, Resource::Relation),
        vec!["id", "type", "reverseType", "description", "from", "to", "lockVersion"]
    );
    let v = flat(&p, Resource::Relation);
    assert_eq!(v["from"], parse("1"));
    assert_eq!(v["to"], parse("2"));
}

#[test]
fn column_sources_follow_the_table() {
    assert_eq!(source_of(Resource::WorkPackage, "projectId"), (Source::LinkId, "project"));
    assert_eq!(source_of(Resource::TimeEntry, "hours"), (Source::Hours, "hours"));
    assert_eq!(source_of(Resource::Notification, "read"), (Source::Flag, "readIAN"));
    assert_eq!(source_of(Resource::Attachment, "downloadUrl"), (Source::LinkHref, "downloadLocation"));
}

#[test]
fn missing_members_flatten_to_null_and_flags_to_false() {
    let p = parse(r#"{"id": 9}"#);
    let v = flat(&p, Resource::Notification);
    assert_eq!(keys(&v).len(), 9);
    assert_eq!(v["id"], parse("9"));
    assert_eq!(v["reason"], Value::Null);
    assert_eq!(v["read"], Value::Bool(false));
    assert_eq!(v["wpId"], Value::Null);
    assert_eq!(v["activityHref"], Value::Null);
    let p = parse(r#"{"hours": 3, "_links": {"user": {"href": "/api/v3/users/me"}}}"#);
    let v = flat(&p, Resource::TimeEntry);
    assert_eq!(v["hours"], Value::Null);
    assert_eq!(v["userId"], Value::Null);
}

#[test]
fn custom_fields_from_members_then_links() {
    let p = parse(
        r#"{
            "customField2": "x",
            "customField1": 4,
            "customField3": "",
            "customField4": null,
            "customField5": [1],
            "customFieldX": "no",
            "subject": "s",
            "_links": {
                "customField7": { "title": "Seven" },
                "customField8": [{ "title": "A" }, { "href": "/x" }, { "title": "B" }],
                "customField9": { "title": null },
                "customField6": "text",
                "status": { "title": "New" }
            }
        }"#,
    );
    let raw = raw_custom_fields(&p);
    let keys: Vec<&str> = raw.iter().map(|(k, _)| k.as_str()).collect();
    assert_eq!(keys, vec!["customField2", "customField1", "customField7", "customField8"]);
    assert!(matches!(&raw[0].1, CfValue::Json(v) if *v == parse(r#""x""#)));
    assert!(matches!(&raw[1].1, CfValue::Json(v) if *v == parse("4")));
    assert!(matches!(&raw[2].1, CfValue::Json(v) if *v == parse(r#""Seven""#)));
    match &raw[3].1 {
        CfValue::Titles(t) => assert_eq!(t, &vec!["A".to_string(), "B".to_string()]),
        other => panic!("unexpected {other:?}"),
    }
    assert!(raw_custom_fields(&parse("[1]")).is_empty());
}

#[test]
fn custom_field_names_come_from_the_schema() {
    let schema = parse(
        r#"{
            "customField1": { "name": "Effort" },
            "customField2": { "name": 3 },
            "subject": { "name": "Subject" },
            "customField3": { "type": "String" }
        }"#,
    );
    let names = custom_field_names(&schema);
    assert_eq!(names.len(), 1);
    assert_eq!(names.get("customField1").map(String::as_str), Some("Effort"));
    assert!(names.get("subject").is_none());
    assert_eq!(custom_field_names(&parse("null")).len(), 0);
}
