use taskstream_core::output::{render, scalar, to_human, HumanDoc, HumanItem, JsonScalar};

fn json(s: &str) -> serde_json::Value {
    serde_json::from_str(s).unwrap()
}

#[test]
fn array_of_objects_renders_table() {
    let v = json(r#"[{"id": 1, "name": "a"}, {"id": 2, "name": "b"}]"#);
    assert_eq!(to_human(&v), "id\tname\n1\ta\n2\tb");
}

#[test]
fn empty_array_renders_no_results() {
    assert_eq!(to_human(&json("[]")), "(no results)");
}

#[test]
fn object_aligns_by_keys() {
    let v = json(r#"{"id": 1, "longer": "x"}"#);
    assert_eq!(to_human(&v), "id:     1\nlonger: x");
}

#[test]
fn nested_object_field_is_compact_json() {
    let v = json(r#"[{"id": 1, "meta": {"k": "v"}}]"#);
    assert_eq!(to_human(&v), "id\tmeta\n1\t{\"k\":\"v\"}");
}

#[test]
fn null_emits_nothing() {
    // `scalar` of Null is empty.
    assert_eq!(scalar(&JsonScalar::Null), "");
}

#[test]
fn table_columns_are_first_seen_union_and_mixed_arrays_list_cells() {
    let v = json(r#"[{"a": 1}, {"b": true, "a": null}, {"c": "x"}]"#);
    assert_eq!(to_human(&v), "a\tb\tc\n1\t\t\n\ttrue\t\n\t\tx");
    let v = json(r#"[1, "two", {"k": 3}, null]"#);
    assert_eq!(to_human(&v), "1\ntwo\n{\"k\":3}\n");
    assert_eq!(to_human(&json("\"plain\"")), "plain");
    assert_eq!(to_human(&json("false")), "false");
    assert_eq!(to_human(&json("{}")), "");
    let doc = HumanDoc::Array(vec![HumanItem { fields: None, cell: "x".into() }]);
    assert_eq!(render(&doc), "x");
    // The key width counts UTF-8 bytes; the padding counts characters.
    let v = json(r#"{"é": 1, "ab": 2}"#);
    assert_eq!(to_human(&v), "é:  1\nab: 2");
}
