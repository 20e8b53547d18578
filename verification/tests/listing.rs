use serde_json::Value;
use taskstream_core::work_packages::{arrange_listing, ids_of};

fn parse(text: &str) -> Vec<Value> {
    serde_json::from_str(text).unwrap()
}

#[test]
fn merged_listing_is_newest_first_stable_and_cut() {
    let items = parse(
        r#"[{"id": 1, "updatedAt": "2026-01-02"},
            {"id": 2, "updatedAt": "2026-03-01"},
            {"id": 3},
            {"id": 4, "updatedAt": "2026-01-02"}]"#,
    );
    let all = arrange_listing(&items, None);
    let ids: Vec<i64> = ids_of(&all);
    assert_eq!(ids, vec![2, 1, 4, 3]);
    let cut = arrange_listing(&items, Some(2));
    assert_eq!(ids_of(&cut), vec![2, 1]);
    assert_eq!(arrange_listing(&items, Some(-1)).len(), 4);
    assert_eq!(arrange_listing(&items, Some(9)).len(), 4);
}

#[test]
fn ids_skip_items_without_a_numeric_id() {
    let items = parse(r#"[{"id": 7}, {"id": "x"}, {"name": "n"}, {"id": 9}]"#);
    assert_eq!(ids_of(&items), vec![7, 9]);
}
