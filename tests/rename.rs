use s3edit::pointer::json_pointer;
use s3edit::record::rename;
use serde_json::Value;

fn value(text: &str) -> Value {
    serde_json::from_str(text).unwrap()
}

#[test]
fn top_level_field_is_renamed() {
    let (out, changed) = rename(value(r#"{"id":1,"old":"x"}"#), &json_pointer("old"), "new");
    assert!(changed);
    assert_eq!(out, value(r#"{"id":1,"new":"x"}"#));
}

#[test]
fn nested_field_is_renamed_at_the_leaf_only() {
    let rec = value(r#"{"a":{"b":1,"c":2},"d":{"b":3}}"#);
    let (out, changed) = rename(rec, &json_pointer("/a/b"), "z");
    assert!(changed);
    assert_eq!(out, value(r#"{"a":{"z":1,"c":2},"d":{"b":3}}"#));
}

#[test]
fn missing_field_leaves_record_unchanged() {
    let rec = value(r#"{"id":2}"#);
    let (out, changed) = rename(rec.clone(), &json_pointer("old"), "new");
    assert!(!changed);
    assert_eq!(out, rec);
}

#[test]
fn path_through_a_non_object_is_a_miss() {
    let rec = value(r#"{"a":[1,2],"b":"s"}"#);
    let (out, changed) = rename(rec.clone(), &json_pointer("/a/0"), "z");
    assert!(!changed);
    assert_eq!(out, rec);
    let (out, changed) = rename(rec.clone(), &json_pointer("/b/c"), "z");
    assert!(!changed);
    assert_eq!(out, rec);
}

#[test]
fn record_that_is_not_an_object_is_untouched() {
    for text in ["[1,2]", "3", "\"old\"", "null"] {
        let rec = value(text);
        let (out, changed) = rename(rec.clone(), &json_pointer("old"), "new");
        assert!(!changed);
        assert_eq!(out, rec);
    }
}

#[test]
fn renaming_into_the_same_name_keeps_the_value() {
    let rec = value(r#"{"x":{"k":[1]},"y":2}"#);
    let (out, _) = rename(rec.clone(), &json_pointer("x"), "x");
    assert_eq!(out, rec);
}

#[test]
fn renaming_onto_an_existing_key_replaces_its_value() {
    let (out, changed) = rename(value(r#"{"a":1,"b":2}"#), &json_pointer("a"), "b");
    assert!(changed);
    assert_eq!(out, value(r#"{"b":1}"#));
}

#[test]
fn escaped_pointer_segments_address_keys() {
    let rec = value(r#"{"a/b":{"c~d":5}}"#);
    let (out, changed) = rename(rec, &json_pointer("/a~1b/c~0d"), "e");
    assert!(changed);
    assert_eq!(out, value(r#"{"a/b":{"e":5}}"#));
}
