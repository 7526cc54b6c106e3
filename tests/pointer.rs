use s3edit::pointer::json_pointer;

fn strings(v: &[&str]) -> Vec<String> {
    v.iter().map(|s| s.to_string()).collect()
}

#[test]
fn flat_name_with_slash_is_one_segment() {
    assert_eq!(json_pointer("a/b"), strings(&["a/b"]));
}

#[test]
fn pointer_escapes_are_decoded() {
    assert_eq!(json_pointer("/a~1b/c~0d"), strings(&["a/b", "c~d"]));
}

#[test]
fn pointer_splits_on_every_slash() {
    assert_eq!(json_pointer("/a/b"), strings(&["a", "b"]));
    assert_eq!(json_pointer("/a//b/"), strings(&["a", "", "b", ""]));
}

#[test]
fn empty_and_root_references() {
    assert_eq!(json_pointer(""), strings(&[""]));
    assert_eq!(json_pointer("/"), strings(&[""]));
}

#[test]
fn tilde_one_is_decoded_before_tilde_zero() {
    assert_eq!(json_pointer("/~01"), strings(&["~1"]));
    assert_eq!(json_pointer("/~~1"), strings(&["~/"]));
    assert_eq!(json_pointer("~01"), strings(&["~01"]));
}

#[test]
fn non_ascii_segments_are_kept() {
    assert_eq!(json_pointer("/café/ü~1x"), strings(&["café", "ü/x"]));
}
