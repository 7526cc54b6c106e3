use s3edit::pointer::json_pointer;
use s3edit::rewrite::{encode_records, rename_records, rewrite, RenameParams, RewriteError, RewriteOutcome};
use serde_json::Value;

fn params(source: &str, target: &str, dryrun: bool) -> RenameParams {
    RenameParams { source: source.to_string(), target: target.to_string(), concurrency: 5, dryrun }
}

fn decode_all(bytes: &[u8]) -> Vec<Value> {
    serde_json::Deserializer::from_slice(bytes).into_iter::<Value>().map(|v| v.unwrap()).collect()
}

const INPUT: &str = "{\"id\":1,\"old\":\"x\"}\n{\"id\":2}\n";

#[test]
fn matching_record_is_rewritten_and_written() {
    match rewrite(INPUT.as_bytes(), &params("old", "new", false)) {
        Ok(RewriteOutcome::Written(b)) => {
            assert_eq!(String::from_utf8(b).unwrap(), "{\"id\":1,\"new\":\"x\"}\n{\"id\":2}\n");
        }
        _ => panic!("expected a write"),
    }
}

#[test]
fn dry_run_previews_and_writes_nothing() {
    match rewrite(INPUT.as_bytes(), &params("old", "new", true)) {
        Ok(RewriteOutcome::Previewed(b)) => {
            let text = String::from_utf8(b).unwrap();
            assert_eq!(text, "{\"id\":1,\"new\":\"x\"}\n{\"id\":2}\n");
            assert!(text.contains("\"new\":\"x\""));
        }
        _ => panic!("expected a preview"),
    }
}

#[test]
fn object_without_the_field_is_skipped() {
    let input = "{\"id\":1}\n{\"id\":2,\"other\":{\"old\":1}}\n";
    assert!(matches!(rewrite(input.as_bytes(), &params("old", "new", false)), Ok(RewriteOutcome::Skipped)));
    assert!(matches!(rewrite(input.as_bytes(), &params("old", "new", true)), Ok(RewriteOutcome::Skipped)));
}

#[test]
fn empty_object_is_skipped() {
    assert!(matches!(rewrite(b"", &params("old", "new", false)), Ok(RewriteOutcome::Skipped)));
    assert!(matches!(rewrite(b"  \n\n", &params("old", "new", false)), Ok(RewriteOutcome::Skipped)));
}

#[test]
fn malformed_record_fails_the_object() {
    let input = "{\"old\":1}\n{\"old\":\n";
    assert!(matches!(rewrite(input.as_bytes(), &params("old", "new", false)), Err(RewriteError::Malformed(_))));
    assert!(matches!(rewrite(b"{\"a\":1} nope", &params("a", "b", false)), Err(RewriteError::Malformed(_))));
}

#[test]
fn concatenated_records_are_split_and_put_on_lines() {
    let input = "{\"old\":1}{\"old\":2}   {\"k\":3}";
    match rewrite(input.as_bytes(), &params("old", "new", false)) {
        Ok(RewriteOutcome::Written(b)) => {
            assert_eq!(String::from_utf8(b).unwrap(), "{\"new\":1}\n{\"new\":2}\n{\"k\":3}\n");
        }
        _ => panic!("expected a write"),
    }
}

#[test]
fn nested_path_rewrite() {
    let input = "{\"a\":{\"b\":1,\"c\":2},\"b\":0}\n";
    match rewrite(input.as_bytes(), &params("/a/b", "z", false)) {
        Ok(RewriteOutcome::Written(b)) => {
            assert_eq!(decode_all(&b), decode_all(b"{\"a\":{\"z\":1,\"c\":2},\"b\":0}"));
        }
        _ => panic!("expected a write"),
    }
}

#[test]
fn unmodified_records_round_trip() {
    let input = b"{\"id\":1,\"n\":[1,2,{\"x\":null}]}\n \"text\" 7 [true]\n{\"z\":{\"y\":1.5}}";
    let records = decode_all(input);
    let (out, changed) = rename_records(records.clone(), &json_pointer("missing"), "new");
    assert!(!changed);
    assert_eq!(out, records);
    let bytes = encode_records(&out).unwrap();
    assert_eq!(bytes.iter().filter(|b| **b == b'\n').count(), records.len());
    assert_eq!(decode_all(&bytes), records);
}

#[test]
fn rename_records_keeps_order_and_reports_change() {
    let records = decode_all(b"{\"a\":1} {\"b\":2} {\"a\":3}");
    let (out, changed) = rename_records(records, &json_pointer("a"), "c");
    assert!(changed);
    assert_eq!(out, decode_all(b"{\"c\":1} {\"b\":2} {\"c\":3}"));
}

#[test]
fn encode_records_puts_one_record_per_line() {
    let records = decode_all(b"{\"b\":2,\"a\":1} [1, 2]");
    let bytes = encode_records(&records).unwrap();
    assert_eq!(String::from_utf8(bytes).unwrap(), "{\"a\":1,\"b\":2}\n[1,2]\n");
}
