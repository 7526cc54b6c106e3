use s3edit::location::{parse_s3_url, s3_location, UrlError};

#[test]
fn s3_url_gives_bucket_and_prefix() {
    match parse_s3_url("s3://my-bucket/some/prefix/") {
        Ok(loc) => {
            assert_eq!(loc.bucket, "my-bucket");
            assert_eq!(loc.prefix, "some/prefix/");
        }
        _ => panic!("expected a location"),
    }
}

#[test]
fn s3_url_without_path_has_empty_prefix() {
    match parse_s3_url("s3://bucket") {
        Ok(loc) => {
            assert_eq!(loc.bucket, "bucket");
            assert_eq!(loc.prefix, "");
        }
        _ => panic!("expected a location"),
    }
}

#[test]
fn other_scheme_is_refused() {
    assert!(matches!(parse_s3_url("https://bucket/x"), Err(UrlError::UnsupportedScheme)));
}

#[test]
fn text_that_is_no_url_is_refused() {
    assert!(matches!(parse_s3_url("not a url"), Err(UrlError::Invalid(_))));
}

#[test]
fn all_leading_slashes_are_trimmed() {
    match s3_location("s3", Some("b"), "///x//y") {
        Ok(loc) => {
            assert_eq!(loc.bucket, "b");
            assert_eq!(loc.prefix, "x//y");
        }
        _ => panic!("expected a location"),
    }
}

#[test]
fn url_without_host_has_no_bucket() {
    assert!(matches!(s3_location("s3", None, "/x"), Err(UrlError::MissingBucket)));
    assert!(matches!(parse_s3_url("s3:/x"), Err(UrlError::MissingBucket)));
}
