use git_remote_s3::error::Error;
use git_remote_s3::locator::{parse_remote_url, BucketStyle};

#[test]
fn git_s3_test_parse_remote_url() {
    assert_eq!(
        parse_remote_url("s3://profile@region/bucket".to_string()).unwrap(),
        (
            Some("profile".to_string()),
            "region".to_string(),
            "bucket".to_string(),
            BucketStyle::Path
        )
    )
}

#[test]
fn git_s3_test_no_profile_parse_remote_url() {
    assert_eq!(
        parse_remote_url("s3://region/bucket".to_string()).unwrap(),
        (None, "region".to_string(), "bucket".to_string(), BucketStyle::Path)
    )
}

#[test]
#[should_panic]
fn git_s3_test_no_prefix_parse_remote_url() {
    let _ = parse_remote_url("region/bucket".to_string()).unwrap();
}

#[test]
fn git_s3_test_path_with_port_no_profile_parse_remote_url() {
    assert_eq!(
        parse_remote_url("s3://localhost:9000/bucket12345".to_string()).unwrap(),
        (
            None,
            "localhost:9000".to_string(),
            "bucket12345".to_string(),
            BucketStyle::Path
        )
    )
}

#[test]
fn git_s3_test_url_subdomain_no_profile_parse_remote_url() {
    assert_eq!(
        parse_remote_url("s3://example.com/long/url:bucket12345".to_string()).unwrap(),
        (
            None,
            "example.com/long/url".to_string(),
            "bucket12345".to_string(),
            BucketStyle::Subdomain
        )
    )
}

#[test]
fn git_s3_test_url_port_subdomain_parse_remote_url() {
    assert_eq!(
        parse_remote_url("s3://example.com:60000:bucket12345".to_string()).unwrap(),
        (
            None,
            "example.com:60000".to_string(),
            "bucket12345".to_string(),
            BucketStyle::Subdomain
        )
    )
}

#[test]
fn util_test_parse_remote_url() {
    assert_eq!(
        parse_remote_url("s3://profile@region/bucket".to_string()).unwrap(),
        (
            Some("profile".to_string()),
            "region".to_string(),
            "bucket".to_string(),
            BucketStyle::Path
        )
    )
}

#[test]
fn util_test_no_profile_parse_remote_url() {
    assert_eq!(
        parse_remote_url("s3://region/bucket".to_string()).unwrap(),
        (None, "region".to_string(), "bucket".to_string(), BucketStyle::Path)
    )
}

#[test]
#[should_panic]
fn util_test_no_prefix_parse_remote_url() {
    let _ = parse_remote_url("region/bucket".to_string()).unwrap();
}

#[test]
fn util_test_path_with_port_no_profile_parse_remote_url() {
    assert_eq!(
        parse_remote_url("s3://localhost:9000/bucket12345".to_string()).unwrap(),
        (
            None,
            "localhost:9000".to_string(),
            "bucket12345".to_string(),
            BucketStyle::Path
        )
    )
}

#[test]
fn util_test_url_subdomain_no_profile_parse_remote_url() {
    assert_eq!(
        parse_remote_url("s3://example.com/long/url:bucket12345".to_string()).unwrap(),
        (
            None,
            "example.com/long/url".to_string(),
            "bucket12345".to_string(),
            BucketStyle::Subdomain
        )
    )
}

#[test]
fn util_test_url_port_subdomain_parse_remote_url() {
    assert_eq!(
        parse_remote_url("s3://example.com:60000:bucket12345".to_string()).unwrap(),
        (
            None,
            "example.com:60000".to_string(),
            "bucket12345".to_string(),
            BucketStyle::Subdomain
        )
    )
}

#[test]
fn locator_without_scheme_is_malformed() {
    assert_eq!(
        parse_remote_url("region/bucket".to_string()),
        Err(Error::MalformedLocator)
    );
    assert_eq!(parse_remote_url("s3:/".to_string()), Err(Error::MalformedLocator));
    assert_eq!(parse_remote_url("".to_string()), Err(Error::MalformedLocator));
}

#[test]
fn locator_without_separator_is_ambiguous() {
    assert_eq!(
        parse_remote_url("s3://bucket".to_string()),
        Err(Error::AmbiguousLocator)
    );
    assert_eq!(parse_remote_url("s3://".to_string()), Err(Error::AmbiguousLocator));
    assert_eq!(
        parse_remote_url("s3://region/buck@et".to_string()),
        Err(Error::AmbiguousLocator)
    );
}

#[test]
fn locator_only_first_at_sign_counts() {
    assert_eq!(
        parse_remote_url("s3://me@user@host:9000/b".to_string()).unwrap(),
        (
            Some("me".to_string()),
            "user@host:9000".to_string(),
            "b".to_string(),
            BucketStyle::Path
        )
    );
}

#[test]
fn locator_empty_parts_are_kept() {
    assert_eq!(
        parse_remote_url("s3://@:".to_string()).unwrap(),
        (Some("".to_string()), "".to_string(), "".to_string(), BucketStyle::Subdomain)
    );
    assert_eq!(
        parse_remote_url("s3://répertoire/seau".to_string()).unwrap(),
        (None, "répertoire".to_string(), "seau".to_string(), BucketStyle::Path)
    );
}
