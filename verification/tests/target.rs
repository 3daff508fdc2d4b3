use s3_endpoint::s3::target::{
    has_virtual_hosted_bucket, resolve_bucket_name, resolve_s3_target, TargetError,
};

#[test]
fn resolves_path_style_target() {
    let target =
        resolve_s3_target("/bucket/a//b.txt", Some("localhost:9000"), None).expect("target");

    assert_eq!(target.bucket.as_str(), "bucket");
    assert_eq!(target.key.as_str(), "a//b.txt");
    assert!(!target.virtual_hosted);
}

#[test]
fn resolves_virtual_hosted_target() {
    let target = resolve_s3_target("/a//b.txt", Some("bucket.s3.local:9000"), Some("s3.local"))
        .expect("target");

    assert_eq!(target.bucket.as_str(), "bucket");
    assert_eq!(target.key.as_str(), "a//b.txt");
    assert!(target.virtual_hosted);
}

#[test]
fn resolves_virtual_hosted_target_case_insensitively() {
    let target = resolve_s3_target("/key.txt", Some("bucket.S3.Local:9000"), Some("s3.local"))
        .expect("target");

    assert_eq!(target.bucket.as_str(), "bucket");
    assert_eq!(target.key.as_str(), "key.txt");
    assert!(target.virtual_hosted);
}

#[test]
fn detects_virtual_hosted_bucket_case_insensitively() {
    assert!(has_virtual_hosted_bucket(
        "bucket.S3.Local:9000",
        "s3.local"
    ));
    assert!(!has_virtual_hosted_bucket("s3.local:9000", "s3.local"));
}

#[test]
fn resolves_path_style_bucket() {
    let bucket = resolve_bucket_name("/bucket", Some("localhost:9000"), None).expect("bucket");

    assert_eq!(bucket.as_str(), "bucket");
}

#[test]
fn resolves_virtual_hosted_bucket() {
    let bucket = resolve_bucket_name("/", Some("bucket.s3.local:9000"), Some("s3.local"))
        .expect("bucket");

    assert_eq!(bucket.as_str(), "bucket");
}

#[test]
fn rejects_percent_decoded_separator_in_path_style_bucket() {
    assert!(matches!(
        resolve_s3_target("/bad%2Fbucket/key", Some("localhost:9000"), None),
        Err(TargetError::InvalidDomain(_))
    ));
}

#[test]
fn rejects_percent_decoded_control_character_in_virtual_hosted_bucket() {
    assert!(matches!(
        resolve_s3_target("/key", Some("bad%0Abucket.s3.local"), Some("s3.local")),
        Err(TargetError::InvalidDomain(_))
    ));
}

#[test]
fn addressing_styles_agree() {
    let hosted = resolve_s3_target(
        "/folder/a%20b.txt",
        Some("test-bucket.s3.test:9000"),
        Some("s3.test:443"),
    )
    .expect("virtual-hosted target");
    let path = resolve_s3_target(
        "/test-bucket/folder/a%20b.txt",
        Some("s3.test:9000"),
        Some("s3.test:443"),
    )
    .expect("path-style target");

    assert_eq!(hosted.bucket, path.bucket);
    assert_eq!(hosted.key, path.key);
    assert_eq!(hosted.key.as_str(), "folder/a b.txt");
    assert!(hosted.virtual_hosted);
    assert!(!path.virtual_hosted);
}

#[test]
fn rejects_malformed_percent_encoding_of_buckets() {
    for path in ["/bad%zz", "/bad%zz/", "/bad%4", "/%", "/%%41"] {
        assert!(matches!(
            resolve_bucket_name(path, None, None),
            Err(TargetError::InvalidPercentEncoding)
        ));
    }
    assert!(matches!(
        resolve_bucket_name("/", Some("bad%zz.s3.local"), Some("s3.local")),
        Err(TargetError::InvalidPercentEncoding)
    ));
    assert_eq!(
        resolve_bucket_name("/%62ucket", None, None).expect("bucket").as_str(),
        "bucket"
    );
}
