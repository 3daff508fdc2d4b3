use s3_endpoint::s3::types::{
    BucketName, ContentLength, DomainError, ETag, ObjectKey, PartNumber, PayloadHashMode, RequestId,
    UploadId,
};

#[test]
fn bucket_name_rejects_path_separators_and_control_characters() {
    assert!(BucketName::parse("test-bucket").is_ok());
    assert!(matches!(
        BucketName::parse("bad/bucket"),
        Err(DomainError::InvalidBucketName)
    ));
    assert!(matches!(
        BucketName::parse("bad\\bucket"),
        Err(DomainError::InvalidBucketName)
    ));
    assert!(matches!(
        BucketName::parse("bad\nbucket"),
        Err(DomainError::InvalidBucketName)
    ));
}

#[test]
fn object_key_preserves_slashes_but_rejects_control_characters() {
    assert_eq!(
        ObjectKey::parse("a//b.txt").expect("key").as_str(),
        "a//b.txt"
    );
    assert!(matches!(
        ObjectKey::parse("bad\nkey"),
        Err(DomainError::InvalidObjectKey)
    ));
}

#[test]
fn request_id_rejects_empty_and_control_characters() {
    assert!(RequestId::parse("request-123").is_ok());
    assert!(matches!(
        RequestId::parse(""),
        Err(DomainError::InvalidRequestId)
    ));
    assert!(matches!(
        RequestId::parse("bad\nrequest"),
        Err(DomainError::InvalidRequestId)
    ));
}

#[test]
fn upload_id_accepts_canonical_uuid() {
    let upload_id = UploadId::new();

    assert_eq!(
        UploadId::parse(upload_id.as_str()).expect("upload id"),
        upload_id
    );
}

#[test]
fn upload_id_rejects_non_uuid_or_non_canonical_values() {
    assert!(matches!(
        UploadId::parse("../outside"),
        Err(DomainError::InvalidUploadId)
    ));
    assert!(matches!(
        UploadId::parse("550E8400-E29B-41D4-A716-446655440000"),
        Err(DomainError::InvalidUploadId)
    ));
}

#[test]
fn etag_rejects_empty_and_control_characters() {
    assert_eq!(ETag::parse("\"abc\"").expect("etag").as_str(), "\"abc\"");
    assert!(matches!(ETag::parse(""), Err(DomainError::InvalidETag)));
    assert!(matches!(
        ETag::parse("bad\netag"),
        Err(DomainError::InvalidETag)
    ));
}

#[test]
fn content_length_parses_unsigned_decimal_values() {
    assert_eq!(ContentLength::from_str("0").expect("length").get(), 0);
    assert_eq!(ContentLength::from_str("42").expect("length").get(), 42);
    assert!(matches!(
        ContentLength::from_str("-1"),
        Err(DomainError::InvalidContentLength)
    ));
    assert!(matches!(
        ContentLength::from_str("not-an-int"),
        Err(DomainError::InvalidContentLength)
    ));
}

#[test]
fn payload_hash_mode_parses_supported_values() {
    let digest = "0".repeat(64);
    assert!(matches!(
        PayloadHashMode::parse(None).expect("missing"),
        PayloadHashMode::Missing
    ));
    assert!(matches!(
        PayloadHashMode::parse(Some("UNSIGNED-PAYLOAD")).expect("unsigned"),
        PayloadHashMode::UnsignedPayload
    ));
    assert!(matches!(
        PayloadHashMode::parse(Some(&digest)).expect("fixed"),
        PayloadHashMode::FixedSha256 { .. }
    ));
    assert!(matches!(
        PayloadHashMode::parse(Some("STREAMING-AWS4-HMAC-SHA256-PAYLOAD")).expect("streaming"),
        PayloadHashMode::StreamingSignedPayload
    ));
    assert!(matches!(
        PayloadHashMode::parse(Some("STREAMING-AWS4-HMAC-SHA256-PAYLOAD-TRAILER"))
            .expect("streaming trailer"),
        PayloadHashMode::StreamingSignedPayloadTrailer
    ));
    assert!(matches!(
        PayloadHashMode::parse(Some("STREAMING-UNSIGNED-PAYLOAD-TRAILER"))
            .expect("unsigned trailer"),
        PayloadHashMode::StreamingUnsignedPayloadTrailer
    ));
}

#[test]
fn payload_hash_mode_rejects_unsupported_or_non_lowercase_values() {
    assert!(matches!(
        PayloadHashMode::parse(Some(&"A".repeat(64))),
        Err(DomainError::InvalidPayloadHashMode)
    ));
    assert!(matches!(
        PayloadHashMode::parse(Some("not-supported")),
        Err(DomainError::InvalidPayloadHashMode)
    ));
}

#[test]
fn upload_id_deserialization_uses_same_validation() {
    let value = serde_json::from_str::<String>(r#""../outside""#).expect("json text");

    assert!(UploadId::parse(&value).is_err());
}

#[test]
fn part_numbers_are_ordered_by_value() {
    let number = |value: u16| PartNumber::parse(value).expect("part number");
    assert!(number(2) < number(10));
    assert!(number(10) > number(9));
    assert!(number(10_000) >= number(10_000));
    assert_eq!(number(1).cmp(&number(3)), number(1).partial_cmp(&number(3)).expect("order"));
    let mut numbers = vec![number(30), number(4), number(100)];
    numbers.sort();
    assert_eq!(numbers, vec![number(4), number(30), number(100)]);
}
