use s3_endpoint::body::checksum::{ChecksumDigests, ChecksumRequest};
use s3_endpoint::collections::TextMap;
use s3_endpoint::http::HeaderMap;

#[test]
fn checksum_request_rejects_duplicate_declared_trailer_names() {
    let mut headers = HeaderMap::new();
    headers.insert(
        "x-amz-trailer",
        "x-amz-checksum-crc32, X-Amz-Checksum-Crc32",
    );
    let mut trailers = TextMap::new();
    trailers.insert("x-amz-checksum-crc32", "AAAAAA==");

    let error = ChecksumRequest::from_headers_and_trailers(&headers, &trailers)
        .expect_err("duplicate trailer declaration");

    assert!(
        format!("{error:?}")
            .contains("x-amz-trailer declares trailer more than once: x-amz-checksum-crc32")
    );
}

#[test]
fn checksum_request_rejects_duplicate_trailer_headers() {
    let mut headers = HeaderMap::new();
    headers.insert(
        "x-amz-trailer",
        "x-amz-checksum-crc32",
    );
    headers.append(
        "x-amz-trailer",
        "x-amz-checksum-crc32c",
    );
    let mut trailers = TextMap::new();
    trailers.insert("x-amz-checksum-crc32", "AAAAAA==");

    let error = ChecksumRequest::from_headers_and_trailers(&headers, &trailers)
        .expect_err("duplicate x-amz-trailer header");

    assert!(format!("{error:?}").contains("x-amz-trailer must not appear more than once"));
}

#[test]
fn checksum_request_rejects_duplicate_checksum_headers() {
    let mut headers = HeaderMap::new();
    headers.insert(
        "content-md5",
        "AAAAAAAAAAAAAAAAAAAAAA==",
    );
    headers.append(
        "content-md5",
        "AAAAAAAAAAAAAAAAAAAAAA==",
    );

    let error = ChecksumRequest::from_headers(&headers).expect_err("duplicate checksum header");

    assert!(format!("{error:?}").contains("content-md5 must not appear more than once"));
}

#[test]
fn checksum_request_rejects_duplicate_sdk_checksum_algorithm_headers() {
    let mut headers = HeaderMap::new();
    headers.insert(
        "x-amz-sdk-checksum-algorithm",
        "CRC32",
    );
    headers.append(
        "x-amz-sdk-checksum-algorithm",
        "CRC32",
    );
    headers.insert("x-amz-checksum-crc32", "AAAAAA==");

    let error =
        ChecksumRequest::from_headers(&headers).expect_err("duplicate SDK checksum algorithm");

    assert!(
        format!("{error:?}")
            .contains("x-amz-sdk-checksum-algorithm must not appear more than once")
    );
}

#[test]
fn checksum_request_reports_required_digest_states() {
    let mut headers = HeaderMap::new();
    headers.insert(
        "content-md5",
        "AAAAAAAAAAAAAAAAAAAAAA==",
    );
    headers.insert("x-amz-checksum-crc32", "AAAAAA==");
    headers.insert(
        "x-amz-checksum-sha256",
        "AAAAAAAAAAAAAAAAAAAAAAAAAAAAAAAAAAAAAAAAAAA=",
    );
    let request = ChecksumRequest::from_headers(&headers).expect("checksum request");

    assert!(request.requires_md5());
    assert!(request.requires_crc32());
    assert!(!request.requires_crc32c());
    assert!(!request.requires_sha1());
    assert!(request.requires_sha256());
    assert!(!request.requires_sha512());
}

#[test]
fn validated_checksum_values_are_the_computed_ones() {
    let digests = ChecksumDigests {
        md5: vec![0; 16],
        sha1: vec![0; 20],
        sha256: vec![0; 32],
        sha512: vec![0; 64],
        crc32: 0xcbf4_3926,
        crc32c: 0,
    };
    let mut headers = HeaderMap::new();
    headers.insert("x-amz-checksum-crc32", "y/Q5Jg==");
    headers.insert("x-amz-checksum-sha1", "AAAAAAAAAAAAAAAAAAAAAAAAAAA=");
    let request = ChecksumRequest::from_headers(&headers).expect("checksum request");
    assert!(request.validate(&digests).is_ok());
    assert_eq!(
        request.checksum_values(),
        request.checksum_values_for_digests(&digests)
    );
    assert_eq!(
        request.checksum_values().get("x-amz-checksum-crc32"),
        Some("y/Q5Jg==")
    );

    headers.insert("x-amz-checksum-crc32", "y/Q5Jh==");
    let error = ChecksumRequest::from_headers(&headers).expect_err("trailing bits are set");
    assert_eq!(error.status(), 400);
}
