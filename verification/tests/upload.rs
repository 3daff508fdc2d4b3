use s3_endpoint::body::chunked_upload::parse_aws_chunk_header;
use s3_endpoint::body::digests::CrcEngines;
use s3_endpoint::body::payload::payload_hash_mode;
use s3_endpoint::body::upload::UploadBodyState;
use s3_endpoint::http::HeaderMap;
use s3_endpoint::s3::types::PayloadHashMode;

#[test]
fn aws_chunk_header_accepts_valid_signature_and_ignored_extensions() {
    let header =
        parse_aws_chunk_header(&format!("a;foo=bar;chunk-signature={}", "0".repeat(64)))
            .expect("chunk header");

    assert_eq!(header.size, 10);
    assert_eq!(header.signature.as_deref(), Some("0".repeat(64).as_str()));
}

#[test]
fn aws_chunk_header_rejects_duplicate_signature_extension() {
    let error = parse_aws_chunk_header(&format!(
        "1;chunk-signature={};chunk-signature={}",
        "0".repeat(64),
        "1".repeat(64)
    ))
    .expect_err("duplicate signature should fail");

    assert!(format!("{error:?}").contains("chunk-signature appears more than once"));
}

#[test]
fn aws_chunk_header_rejects_malformed_signature_extension() {
    let error = parse_aws_chunk_header("1;chunk-signature=ABC")
        .expect_err("malformed signature should fail");

    assert!(format!("{error:?}").contains("lowercase 64-character hex"));
}

#[test]
fn aws_chunk_header_rejects_malformed_extension() {
    let error =
        parse_aws_chunk_header("1;malformed").expect_err("malformed extension should fail");

    assert!(format!("{error:?}").contains("chunk extension is malformed"));
}

#[test]
fn upload_body_state_only_enables_md5_by_default() {
    let headers = HeaderMap::new();

    let engines = CrcEngines::new();
    let state = UploadBodyState::new(&headers, &engines).enabled_digests();

    assert!(!state.sha1);
    assert!(!state.sha256);
    assert!(!state.sha512);
    assert!(!state.crc32);
    assert!(!state.crc32c);
}

#[test]
fn upload_body_state_enables_requested_checksum_headers() {
    let mut headers = HeaderMap::new();
    headers.insert(
        "x-amz-checksum-crc32c",
        "AAAAAA==",
    );
    headers.insert(
        "x-amz-checksum-sha512",
        "AAAAAAAAAAAAAAAAAAAAAAAAAAAAAAAAAAAAAAAAAAAAAAAAAAAAAAAAAAAAAAAAAAAAAAAAAAAAAAAAAAAAAA==",
    );

    let engines = CrcEngines::new();
    let state = UploadBodyState::new(&headers, &engines).enabled_digests();

    assert!(!state.sha1);
    assert!(!state.sha256);
    assert!(state.sha512);
    assert!(!state.crc32);
    assert!(state.crc32c);
}

#[test]
fn upload_body_state_enables_declared_checksum_trailers_case_insensitively() {
    let mut headers = HeaderMap::new();
    headers.insert(
        "x-amz-trailer",
        "X-Amz-Checksum-Crc32, x-amz-checksum-sha1",
    );

    let engines = CrcEngines::new();
    let state = UploadBodyState::new(&headers, &engines).enabled_digests();

    assert!(state.sha1);
    assert!(!state.sha256);
    assert!(!state.sha512);
    assert!(state.crc32);
    assert!(!state.crc32c);
}

#[test]
fn upload_body_state_enables_sha256_for_actual_payload_hash() {
    let mut headers = HeaderMap::new();
    headers.insert(
        "x-amz-content-sha256",
        &"0".repeat(64),
    );

    let engines = CrcEngines::new();
    let state = UploadBodyState::new(&headers, &engines).enabled_digests();

    assert!(state.sha256);
}

#[test]
fn payload_hash_mode_from_headers_accepts_supported_modes() {
    let cases = [
        ("UNSIGNED-PAYLOAD", PayloadHashMode::UnsignedPayload),
        (
            "STREAMING-AWS4-HMAC-SHA256-PAYLOAD",
            PayloadHashMode::StreamingSignedPayload,
        ),
        (
            "STREAMING-AWS4-HMAC-SHA256-PAYLOAD-TRAILER",
            PayloadHashMode::StreamingSignedPayloadTrailer,
        ),
        (
            "STREAMING-UNSIGNED-PAYLOAD-TRAILER",
            PayloadHashMode::StreamingUnsignedPayloadTrailer,
        ),
    ];

    for (value, expected) in cases {
        let mut headers = HeaderMap::new();
        headers.insert("x-amz-content-sha256", value);

        assert_eq!(payload_hash_mode(&headers).expect("payload mode"), expected);
    }

    let mut headers = HeaderMap::new();
    headers.insert(
        "x-amz-content-sha256",
        &"0".repeat(64),
    );
    assert!(matches!(
        payload_hash_mode(&headers).expect("fixed sha256"),
        PayloadHashMode::FixedSha256 { .. }
    ));
}

#[test]
fn payload_hash_mode_from_headers_accepts_missing_header() {
    let headers = HeaderMap::new();

    assert_eq!(
        payload_hash_mode(&headers).expect("payload mode"),
        PayloadHashMode::Missing
    );
}

#[test]
fn payload_hash_mode_from_headers_rejects_invalid_values() {
    for value in ["not-supported".to_owned(), "A".repeat(64)] {
        let mut headers = HeaderMap::new();
        headers.insert(
            "x-amz-content-sha256",
            &value,
        );

        let error = payload_hash_mode(&headers).expect_err("invalid payload mode");

        assert!(format!("{error:?}").contains("Unsupported x-amz-content-sha256 payload mode"));
    }
}

#[test]
fn payload_hash_mode_from_headers_rejects_duplicate_header() {
    let mut headers = HeaderMap::new();
    headers.append(
        "x-amz-content-sha256",
        "UNSIGNED-PAYLOAD",
    );
    headers.append(
        "x-amz-content-sha256",
        "UNSIGNED-PAYLOAD",
    );

    let error = payload_hash_mode(&headers).expect_err("duplicate payload hash");

    assert!(
        format!("{error:?}").contains("x-amz-content-sha256 must not appear more than once")
    );
}
