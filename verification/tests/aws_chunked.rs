use s3_endpoint::body::aws_chunked::{decode_aws_chunked_body, AwsChunkedError};

#[test]
fn decodes_chunks_and_trailers() {
    let got = decode_aws_chunked_body(
        b"5;chunk-signature=ignored\r\nhello\r\n0\r\nx-amz-checksum-crc32: abcd\r\n\r\n",
    )
    .expect("decode");

    assert_eq!(got.data, b"hello");
    assert_eq!(
        got.trailers.get("x-amz-checksum-crc32"),
        Some("abcd")
    );
}

#[test]
fn rejects_missing_chunk_terminator() {
    let got = decode_aws_chunked_body(b"5\r\nhello0\r\n\r\n");

    assert!(matches!(got, Err(AwsChunkedError::MissingChunkTerminator)));
}

#[test]
fn rejects_duplicate_trailer_names_case_insensitively() {
    let got = decode_aws_chunked_body(
        b"5\r\nhello\r\n0\r\nx-amz-checksum-crc32: abcd\r\nX-Amz-Checksum-Crc32: efgh\r\n\r\n",
    );

    assert!(matches!(
        got,
        Err(AwsChunkedError::DuplicateTrailer(name)) if name == "x-amz-checksum-crc32"
    ));
}

#[test]
fn decodes_extensions_and_trailers_of_any_text() {
    let encoded = "3;note=größe \r ok\r\nabc\r\n0;ende=ü\r\nX-B: two\r\nx-a:  one \r\n\r\n";
    let got = decode_aws_chunked_body(encoded.as_bytes()).expect("decode");

    assert_eq!(got.data, b"abc");
    assert_eq!(got.trailers.len(), 2);
    assert_eq!(got.trailers.get("x-a"), Some("one"));
    assert_eq!(got.trailers.get("x-b"), Some("two"));
}
