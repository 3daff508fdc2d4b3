use hmac::Mac as _;
use s3_endpoint::auth::{aws_uri_encode, StreamingSigningContext};
use s3_endpoint::body::aws_chunked::{decode_aws_chunked_body, AwsChunkedError};
use s3_endpoint::body::checksum::ChecksumName;
use s3_endpoint::body::digests::{CrcEngines, DigestState, EnabledDigests};
use s3_endpoint::body::upload::{write_upload_body, UploadedBody};
use s3_endpoint::encoding::percent_decode_text;
use s3_endpoint::error::{escape_xml, S3Error};
use s3_endpoint::handlers::multipart::{etag_of, stored_response};
use s3_endpoint::http::HeaderMap;
use s3_endpoint::s3::types::RequestId;
use sha2::Digest as _;

fn receive(
    headers: &HeaderMap,
    pieces: &[&[u8]],
    signing: Option<&StreamingSigningContext>,
    max: u64,
) -> (Result<UploadedBody, S3Error>, Vec<u8>) {
    let pieces: Vec<Vec<u8>> = pieces.iter().map(|piece| piece.to_vec()).collect();
    let mut written = Vec::new();
    let result = write_upload_body(headers, &pieces, &mut written, signing, max);
    (result, written)
}

#[test]
fn plain_uploads_are_written_unchanged() {
    let mut headers = HeaderMap::new();
    headers.insert("content-length", "9");
    headers.insert("x-amz-checksum-crc32", "y/Q5Jg==");
    headers.insert("content-md5", "JfnnlDI7RThY9Rgfxh0k0A==");
    let (result, _) = receive(&headers, &[b"1234", b"56789"], None, 100);
    assert_eq!(result.expect_err("digest").code(), "BadDigest");

    headers.insert("content-md5", "JfnnlDI7RTiF9RgfG2JNCw==");
    let (result, written) = receive(&headers, &[b"1234", b"56789"], None, 100);
    let body = result.expect("upload");
    assert_eq!(written, b"123456789");
    assert_eq!(body.size.get(), 9);
    assert_eq!(hex::encode(&body.md5_digest), "25f9e794323b453885f5181f1b624d0b");
    assert_eq!(body.checksums.get("x-amz-checksum-crc32"), Some("y/Q5Jg=="));

    let id = RequestId::parse("request-1").expect("request id");
    let response = stored_response(&etag_of(&body), &id, &body, true);
    assert_eq!(response.status, 200);
    assert_eq!(response.decoded_bytes, Some(9));
    let header = |name: &str| {
        response.headers.iter().find(|(n, _)| n == name).map(|(_, v)| v.as_str())
    };
    assert_eq!(header("etag"), Some("\"25f9e794323b453885f5181f1b624d0b\""));
    assert_eq!(header("x-amz-checksum-type"), Some("FULL_OBJECT"));
    assert_eq!(header("x-amz-checksum-crc32"), Some("y/Q5Jg=="));

    let (result, _) = receive(&headers, &[b"1234"], None, 100);
    assert!(result.is_err());
    let (result, _) = receive(&headers, &[b"1234", b"56789"], None, 8);
    assert_eq!(result.expect_err("limit").code(), "EntityTooLarge");
}

#[test]
fn payload_hashes_must_match() {
    let mut headers = HeaderMap::new();
    headers.insert("content-length", "5");
    headers.insert(
        "x-amz-content-sha256",
        &hex::encode(sha2::Sha256::digest(b"hello")),
    );
    assert!(receive(&headers, &[b"hello"], None, 100).0.is_ok());
    assert!(receive(&headers, &[b"hullo"], None, 100).0.is_err());
}

fn mac(key: &[u8], data: &str) -> String {
    let mut mac = hmac::Hmac::<sha2::Sha256>::new_from_slice(key).expect("key");
    mac.update(data.as_bytes());
    hex::encode(mac.finalize().into_bytes())
}

fn chunk_signature(context: &StreamingSigningContext, previous: &str, data: &[u8]) -> String {
    mac(
        &context.signing_key,
        &format!(
            "AWS4-HMAC-SHA256-PAYLOAD\n{}\n{}\n{previous}\n{}\n{}",
            context.amz_date,
            context.credential_scope,
            hex::encode(sha2::Sha256::digest(b"")),
            hex::encode(sha2::Sha256::digest(data)),
        ),
    )
}

#[test]
fn signed_chunks_form_a_chain() {
    let context = StreamingSigningContext {
        signing_key: vec![7; 32],
        seed_signature: "0".repeat(64),
        amz_date: "20260616T120000Z".to_owned(),
        credential_scope: "20260616/us-east-1/s3/aws4_request".to_owned(),
    };
    let first = chunk_signature(&context, &context.seed_signature, b"hello");
    let second = chunk_signature(&context, &first, b" world");
    let last = chunk_signature(&context, &second, b"");
    let mut headers = HeaderMap::new();
    headers.insert("content-encoding", "aws-chunked");
    headers.insert("x-amz-content-sha256", "STREAMING-AWS4-HMAC-SHA256-PAYLOAD");
    headers.insert("x-amz-decoded-content-length", "11");
    let body = format!(
        "5;chunk-signature={first}\r\nhello\r\n6;chunk-signature={second}\r\n world\r\n\
         0;chunk-signature={last}\r\n\r\n"
    );
    let bytes = body.as_bytes();
    let (result, written) = receive(&headers, &[bytes], Some(&context), 100);
    assert_eq!(result.expect("upload").size.get(), 11);
    assert_eq!(written, b"hello world");
    let single: Vec<&[u8]> = bytes.chunks(1).collect();
    let (result, written) = receive(&headers, &single, Some(&context), 100);
    assert!(result.is_ok());
    assert_eq!(written, b"hello world");

    let swapped = body.replace("hello", "hallo");
    let (result, _) = receive(&headers, &[swapped.as_bytes()], Some(&context), 100);
    assert_eq!(result.expect_err("signature").code(), "SignatureDoesNotMatch");
    let (result, _) = receive(&headers, &[bytes], Some(&context), 10);
    assert!(result.is_err());
    let (result, _) = receive(&headers, &[&bytes[..40]], Some(&context), 100);
    assert!(result.is_err());
}

#[test]
fn unsigned_trailers_are_checked() {
    let mut headers = HeaderMap::new();
    headers.insert("content-encoding", "aws-chunked");
    headers.insert("x-amz-content-sha256", "STREAMING-UNSIGNED-PAYLOAD-TRAILER");
    headers.insert("x-amz-decoded-content-length", "9");
    headers.insert("x-amz-trailer", "x-amz-checksum-crc32c");
    let good = b"9\r\n123456789\r\n0\r\nx-amz-checksum-crc32c:4waSgw==\r\n\r\n";
    let (result, written) = receive(&headers, &[good], None, 100);
    let body = result.expect("upload");
    assert_eq!(written, b"123456789");
    assert_eq!(body.checksums.get("x-amz-checksum-crc32c"), Some("4waSgw=="));
    let bad = b"9\r\n123456780\r\n0\r\nx-amz-checksum-crc32c:4waSgw==\r\n\r\n";
    let (result, _) = receive(&headers, &[bad], None, 100);
    assert_eq!(result.expect_err("digest").code(), "BadDigest");
}

#[test]
fn encoded_bodies_are_decoded() {
    let decoded =
        decode_aws_chunked_body(b"5;a=b\r\nhello\r\n1a\r\nabcdefghijklmnopqrstuvwxyz\r\n0\r\n\r\n")
            .expect("decoded");
    assert_eq!(decoded.data, b"helloabcdefghijklmnopqrstuvwxyz");
    assert!(decoded.trailers.is_empty());
    for (body, error) in [
        (&b"5\r\nhel"[..], AwsChunkedError::UnexpectedEndOfBody),
        (&b"x\r\n"[..], AwsChunkedError::InvalidChunkSize("x".to_owned())),
        (&b"1\r\nabc\r\n"[..], AwsChunkedError::MissingChunkTerminator),
        (&b"\xff\r\n"[..], AwsChunkedError::NonUtf8ControlLine),
        (&b"0\r\nplain\r\n\r\n"[..], AwsChunkedError::MalformedTrailer("plain".to_owned())),
    ] {
        assert_eq!(decode_aws_chunked_body(body).expect_err("refused"), error);
    }
    assert_eq!(
        AwsChunkedError::DuplicateTrailer("a".to_owned()).message(),
        "aws-chunked trailer appears more than once: a"
    );
}

#[test]
fn digests_do_not_depend_on_pieces() {
    let engines = CrcEngines::new();
    let enabled = EnabledDigests {
        md5: true,
        sha1: true,
        sha256: true,
        sha512: true,
        crc32: true,
        crc32c: true,
    };
    let mut whole = DigestState::new(enabled, &engines);
    whole.update(b"123456789");
    let whole = whole.finalize();
    let mut pieces = DigestState::new(enabled, &engines);
    pieces.update(b"1234");
    pieces.update(b"");
    pieces.update(b"56789");
    let pieces = pieces.finalize();
    assert_eq!(whole, pieces);
    for (name, expected) in [
        (ChecksumName::Crc32, "y/Q5Jg=="),
        (ChecksumName::Crc32c, "4waSgw=="),
        (ChecksumName::Sha1, "98O8HYCOBHMq32eZZczDTKeuNEE="),
    ] {
        assert_eq!(name.encode_digest(&whole), expected);
    }
    assert_eq!(hex::encode(&whole.sha256), hex::encode(sha2::Sha256::digest(b"123456789")));
    assert_eq!(hex::encode(&whole.sha512), hex::encode(sha2::Sha512::digest(b"123456789")));
    assert_eq!(hex::encode(&whole.md5), "25f9e794323b453885f5181f1b624d0b");
}

#[test]
fn encoded_uris_are_decoded() {
    let encoded = aws_uri_encode("a/b c~é%".as_bytes(), true);
    assert_eq!(encoded, "a/b%20c~%C3%A9%25");
    assert_eq!(percent_decode_text(&encoded), Some("a/b c~é%".to_owned()));
    assert_eq!(aws_uri_encode(b"a/b", false), "a%2Fb");
    assert_eq!(percent_decode_text("%FF"), None);
    assert_eq!(percent_decode_text("100%"), Some("100%".to_owned()));
}

#[test]
fn escaped_text_has_no_markup() {
    assert_eq!(escape_xml("<a b='c'>&\"</a>"), "&lt;a b=&apos;c&apos;&gt;&amp;&quot;&lt;/a&gt;");
}
