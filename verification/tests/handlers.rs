use s3_endpoint::handlers::head_object::{
    format_http_datetime, head_object_response, parse_http_datetime,
};
use s3_endpoint::handlers::multipart::{
    check_completion_request, completed_response, completion_location, create_upload_response,
    parse_completed_parts, read_completion_text, validate_ascending_parts, CompletedPartXml,
    ListPartsPageRequest, COMPLETE_MULTIPART_XML_LIMIT,
};
use s3_endpoint::handlers::query::{query_param, unique_query_flag, unique_query_param};
use s3_endpoint::handlers::s3::{
    detect_operation, finish_response, request_log_context, select_operation, DetectedOperation,
    ParsedS3Request,
};
use s3_endpoint::handlers::upload_metadata::{collect_upload_metadata, validate_upload_headers};
use s3_endpoint::handlers::{
    validate_empty_request_body_headers, validate_supported_request_body_length,
};
use s3_endpoint::handlers::get_object::{get_object_response, parse_range_header, StreamProgress};
use s3_endpoint::handlers::multipart::list_parts_response;
use s3_endpoint::collections::TextMap;
use s3_endpoint::error::S3Error;
use s3_endpoint::http::{HeaderMap, Method, RequestUri, S3Request};
use s3_endpoint::response::{record_decoded_body_bytes, ResponseBody, S3Response};
use s3_endpoint::s3::types::{
    BucketName, ETag, ObjectKey, PartNumber, RequestId, S3Operation, UploadId,
};
use s3_endpoint::storage::model::{
    ObjectMetadata, PartMetadata, PartTable, UploadMetadata, UploadSession, UploadState,
};
use s3_endpoint::storage::checksum::{ChecksumAlgorithm, ChecksumType};
use s3_endpoint::time::Instant;
use sha2::Digest as _;

fn request(method: &str, target: &str) -> S3Request {
    S3Request {
        method: Method::from_text(method),
        uri: RequestUri::new(target),
        headers: HeaderMap::new(),
    }
}

fn query_of(request: &S3Request) -> String {
    request.uri.query.clone().expect("query")
}

fn at(seconds: i64) -> Instant {
    Instant::new(seconds, 0).expect("instant")
}

fn stored_object(size: u64) -> ObjectMetadata {
    let mut user_metadata = TextMap::new();
    user_metadata.insert("x-amz-meta-color", "blue");
    let mut checksums = TextMap::new();
    checksums.insert("x-amz-checksum-crc32", "AAAAAA==");
    ObjectMetadata {
        bucket: BucketName::parse("test-bucket").expect("bucket"),
        key: ObjectKey::parse("key.txt").expect("key"),
        size,
        etag: ETag::parse("\"abc\"").expect("etag"),
        content_type: Some("text/plain".to_owned()),
        content_encoding: None,
        content_disposition: None,
        content_language: None,
        cache_control: None,
        expires: None,
        tagging: None,
        user_metadata,
        checksums,
        last_modified: at(784_111_777),
    }
}

fn header<'a>(response: &'a S3Response, name: &str) -> Option<&'a str> {
    response.headers.iter().find(|(n, _)| n == name).map(|(_, v)| v.as_str())
}

#[test]
fn request_log_context_hashes_key_and_keeps_multipart_ids() {
    let upload_id = UploadId::new();
    let uri = format!(
        "/test-bucket/path/to/object.txt?partNumber=7&uploadId={}",
        upload_id.as_str()
    );
    let request = request("PUT", &uri);

    let context = request_log_context(&request, None, &query_of(&request));

    assert_eq!(
        context.bucket.as_ref().map(BucketName::as_str),
        Some("test-bucket")
    );
    let expected_key_hash = hex::encode(sha2::Sha256::digest(b"path/to/object.txt"));
    assert_eq!(
        context.key_sha256.as_deref(),
        Some(expected_key_hash.as_str())
    );
    assert_eq!(context.upload_id, Some(upload_id));
    assert_eq!(
        context.part_number,
        Some(PartNumber::parse(7).expect("part number"))
    );
}

#[test]
fn request_log_context_supports_virtual_hosted_bucket() {
    let mut request = request("PUT", "/key.txt");
    request.headers.append("host", "test-bucket.s3.local:9000");

    let context = request_log_context(&request, Some("s3.local"), "");

    assert_eq!(
        context.bucket.as_ref().map(BucketName::as_str),
        Some("test-bucket")
    );
    let expected_key_hash = hex::encode(sha2::Sha256::digest(b"key.txt"));
    assert_eq!(
        context.key_sha256.as_deref(),
        Some(expected_key_hash.as_str())
    );
}

#[test]
fn detect_operation_parses_upload_part() {
    let upload_id = UploadId::new();
    let request = request(
        "PUT",
        &format!(
            "/test-bucket/object.txt?partNumber=1&uploadId={}",
            upload_id.as_str()
        ),
    );

    let operation =
        detect_operation(&request, None, &query_of(&request)).expect("operation");

    assert_eq!(
        operation,
        DetectedOperation::Implemented(S3Operation::UploadPart {
            upload_id,
            part_number: PartNumber::parse(1).expect("part number")
        })
    );
}

#[test]
fn detect_operation_reports_list_objects_v2() {
    let request = request("GET", "/test-bucket?list-type=2");

    let operation =
        detect_operation(&request, None, &query_of(&request)).expect("operation");

    assert_eq!(operation, DetectedOperation::ListObjectsV2);
}

#[test]
fn detect_operation_does_not_report_invalid_list_type_as_v2() {
    let request = request("GET", "/test-bucket?list-type=1");

    let operation =
        detect_operation(&request, None, &query_of(&request)).expect("operation");

    assert_eq!(operation, DetectedOperation::Unsupported);
}

#[test]
fn detect_operation_reports_object_operation_for_invalid_object_key() {
    let request = request("GET", "/test-bucket/bad%0Akey.txt");

    let operation = detect_operation(&request, None, "").expect("operation");

    assert_eq!(
        operation,
        DetectedOperation::Implemented(S3Operation::GetObject)
    );
}

#[test]
fn detect_operation_rejects_invalid_query_utf8() {
    let request = request("GET", "/test-bucket/object.txt?upload%FFId=upload-123");

    let result = detect_operation(&request, None, &query_of(&request));

    assert!(result.is_err());
}

#[test]
fn detect_operation_rejects_ambiguous_multipart_queries() {
    let upload_id = UploadId::new();
    let request = request(
        "POST",
        &format!(
            "/test-bucket/object.txt?uploads&uploadId={}",
            upload_id.as_str()
        ),
    );

    let result = detect_operation(&request, None, &query_of(&request));

    assert!(result.is_err());
}

#[test]
fn detect_operation_rejects_duplicate_multipart_query_params() {
    let upload_id = UploadId::new();
    let request = request(
        "PUT",
        &format!(
            "/test-bucket/object.txt?partNumber=1&partNumber=2&uploadId={}",
            upload_id.as_str()
        ),
    );

    let result = detect_operation(&request, None, &query_of(&request));

    assert!(result.is_err());
}

#[test]
fn detect_operation_requires_upload_id_and_part_number_together() {
    let upload_id = UploadId::new();
    let one = request(
        "PUT",
        &format!("/test-bucket/object.txt?uploadId={}", upload_id.as_str()),
    );

    let missing_part = detect_operation(&one, None, &query_of(&one));
    assert!(missing_part.is_err());

    let other = request("PUT", "/test-bucket/object.txt?partNumber=1");

    let missing_upload_id = detect_operation(&other, None, &query_of(&other));
    assert!(missing_upload_id.is_err());
}

#[test]
fn record_decoded_body_bytes_adds_response_extension() {
    let response = S3Response {
        status: 200,
        headers: Vec::new(),
        body: ResponseBody::Empty,
        decoded_bytes: None,
    };

    let response = record_decoded_body_bytes(response, 42);

    assert_eq!(response.decoded_bytes, Some(42));
}

#[test]
fn empty_request_body_headers_accept_absent_or_zero_content_length() {
    let headers = HeaderMap::new();
    validate_empty_request_body_headers(&headers, "ListParts").expect("no body headers");

    let mut headers = HeaderMap::new();
    headers.insert("content-length", "0");
    validate_empty_request_body_headers(&headers, "ListParts").expect("zero length");
}

#[test]
fn empty_request_body_headers_reject_non_zero_content_length() {
    let mut headers = HeaderMap::new();
    headers.insert("content-length", "4");

    let error = validate_empty_request_body_headers(&headers, "ListParts")
        .expect_err("non-empty body should fail");

    assert!(format!("{error:?}").contains("ListParts requires Content-Length: 0"));
}

#[test]
fn empty_request_body_headers_reject_transfer_encoding() {
    let mut headers = HeaderMap::new();
    headers.insert("transfer-encoding", "chunked");

    let error = validate_empty_request_body_headers(&headers, "ListParts")
        .expect_err("transfer encoding should fail");

    assert!(format!("{error:?}").contains("ListParts does not support Transfer-Encoding"));
}

#[test]
fn parse_http_datetime_accepts_all_http_date_forms() {
    let expected = 784_111_777;

    for value in [
        "Sun, 06 Nov 1994 08:49:37 GMT",
        "Sunday, 06-Nov-94 08:49:37 GMT",
        "Sun Nov  6 08:49:37 1994",
    ] {
        let parsed = parse_http_datetime(value, "If-Modified-Since").expect("http-date");
        assert_eq!(parsed.timestamp(), expected);
    }
}

#[test]
fn parse_http_datetime_rejects_invalid_dates() {
    let error = parse_http_datetime("2026-06-16T12:00:00Z", "If-Modified-Since")
        .expect_err("non HTTP-date should fail");

    assert!(format!("{error:?}").contains("If-Modified-Since must be an HTTP-date"));
}

/// Reads the parts of a completion request with the events of quick-xml.
fn completion_entries(xml: &str) -> Vec<CompletedPartXml> {
    let mut reader = quick_xml::Reader::from_str(xml);
    let mut entries = Vec::new();
    let mut part = CompletedPartXml { part_number: None, etag: None };
    let mut text = String::new();
    loop {
        match reader.read_event().expect("xml event") {
            quick_xml::events::Event::Start(start) => {
                if start.name().as_ref() == "Part" {
                    part = CompletedPartXml { part_number: None, etag: None };
                }
                text.clear();
            }
            quick_xml::events::Event::Text(value) => {
                text.push_str(&value);
            }
            quick_xml::events::Event::End(end) => match end.name().as_ref() {
                "PartNumber" => part.part_number = Some(text.parse().expect("part number")),
                "ETag" => part.etag = Some(text.clone()),
                "Part" => {
                    let done = std::mem::replace(
                        &mut part,
                        CompletedPartXml { part_number: None, etag: None },
                    );
                    entries.push(done);
                }
                _ => {}
            },
            quick_xml::events::Event::Eof => return entries,
            _ => {}
        }
    }
}

#[test]
fn complete_multipart_parser_accepts_maximum_part_count_with_formatted_xml() {
    let mut xml = String::from("<CompleteMultipartUpload>\n");
    for part_number in 1..=10_000 {
        xml.push_str(&format!(
            "                                <Part>\n\
             \x20                                 <PartNumber>{part_number}</PartNumber>\n\
             \x20                                 <ETag>\"{:032x}\"</ETag>\n\
             \x20                               </Part>\n",
            part_number
        ));
    }
    xml.push_str("</CompleteMultipartUpload>");

    assert!(xml.len() > 1024 * 1024);
    assert!(xml.len() < COMPLETE_MULTIPART_XML_LIMIT);

    let parts = parse_completed_parts(&completion_entries(&xml)).expect("parse completion xml");
    assert_eq!(parts.len(), 10_000);
    assert_eq!(parts.first().expect("first part").part_number.get(), 1);
    assert_eq!(parts.last().expect("last part").part_number.get(), 10_000);
    validate_ascending_parts(&parts).expect("ascending parts");
}

#[test]
fn completion_entries_are_checked_one_by_one() {
    let entry = |part_number: Option<u16>, etag: Option<&str>| CompletedPartXml {
        part_number,
        etag: etag.map(str::to_owned),
    };
    let error = parse_completed_parts(&vec![entry(None, Some("\"a\""))]).expect_err("number");
    assert_eq!(error.code(), "MalformedXML");
    assert_eq!(error.message(), "PartNumber is required");
    let error = parse_completed_parts(&vec![entry(Some(0), Some("\"a\""))]).expect_err("range");
    assert_eq!(error.code(), "InvalidPart");
    assert_eq!(error.message(), "PartNumber must be in 1..=10000");
    let error = parse_completed_parts(&vec![entry(Some(1), None)]).expect_err("etag");
    assert_eq!(error.message(), "ETag is required");
    let error = parse_completed_parts(&vec![entry(Some(1), Some(""))]).expect_err("etag");
    assert_eq!(error.message(), "ETag is invalid");

    let headers = HeaderMap::new();
    let error = check_completion_request(&headers, &Vec::new()).expect_err("no part");
    assert_eq!(
        error.message(),
        "CompleteMultipartUpload must include at least one part"
    );
    let error = check_completion_request(
        &headers,
        &vec![entry(Some(2), Some("\"a\"")), entry(Some(2), Some("\"b\""))],
    )
    .expect_err("order");
    assert_eq!(
        error.message(),
        "Parts must be specified in ascending PartNumber order."
    );
}

#[test]
fn completion_text_must_match_its_digest_and_be_text() {
    let mut headers = HeaderMap::new();
    headers.insert(
        "x-amz-content-sha256",
        &hex::encode(sha2::Sha256::digest(b"<a/>")),
    );
    assert_eq!(
        read_completion_text(&headers, b"<a/>".to_vec()).expect("text"),
        "<a/>"
    );
    assert!(read_completion_text(&headers, b"<b/>".to_vec()).is_err());
    let error = read_completion_text(&HeaderMap::new(), vec![0xff]).expect_err("not text");
    assert_eq!(
        error.message(),
        "CompleteMultipartUpload XML must be valid UTF-8"
    );
}

#[test]
fn http_dates_are_written_as_they_are_read() {
    assert_eq!(
        format_http_datetime(at(784_111_777)),
        "Sun, 06 Nov 1994 08:49:37 GMT"
    );
}

#[test]
fn ranges_select_bytes_of_the_object() {
    let mut headers = HeaderMap::new();
    assert!(parse_range_header(&headers, 10).expect("no range").is_none());
    for (text, start, end) in [
        ("bytes=0-3", 0, 3),
        ("bytes=2-", 2, 9),
        ("bytes=-4", 6, 9),
        ("bytes=-40", 0, 9),
        ("bytes=5-900", 5, 9),
    ] {
        headers.insert("range", text);
        let range = parse_range_header(&headers, 10).expect("range").expect("bytes");
        assert_eq!((range.start, range.end), (start, end));
        assert_eq!(range.len(), end - start + 1);
    }
    for text in [
        "bytes=10-", "bytes=4-3", "bytes=-0", "bytes=-", "items=0-1", "bytes=0-1,3-4", "bytes=5",
        "bytes=x-1",
    ] {
        headers.insert("range", text);
        let error = parse_range_header(&headers, 10).expect_err("refused");
        assert_eq!(error.status(), 416);
    }
    headers.insert("range", "bytes=0-0");
    assert!(parse_range_header(&headers, 0).is_err());
}

#[test]
fn objects_are_sent_whole_or_in_part() {
    let id = RequestId::parse("request-1").expect("request id");
    let object = stored_object(10);
    let mut headers = HeaderMap::new();
    let whole = get_object_response(&headers, "", &object, &id).expect("response");
    assert_eq!(whole.status, 200);
    assert_eq!(whole.body, ResponseBody::Object { start: 0, length: None });
    assert_eq!(header(&whole, "content-length"), Some("10"));
    assert_eq!(header(&whole, "etag"), Some("\"abc\""));
    assert_eq!(header(&whole, "content-type"), Some("text/plain"));
    assert_eq!(header(&whole, "x-amz-meta-color"), Some("blue"));
    assert_eq!(header(&whole, "x-amz-checksum-crc32"), Some("AAAAAA=="));
    assert_eq!(
        header(&whole, "last-modified"),
        Some("Sun, 06 Nov 1994 08:49:37 GMT")
    );
    assert_eq!(header(&whole, "x-amz-request-id"), Some("request-1"));

    headers.insert("range", "bytes=2-4");
    let part = get_object_response(&headers, "", &object, &id).expect("response");
    assert_eq!(part.status, 206);
    assert_eq!(part.body, ResponseBody::Object { start: 2, length: Some(3) });
    assert_eq!(header(&part, "content-range"), Some("bytes 2-4/10"));
    assert_eq!(header(&part, "content-length"), Some("3"));

    let changed = get_object_response(
        &HeaderMap::new(),
        "response-content-type=text%2Fhtml",
        &object,
        &id,
    )
    .expect("response");
    assert_eq!(header(&changed, "content-type"), Some("text/html"));
    let error = get_object_response(
        &HeaderMap::new(),
        "response-expires=a&response-expires=b",
        &object,
        &id,
    )
    .expect_err("twice");
    assert_eq!(error.message(), "response-expires must not appear more than once");
}

#[test]
fn streams_end_with_the_bytes_that_were_asked_for() {
    let stored: Vec<u8> = (0..100).collect();
    let mut sent: Vec<u8> = Vec::new();
    let mut progress = StreamProgress::new(Some(37), 16);
    while let Some(limit) = progress.next_read() {
        let count = limit.min(5);
        sent.extend_from_slice(&stored[10 + sent.len()..10 + sent.len() + count]);
        progress.sent(count);
    }
    assert_eq!(sent, &stored[10..47]);
    assert_eq!(StreamProgress::new(None, 16).next_read(), Some(16));
}

#[test]
fn conditions_are_tested_before_an_object_is_described() {
    let id = RequestId::parse("request-1").expect("request id");
    let object = stored_object(10);
    let outcome = |name: &str, value: &str| {
        let mut headers = HeaderMap::new();
        headers.insert(name, value);
        head_object_response(&headers, &object, &id)
    };
    assert_eq!(outcome("if-match", "\"abc\"").expect("same").status, 200);
    assert_eq!(outcome("if-match", "\"x\", \"abc\"").expect("listed").status, 200);
    assert_eq!(outcome("if-match", "*").expect("any").status, 200);
    assert_eq!(outcome("if-match", "\"x\"").expect_err("other").status(), 412);
    assert_eq!(outcome("if-none-match", "W/\"abc\"").expect("same").status, 304);
    assert_eq!(outcome("if-none-match", "\"x\"").expect("other").status, 200);
    let modified = "Sun, 06 Nov 1994 08:49:37 GMT";
    let earlier = "Sun, 06 Nov 1994 08:49:36 GMT";
    assert_eq!(outcome("if-modified-since", modified).expect("not since").status, 304);
    assert_eq!(outcome("if-modified-since", earlier).expect("since").status, 200);
    assert_eq!(outcome("if-unmodified-since", modified).expect("not since").status, 200);
    assert_eq!(
        outcome("if-unmodified-since", earlier).expect_err("since").status(),
        412
    );
    assert_eq!(
        outcome("if-modified-since", "yesterday").expect_err("no date").message(),
        "If-Modified-Since must be an HTTP-date"
    );
}

#[test]
fn pages_of_parts_are_bounded() {
    let page = ListPartsPageRequest::parse("").expect("default");
    assert_eq!((page.max_parts, page.part_number_marker), (1000, 0));
    let page = ListPartsPageRequest::parse("max-parts=5000&part-number-marker=3").expect("page");
    assert_eq!((page.max_parts, page.part_number_marker), (1000, 3));
    for (query, message) in [
        ("max-parts=x", "max-parts must be an integer"),
        ("max-parts=0", "max-parts must be in 1..=1000"),
        ("part-number-marker=x", "part-number-marker must be an integer"),
        ("part-number-marker=10001", "part-number-marker must be in 0..=10000"),
    ] {
        let error = ListPartsPageRequest::parse(query).expect_err("refused");
        assert_eq!(error.message(), message);
    }
}

fn session_with_parts(numbers: &[u16]) -> UploadSession {
    let entries: Vec<(u16, u16)> = numbers.iter().map(|number| (*number, *number)).collect();
    session_with_entries(&entries)
}

fn session_with_entries(entries: &[(u16, u16)]) -> UploadSession {
    let mut parts = PartTable::new();
    for (key, number) in entries {
        let key = PartNumber::parse(*key).expect("part number");
        parts.insert(key, PartMetadata {
            part_number: PartNumber::parse(*number).expect("part number"),
            size: 5,
            etag: ETag::parse("\"e\"").expect("etag"),
            md5: vec![0; 16],
            checksums: {
                let mut checksums = TextMap::new();
                checksums.insert("x-amz-checksum-crc32", "AAAAAA==");
                checksums.insert("x-other", "ignored");
                checksums
            },
            last_modified: at(784_111_777),
        });
    }
    UploadSession {
        upload_id: UploadId::parse("550e8400-e29b-41d4-a716-446655440000").expect("id"),
        bucket: BucketName::parse("test-bucket").expect("bucket"),
        key: ObjectKey::parse("a<b.txt").expect("key"),
        initiated: at(0),
        state: UploadState::Open,
        owner_access_key_id: None,
        metadata: UploadMetadata::default(),
        parts,
    }
}

#[test]
fn parts_are_listed_page_by_page() {
    let id = RequestId::parse("request-1").expect("request id");
    let session = session_with_parts(&[1, 2, 3]);
    let page = ListPartsPageRequest { max_parts: 1, part_number_marker: 1 };
    let response = list_parts_response(&session, page, &id);
    assert_eq!(response.status, 200);
    assert_eq!(
        header(&response, "content-type"),
        Some("application/xml; charset=utf-8")
    );
    assert_eq!(
        response.body,
        ResponseBody::Text(
            "<?xml version=\"1.0\" encoding=\"UTF-8\"?>\n\
             <ListPartsResult xmlns=\"http://s3.amazonaws.com/doc/2006-03-01/\">\n\
             \x20 <Bucket>test-bucket</Bucket>\n\
             \x20 <Key>a&lt;b.txt</Key>\n\
             \x20 <UploadId>550e8400-e29b-41d4-a716-446655440000</UploadId>\n\
             \x20 <PartNumberMarker>1</PartNumberMarker>\n\
             \x20 <MaxParts>1</MaxParts>\n\
             \x20 <IsTruncated>true</IsTruncated>\n\
             \x20 <NextPartNumberMarker>2</NextPartNumberMarker>\n\
             \x20 <Part>\n\
             \x20   <PartNumber>2</PartNumber>\n\
             \x20   <LastModified>1994-11-06T08:49:37.000Z</LastModified>\n\
             \x20   <ETag>&quot;e&quot;</ETag>\n\
             \x20   <Size>5</Size>\n\
             \x20   <ChecksumCRC32>AAAAAA==</ChecksumCRC32>\n\
             \x20 </Part>\n\
             </ListPartsResult>\n"
                .to_owned()
        )
    );
}

#[test]
fn uploads_are_announced_and_completed_in_xml() {
    let id = RequestId::parse("request-1").expect("request id");
    let created = create_upload_response(&session_with_parts(&[]), &id);
    assert_eq!(
        created.body,
        ResponseBody::Text(
            "<?xml version=\"1.0\" encoding=\"UTF-8\"?>\n\
             <InitiateMultipartUploadResult xmlns=\"http://s3.amazonaws.com/doc/2006-03-01/\">\n\
             \x20 <Bucket>test-bucket</Bucket>\n\
             \x20 <Key>a&lt;b.txt</Key>\n\
             \x20 <UploadId>550e8400-e29b-41d4-a716-446655440000</UploadId>\n\
             </InitiateMultipartUploadResult>\n"
                .to_owned()
        )
    );

    let mut posted = request("POST", "/test-bucket/key.txt?uploadId=x");
    assert_eq!(completion_location(&posted), "/test-bucket/key.txt");
    posted.headers.append("host", "localhost:9000");
    let location = completion_location(&posted);
    assert_eq!(location, "http://localhost:9000/test-bucket/key.txt");
    let completed = completed_response(&stored_object(10), &location, &id);
    assert_eq!(completed.status, 200);
    assert_eq!(completed.decoded_bytes, Some(10));
    assert_eq!(header(&completed, "x-amz-checksum-type"), Some("FULL_OBJECT"));
    assert_eq!(
        completed.body,
        ResponseBody::Text(
            "<?xml version=\"1.0\" encoding=\"UTF-8\"?>\n\
             <CompleteMultipartUploadResult xmlns=\"http://s3.amazonaws.com/doc/2006-03-01/\">\n\
             \x20 <Location>http://localhost:9000/test-bucket/key.txt</Location>\n\
             \x20 <Bucket>test-bucket</Bucket>\n\
             \x20 <Key>key.txt</Key>\n\
             \x20 <ETag>&quot;abc&quot;</ETag>\n\
             </CompleteMultipartUploadResult>\n"
                .to_owned()
        )
    );
}

#[test]
fn upload_lengths_are_checked() {
    let mut headers = HeaderMap::new();
    assert_eq!(
        validate_supported_request_body_length(&headers).expect_err("no length").code(),
        "MissingContentLength"
    );
    headers.insert("content-length", "12");
    validate_supported_request_body_length(&headers).expect("length");
    let mut chunked = HeaderMap::new();
    chunked.insert("transfer-encoding", "chunked");
    validate_supported_request_body_length(&chunked).expect("chunked");
    chunked.insert("transfer-encoding", "gzip");
    assert!(validate_supported_request_body_length(&chunked).is_err());
    headers.insert("content-length", "many");
    assert!(validate_supported_request_body_length(&headers).is_err());
}

#[test]
fn upload_metadata_is_collected_from_headers() {
    let mut headers = HeaderMap::new();
    headers.append("content-type", "text/plain");
    headers.append("content-encoding", "aws-chunked, gzip");
    headers.append("x-amz-meta-color", "blue");
    headers.append("x-amz-checksum-algorithm", "crc32c");
    headers.append("x-amz-checksum-type", "full_object");
    let metadata = collect_upload_metadata(&headers).expect("metadata");
    assert_eq!(metadata.content_type.as_deref(), Some("text/plain"));
    assert_eq!(metadata.content_encoding.as_deref(), Some("gzip"));
    assert_eq!(metadata.user_metadata.get("x-amz-meta-color"), Some("blue"));
    assert_eq!(metadata.checksum_algorithm, Some(ChecksumAlgorithm::Crc32c));
    assert_eq!(metadata.checksum_type, Some(ChecksumType::FullObject));

    headers.append("content-type", "text/html");
    assert_eq!(
        collect_upload_metadata(&headers).expect_err("twice").message(),
        "content-type must not appear more than once"
    );
    let mut headers = HeaderMap::new();
    headers.append("x-amz-checksum-algorithm", "CRC64");
    assert_eq!(
        collect_upload_metadata(&headers).expect_err("algorithm").message(),
        "Checksum algorithm not supported"
    );
    let mut headers = HeaderMap::new();
    headers.append("x-amz-copy-source", "/a/b");
    assert_eq!(
        validate_upload_headers(&headers).expect_err("copy").message(),
        "Unsupported upload header: x-amz-copy-source"
    );
}

#[test]
fn query_parameters_are_decoded() {
    assert_eq!(
        unique_query_param("a=1&name=x%20y", "name").expect("query"),
        Some("x y".to_owned())
    );
    assert_eq!(unique_query_param("a=1", "name").expect("query"), None);
    assert!(unique_query_param("name=1&name=2", "name").is_err());
    assert!(unique_query_flag("a=1&uploads", "uploads").expect("query"));
    assert_eq!(query_param("x=%FF&y=1", "y"), Some("1".to_owned()));
}

#[test]
fn only_implemented_operations_are_selected() {
    let detected = |method: &str, target: &str| {
        ParsedS3Request::parse(&request(method, target), None).operation
    };
    assert_eq!(
        select_operation(detected("PUT", "/b-1/key")).expect("put"),
        S3Operation::PutObject
    );
    assert_eq!(
        select_operation(detected("HEAD", "/b-1")).expect("head"),
        S3Operation::HeadBucket
    );
    let error = select_operation(detected("GET", "/b-1?list-type=2")).expect_err("list");
    assert_eq!(error.code(), "NotImplemented");
    let error = select_operation(detected("GET", "/b-1?list-type=1")).expect_err("list");
    assert_eq!(error.message(), "list-type must be 2");
    let error = select_operation(detected("PATCH", "/b-1/key")).expect_err("method");
    assert_eq!(error.status(), 405);
}

#[test]
fn errors_are_rendered_and_head_responses_have_no_body() {
    let id = RequestId::parse("request-1").expect("request id");
    let refused = finish_response(&Method::Get, Err(S3Error::no_such_key()), &id);
    assert_eq!(refused.status, 404);
    assert!(matches!(&refused.body, ResponseBody::Text(text) if text.contains("<Code>NoSuchKey</Code>")));
    let refused = finish_response(&Method::Head, Err(S3Error::no_such_key()), &id);
    assert_eq!(refused.status, 404);
    assert_eq!(refused.body, ResponseBody::Empty);
    assert_eq!(header(&refused, "content-length"), Some("0"));
    assert_eq!(header(&refused, "x-amz-request-id"), Some("request-1"));
}

#[test]
fn requests_are_labelled_for_observers() {
    let id = RequestId::parse("observed-request").expect("request id");
    let parsed = ParsedS3Request::parse(&request("HEAD", "/test-bucket"), None);
    let observed = parsed.observed(&id, Method::Head);
    assert_eq!(observed.request_id.as_str(), "observed-request");
    assert_eq!(observed.operation, "HeadBucket");
    assert_eq!(
        observed.bucket.as_ref().map(|bucket| bucket.as_str()),
        Some("test-bucket")
    );
    let invalid = ParsedS3Request::parse(&request("PUT", "/b-1/k?partNumber=1"), None);
    assert_eq!(invalid.label(), "InvalidRequest");
    assert_eq!(invalid.error_context(&id).operation, "InvalidRequest");
}

#[test]
fn the_first_and_the_last_instant_are_formatted() {
    assert!(Instant::new(-8_334_601_228_801, 0).is_none());
    assert_eq!(
        format_http_datetime(at(-8_334_601_228_800)),
        "Thu, 01 Jan -262143 00:00:00 GMT"
    );
    assert!(Instant::new(8_210_266_876_799, 999_999_999).is_some());
    assert!(Instant::new(8_210_266_876_800, 0).is_none());
}

#[test]
fn parts_are_listed_by_their_own_numbers_in_the_order_of_their_keys() {
    let id = RequestId::parse("request-1").expect("request id");
    let session = session_with_entries(&[(1, 9), (2, 2), (3, 4)]);
    let listed = |max_parts: usize, part_number_marker: u16| {
        let page = ListPartsPageRequest { max_parts, part_number_marker };
        let ResponseBody::Text(text) = list_parts_response(&session, page, &id).body else {
            panic!("the list is text");
        };
        text
    };
    let numbers = |text: &str| -> Vec<String> {
        text.split("<PartNumber>")
            .skip(1)
            .map(|rest| rest.split('<').next().expect("number").to_owned())
            .collect()
    };
    let all = listed(10, 2);
    assert_eq!(numbers(&all), ["9", "4"]);
    assert!(all.contains("<IsTruncated>false</IsTruncated>"));
    let first = listed(1, 0);
    assert_eq!(numbers(&first), ["9"]);
    assert!(first.contains("<NextPartNumberMarker>9</NextPartNumberMarker>"));
}
