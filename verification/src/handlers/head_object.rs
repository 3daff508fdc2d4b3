//! `HeadObject`, conditional requests and object metadata in responses.
use crate::collections::pairs;
use crate::error::{invalid_argument, invalid_request, precondition_failed, ErrorView, S3Error};
use crate::http::{first_text, has_field, HeaderMap};
use crate::response::{
    add_header, add_headers, add_optional_header, with_optional, BodyView, ResponseBody, S3Response,
    S3ResponseView,
};
use crate::s3::types::RequestId;
use crate::storage::model::{MetadataView, ObjectMetadata};
use crate::text::{
    decimal, decimal_text, result_view, same, split, split_all, strip_prefix, texts, trim, trimmed,
    without_prefix,
};
use crate::time::{
    format_time, formatted_time, http_date_format, naive_time, parse_naive_time, parse_rfc2822_time,
    rfc2822_time, Instant,
};
use vstd::prelude::*;

verus! {

// ---------------------------------------------------------------------------------------------
// Metadata in responses
// ---------------------------------------------------------------------------------------------
/// The header fields that describe an object.
pub open spec fn object_headers(
    metadata: MetadataView,
    request_id: Seq<char>,
    length: nat,
) -> Seq<(Seq<char>, Seq<char>)> {
    let always = seq![
        ("x-amz-request-id"@, request_id),
        ("accept-ranges"@, "bytes"@),
        ("content-length"@, decimal(length)),
        ("etag"@, metadata.etag),
        ("last-modified"@, formatted_time(metadata.last_modified, http_date_format())),
    ];
    let h1 = with_optional(always, "content-type"@, metadata.content_type);
    let h2 = with_optional(h1, "content-encoding"@, metadata.content_encoding);
    let h3 = with_optional(h2, "content-disposition"@, metadata.content_disposition);
    let h4 = with_optional(h3, "content-language"@, metadata.content_language);
    let h5 = with_optional(h4, "cache-control"@, metadata.cache_control);
    let h6 = with_optional(h5, "expires"@, metadata.expires);
    let h7 = with_optional(h6, "x-amz-tagging"@, metadata.tagging);
    let h8 = h7 + metadata.user_metadata;
    let h9 = if metadata.checksums.len() > 0 {
        h8.push(("x-amz-checksum-type"@, "FULL_OBJECT"@))
    } else {
        h8
    };
    h9 + metadata.checksums
}

/// Writes a time as HTTP header fields have it.
pub fn format_http_datetime(value: Instant) -> (text: String)
    ensures
        text@ == formatted_time(value@, http_date_format()),
{
    format_time(value, "%a, %d %b %Y %H:%M:%S GMT")
}

/// Collects the header fields that describe an object.
pub fn object_metadata_headers(
    metadata: &ObjectMetadata,
    request_id: &RequestId,
    content_length: u64,
) -> (headers: Vec<(String, String)>)
    ensures
        pairs(headers@) == object_headers(metadata@, request_id@, content_length as nat),
{
    let mut headers: Vec<(String, String)> = Vec::new();
    assert(pairs(headers@) =~= Seq::<(Seq<char>, Seq<char>)>::empty());
    add_header(&mut headers, "x-amz-request-id", request_id.as_str());
    add_header(&mut headers, "accept-ranges", "bytes");
    add_header(&mut headers, "content-length", decimal_text(content_length).as_str());
    add_header(&mut headers, "etag", metadata.etag.as_str());
    add_header(&mut headers, "last-modified", format_http_datetime(metadata.last_modified).as_str());
    assert(pairs(headers@) =~= seq![
        ("x-amz-request-id"@, request_id@),
        ("accept-ranges"@, "bytes"@),
        ("content-length"@, decimal(content_length as nat)),
        ("etag"@, metadata@.etag),
        ("last-modified"@, formatted_time(metadata@.last_modified, http_date_format())),
    ]);
    add_optional_header(&mut headers, "content-type", &metadata.content_type);
    add_optional_header(&mut headers, "content-encoding", &metadata.content_encoding);
    add_optional_header(&mut headers, "content-disposition", &metadata.content_disposition);
    add_optional_header(&mut headers, "content-language", &metadata.content_language);
    add_optional_header(&mut headers, "cache-control", &metadata.cache_control);
    add_optional_header(&mut headers, "expires", &metadata.expires);
    add_optional_header(&mut headers, "x-amz-tagging", &metadata.tagging);
    add_headers(&mut headers, &metadata.user_metadata);
    if !metadata.checksums.is_empty() {
        add_header(&mut headers, "x-amz-checksum-type", "FULL_OBJECT");
    }
    add_headers(&mut headers, &metadata.checksums);
    headers
}

/// The response that describes an object without sending it.
pub open spec fn metadata_answer(
    metadata: MetadataView,
    request_id: Seq<char>,
    status: u16,
    length: nat,
) -> S3ResponseView {
    S3ResponseView {
        status,
        headers: object_headers(metadata, request_id, length),
        body: BodyView::Empty,
        decoded_bytes: None,
    }
}

fn metadata_response_with(
    metadata: &ObjectMetadata,
    request_id: &RequestId,
    status: u16,
    content_length: u64,
) -> (response: S3Response)
    ensures
        response@ == metadata_answer(metadata@, request_id@, status, content_length as nat),
{
    S3Response {
        status,
        headers: object_metadata_headers(metadata, request_id, content_length),
        body: ResponseBody::Empty,
        decoded_bytes: None,
    }
}

/// Describes an object with its full length.
pub fn metadata_response(metadata: &ObjectMetadata, request_id: &RequestId) -> (response:
    S3Response)
    ensures
        response@ == metadata_answer(metadata@, request_id@, 200, metadata@.size),
{
    metadata_response_with(metadata, request_id, 200, metadata.size)
}

// ---------------------------------------------------------------------------------------------
// Conditions
// ---------------------------------------------------------------------------------------------
/// An ETag without the mark of a weak one.
pub open spec fn weak_value(tag: Seq<char>) -> Seq<char> {
    match strip_prefix(tag, "W/"@) {
        Some(rest) => rest,
        None => tag,
    }
}

/// Whether one of the listed ETags is the given one, or any is asked for.
pub open spec fn lists_tag(list: Seq<char>, tag: Seq<char>) -> bool {
    exists|i: int|
        0 <= i < split(list, ',').len() && (trim(#[trigger] split(list, ',')[i]) == "*"@ || trim(
            split(list, ',')[i],
        ) == tag)
}

/// Whether one of the listed ETags is the given one without regard to weakness, or any is asked
/// for.
pub open spec fn lists_tag_weakly(list: Seq<char>, tag: Seq<char>) -> bool {
    exists|i: int|
        0 <= i < split(list, ',').len() && (trim(#[trigger] split(list, ',')[i]) == "*"@
            || weak_value(trim(split(list, ',')[i])) == weak_value(tag))
}

/// Tests an `If-Match` list against an ETag.
pub fn strong_etag_condition_matches(value: &str, etag: &str) -> (result: bool)
    ensures
        result == lists_tag(value@, etag@),
{
    let candidates = split_all(value, ',');
    let ghost all = split(value@, ',');
    let mut i: usize = 0;
    while i < candidates.len()
        invariant
            i <= candidates@.len(),
            all == split(value@, ','),
            texts(candidates@) == all,
            forall|j: int|
                0 <= j < i ==> trim(#[trigger] all[j]) != "*"@ && trim(all[j]) != etag@,
        decreases candidates.len() - i,
    {
        let candidate = trimmed(candidates[i].as_str());
        assert(all[i as int] == candidates@[i as int]@);
        if same(candidate.as_str(), "*") || same(candidate.as_str(), etag) {
            assert(trim(split(value@, ',')[i as int]) == candidate@);
            return true;
        }
        i += 1;
    }
    false
}

fn weak_etag_value(value: &str) -> (text: String)
    ensures
        text@ == weak_value(value@),
{
    match without_prefix(value, "W/") {
        Some(rest) => rest,
        None => value.to_owned(),
    }
}

/// Tests an `If-None-Match` list against an ETag.
pub fn weak_etag_condition_matches(value: &str, etag: &str) -> (result: bool)
    ensures
        result == lists_tag_weakly(value@, etag@),
{
    let tag = weak_etag_value(etag);
    let candidates = split_all(value, ',');
    let ghost all = split(value@, ',');
    let mut i: usize = 0;
    while i < candidates.len()
        invariant
            i <= candidates@.len(),
            tag@ == weak_value(etag@),
            all == split(value@, ','),
            texts(candidates@) == all,
            forall|j: int|
                0 <= j < i ==> trim(#[trigger] all[j]) != "*"@ && weak_value(trim(all[j]))
                    != weak_value(etag@),
        decreases candidates.len() - i,
    {
        let candidate = trimmed(candidates[i].as_str());
        assert(all[i as int] == candidates@[i as int]@);
        let bare = weak_etag_value(candidate.as_str());
        if same(candidate.as_str(), "*") || same(bare.as_str(), tag.as_str()) {
            assert(trim(split(value@, ',')[i as int]) == candidate@);
            return true;
        }
        i += 1;
    }
    false
}

/// The point in time that an HTTP date writes, in any of its three forms.
pub open spec fn http_time(value: Seq<char>) -> Option<(int, int)> {
    match rfc2822_time(value) {
        Some(time) => Some(time),
        None => match naive_time(value, "%A, %d-%b-%y %H:%M:%S GMT"@) {
            Some(time) => Some(time),
            None => naive_time(value, "%a %b %e %H:%M:%S %Y"@),
        },
    }
}

/// The error of a date that cannot be read.
pub open spec fn date_error(name: Seq<char>) -> ErrorView {
    invalid_argument(name + " must be an HTTP-date"@)
}

/// Reads an HTTP date.
pub fn parse_http_datetime(value: &str, header_name: &str) -> (result: Result<Instant, S3Error>)
    ensures
        match result {
            Ok(time) => http_time(value@) == Some(time@),
            Err(error) => http_time(value@) is None && error@ == date_error(header_name@),
        },
{
    match parse_rfc2822_time(value) {
        Some(time) => {
            return Ok(time);
        },
        None => {},
    }
    match parse_naive_time(value, "%A, %d-%b-%y %H:%M:%S GMT") {
        Some(time) => {
            return Ok(time);
        },
        None => {},
    }
    match parse_naive_time(value, "%a %b %e %H:%M:%S %Y") {
        Some(time) => Ok(time),
        None => Err(
            S3Error::invalid_argument(
                header_name.to_owned().concat(" must be an HTTP-date").as_str(),
            ),
        ),
    }
}

/// What the conditions of a request come to.
#[verifier::ext_equal]
pub enum Verdict {
    /// The object is sent or described.
    Proceed,
    /// The client has what it needs.
    NotModified,
    /// The request is refused.
    Refused(ErrorView),
}

/// The error of a condition that does not hold.
pub open spec fn condition_failed() -> ErrorView {
    precondition_failed("At least one of the preconditions you specified did not hold."@)
}

/// What `If-Match` comes to.
pub open spec fn match_verdict(headers: Seq<(Seq<char>, Seq<u8>)>, tag: Seq<char>) -> Verdict {
    match first_text(headers, "if-match"@) {
        None => Verdict::Proceed,
        Some(None) => Verdict::Refused(invalid_request("If-Match must be valid ASCII"@)),
        Some(Some(list)) => if lists_tag(list, tag) {
            Verdict::Proceed
        } else {
            Verdict::Refused(condition_failed())
        },
    }
}

/// What `If-None-Match` comes to.
pub open spec fn none_match_verdict(headers: Seq<(Seq<char>, Seq<u8>)>, tag: Seq<char>) -> Verdict {
    match first_text(headers, "if-none-match"@) {
        None => Verdict::Proceed,
        Some(None) => Verdict::Refused(invalid_request("If-None-Match must be valid ASCII"@)),
        Some(Some(list)) => if lists_tag_weakly(list, tag) {
            Verdict::NotModified
        } else {
            Verdict::Proceed
        },
    }
}

/// What `If-Unmodified-Since` comes to. It does not count beside `If-Match`.
pub open spec fn unmodified_verdict(
    headers: Seq<(Seq<char>, Seq<u8>)>,
    modified: (int, int),
) -> Verdict {
    if has_field(headers, "if-match"@) {
        Verdict::Proceed
    } else {
        match first_text(headers, "if-unmodified-since"@) {
            None => Verdict::Proceed,
            Some(None) => Verdict::Refused(
                invalid_request("If-Unmodified-Since must be valid ASCII"@),
            ),
            Some(Some(text)) => match http_time(text) {
                None => Verdict::Refused(date_error("If-Unmodified-Since"@)),
                Some(since) => if modified.0 > since.0 {
                    Verdict::Refused(condition_failed())
                } else {
                    Verdict::Proceed
                },
            },
        }
    }
}

/// What `If-Modified-Since` comes to. It does not count beside `If-None-Match`.
pub open spec fn modified_verdict(
    headers: Seq<(Seq<char>, Seq<u8>)>,
    modified: (int, int),
) -> Verdict {
    if has_field(headers, "if-none-match"@) {
        Verdict::Proceed
    } else {
        match first_text(headers, "if-modified-since"@) {
            None => Verdict::Proceed,
            Some(None) => Verdict::Refused(invalid_request("If-Modified-Since must be valid ASCII"@)),
            Some(Some(text)) => match http_time(text) {
                None => Verdict::Refused(date_error("If-Modified-Since"@)),
                Some(since) => if modified.0 <= since.0 {
                    Verdict::NotModified
                } else {
                    Verdict::Proceed
                },
            },
        }
    }
}

/// The first of two verdicts that does not let the request proceed.
pub open spec fn first_verdict(first: Verdict, second: Verdict) -> Verdict {
    if first is Proceed {
        second
    } else {
        first
    }
}

/// What the conditions of a request come to for an object.
pub open spec fn conditions(headers: Seq<(Seq<char>, Seq<u8>)>, metadata: MetadataView) -> Verdict {
    first_verdict(
        match_verdict(headers, metadata.etag),
        first_verdict(
            none_match_verdict(headers, metadata.etag),
            first_verdict(
                unmodified_verdict(headers, metadata.last_modified),
                modified_verdict(headers, metadata.last_modified),
            ),
        ),
    )
}

/// Answers a conditional request, where its conditions leave nothing else to do.
pub fn conditional_response(
    headers: &HeaderMap,
    metadata: &ObjectMetadata,
    request_id: &RequestId,
) -> (result: Result<Option<S3Response>, S3Error>)
    ensures
        match conditions(headers@, metadata@) {
            Verdict::Proceed => result is Ok && result->Ok_0 is None,
            Verdict::NotModified => result is Ok && result->Ok_0 is Some && result->Ok_0->0@
                == metadata_answer(metadata@, request_id@, 304, 0),
            Verdict::Refused(error) => result is Err && result->Err_0@ == error,
        },
{
    match headers.get_text("if-match") {
        Some(None) => {
            return Err(S3Error::invalid_request("If-Match must be valid ASCII"));
        },
        Some(Some(value)) => {
            if !strong_etag_condition_matches(value.as_str(), metadata.etag.as_str()) {
                return Err(
                    S3Error::precondition_failed(
                        "At least one of the preconditions you specified did not hold.",
                    ),
                );
            }
        },
        None => {},
    }
    match headers.get_text("if-none-match") {
        Some(None) => {
            return Err(S3Error::invalid_request("If-None-Match must be valid ASCII"));
        },
        Some(Some(value)) => {
            if weak_etag_condition_matches(value.as_str(), metadata.etag.as_str()) {
                return Ok(Some(metadata_response_with(metadata, request_id, 304, 0)));
            }
        },
        None => {},
    }
    if !headers.contains_key("if-match") {
        match headers.get_text("if-unmodified-since") {
            Some(None) => {
                return Err(S3Error::invalid_request("If-Unmodified-Since must be valid ASCII"));
            },
            Some(Some(value)) => {
                let since = match parse_http_datetime(value.as_str(), "If-Unmodified-Since") {
                    Ok(since) => since,
                    Err(error) => {
                        return Err(error);
                    },
                };
                if metadata.last_modified.timestamp() > since.timestamp() {
                    return Err(
                        S3Error::precondition_failed(
                            "At least one of the preconditions you specified did not hold.",
                        ),
                    );
                }
            },
            None => {},
        }
    }
    if !headers.contains_key("if-none-match") {
        match headers.get_text("if-modified-since") {
            Some(None) => {
                return Err(S3Error::invalid_request("If-Modified-Since must be valid ASCII"));
            },
            Some(Some(value)) => {
                let since = match parse_http_datetime(value.as_str(), "If-Modified-Since") {
                    Ok(since) => since,
                    Err(error) => {
                        return Err(error);
                    },
                };
                if metadata.last_modified.timestamp() <= since.timestamp() {
                    return Ok(Some(metadata_response_with(metadata, request_id, 304, 0)));
                }
            },
            None => {},
        }
    }
    Ok(None)
}

/// What a HEAD request for an object is answered.
pub open spec fn head_outcome(
    headers: Seq<(Seq<char>, Seq<u8>)>,
    metadata: MetadataView,
    request_id: Seq<char>,
) -> Result<S3ResponseView, ErrorView> {
    match conditions(headers, metadata) {
        Verdict::Proceed => Ok(metadata_answer(metadata, request_id, 200, metadata.size)),
        Verdict::NotModified => Ok(metadata_answer(metadata, request_id, 304, 0)),
        Verdict::Refused(error) => Err(error),
    }
}

/// Answers a HEAD request for an object whose metadata was found.
pub fn head_object_response(
    headers: &HeaderMap,
    metadata: &ObjectMetadata,
    request_id: &RequestId,
) -> (result: Result<S3Response, S3Error>)
    ensures
        result_view(result) == head_outcome(headers@, metadata@, request_id@),
{
    match conditional_response(headers, metadata, request_id) {
        Err(error) => Err(error),
        Ok(Some(response)) => Ok(response),
        Ok(None) => Ok(metadata_response(metadata, request_id)),
    }
}

/// An ETag that a list names is found in it, both by strong and by weak comparison.
pub proof fn law_listed_etags_match(list: Seq<char>, tag: Seq<char>, i: int)
    requires
        0 <= i < split(list, ',').len(),
        trim(split(list, ',')[i]) == tag,
    ensures
        lists_tag(list, tag),
        lists_tag_weakly(list, tag),
{
    assert(trim(split(list, ',')[i]) == tag);
}

/// A request without conditions proceeds.
pub proof fn law_unconditional_requests_proceed(
    headers: Seq<(Seq<char>, Seq<u8>)>,
    metadata: MetadataView,
)
    requires
        !has_field(headers, "if-match"@),
        !has_field(headers, "if-none-match"@),
        !has_field(headers, "if-modified-since"@),
        !has_field(headers, "if-unmodified-since"@),
    ensures
        conditions(headers, metadata) is Proceed,
{
}

} // verus!
