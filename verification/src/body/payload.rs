//! Request headers that describe the payload.
use crate::error::{bad_digest, invalid_request, ErrorView, S3Error};
use crate::http::{field_text, first_text, has_field, value_text, values, HeaderMap};
use crate::s3::types::{
    parse_payload_hash_mode, ContentLength, PayloadHashMode, PayloadHashModeView,
};
use crate::text::{
    lowercase, parse_unsigned, result_view, same_ignoring_case, split, split_all, texts, trim,
    trimmed,
};
use vstd::prelude::*;

verus! {

/// The value of a header field that may occur at most once.
pub open spec fn singleton_value(
    headers: Seq<(Seq<char>, Seq<u8>)>,
    name: Seq<char>,
) -> Result<Option<Seq<u8>>, ErrorView> {
    let found = values(headers, name);
    if found.len() > 1 {
        Err(invalid_request(name + " must not appear more than once"@))
    } else if found.len() == 1 {
        Ok(Some(found[0]))
    } else {
        Ok(None)
    }
}

/// Reads a header field that may occur at most once.
pub fn optional_singleton_header(headers: &HeaderMap, name: &str) -> (result: Result<
    Option<Vec<u8>>,
    S3Error,
>)
    ensures
        match result {
            Ok(Some(value)) => singleton_value(headers@, name@) == Ok::<_, ErrorView>(
                Some(value@),
            ),
            Ok(None) => singleton_value(headers@, name@) == Ok::<Option<Seq<u8>>, ErrorView>(None),
            Err(error) => singleton_value(headers@, name@) == Err::<Option<Seq<u8>>, _>(error@),
        },
{
    let mut found = headers.get_all(name);
    let ghost all = found@.map_values(|v: Vec<u8>| v@);
    assert(all.len() == found@.len());
    if found.len() > 1 {
        let message = name.to_owned().concat(" must not appear more than once");
        return Err(S3Error::invalid_request(message.as_str()));
    }
    if found.len() == 0 {
        return Ok(None);
    }
    assert(all[0] == found@[0]@);
    Ok(found.pop())
}

/// Whether one of the comma-separated items of `list` is `item`, without regard to case and to
/// white space around it.
pub open spec fn lists_item(list: Seq<char>, item: Seq<char>) -> bool {
    exists|i: int|
        0 <= i < split(list, ',').len() && lowercase(trim(#[trigger] split(list, ',')[i]))
            == lowercase(item)
}

/// Tests whether a comma-separated list holds an item.
pub fn list_contains(list: &str, item: &str) -> (result: bool)
    ensures
        result == lists_item(list@, item@),
{
    let pieces = split_all(list, ',');
    let ghost all = split(list@, ',');
    let mut i: usize = 0;
    while i < pieces.len()
        invariant
            i <= pieces@.len(),
            all == split(list@, ','),
            texts(pieces@) == all,
            forall|j: int| 0 <= j < i ==> lowercase(trim(#[trigger] all[j])) != lowercase(item@),
        decreases pieces.len() - i,
    {
        let piece = trimmed(pieces[i].as_str());
        assert(all[i as int] == pieces@[i as int]@);
        if same_ignoring_case(piece.as_str(), item) {
            assert(lowercase(trim(split(list@, ',')[i as int])) == lowercase(item@));
            return true;
        }
        i += 1;
    }
    false
}

/// Whether the first field with the given name is text that lists an item.
pub open spec fn field_lists(
    headers: Seq<(Seq<char>, Seq<u8>)>,
    name: Seq<char>,
    item: Seq<char>,
) -> bool {
    match first_text(headers, name) {
        Some(Some(text)) => lists_item(text, item),
        _ => false,
    }
}

fn header_lists(headers: &HeaderMap, name: &str, item: &str) -> (result: bool)
    ensures
        result == field_lists(headers@, name@, item@),
{
    match headers.get_text(name) {
        Some(Some(text)) => list_contains(text.as_str(), item),
        _ => false,
    }
}

/// Whether a request declares the content encoding `aws-chunked`.
pub open spec fn is_aws_chunked(headers: Seq<(Seq<char>, Seq<u8>)>) -> bool {
    field_lists(headers, "content-encoding"@, "aws-chunked"@)
}

/// Returns whether the request declares S3 `aws-chunked` content encoding.
pub fn is_aws_chunked_request(headers: &HeaderMap) -> (result: bool)
    ensures
        result == is_aws_chunked(headers@),
{
    header_lists(headers, "content-encoding", "aws-chunked")
}

/// Whether `x-amz-trailer` announces a trailer.
pub open spec fn declares_trailer(
    headers: Seq<(Seq<char>, Seq<u8>)>,
    name: Seq<char>,
) -> bool {
    field_lists(headers, "x-amz-trailer"@, name)
}

/// Tests whether `x-amz-trailer` announces a trailer.
pub fn checksum_trailer_declares(headers: &HeaderMap, name: &str) -> (result: bool)
    ensures
        result == declares_trailer(headers@, name@),
{
    header_lists(headers, "x-amz-trailer", name)
}

/// Tests whether a checksum is given in a header field or announced as a trailer.
pub fn checksum_header_or_declared_trailer(headers: &HeaderMap, name: &str) -> (result: bool)
    ensures
        result == (has_field(headers@, name@) || declares_trailer(headers@, name@)),
{
    headers.contains_key(name) || checksum_trailer_declares(headers, name)
}

/// The payload hash mode of a request.
pub open spec fn payload_mode(headers: Seq<(Seq<char>, Seq<u8>)>) -> Result<
    PayloadHashModeView,
    ErrorView,
> {
    match singleton_value(headers, "x-amz-content-sha256"@) {
        Err(error) => Err(error),
        Ok(Some(value)) => match field_text(value) {
            None => Err(invalid_request("x-amz-content-sha256 must be valid ASCII"@)),
            Some(text) => match parse_payload_hash_mode(Some(text)) {
                Some(mode) => Ok(mode),
                None => Err(invalid_request("Unsupported x-amz-content-sha256 payload mode"@)),
            },
        },
        Ok(None) => Ok(PayloadHashModeView::Missing),
    }
}

/// Parses the `x-amz-content-sha256` payload mode from request headers.
pub fn payload_hash_mode(headers: &HeaderMap) -> (result: Result<PayloadHashMode, S3Error>)
    ensures
        result_view(result) == payload_mode(headers@),
{
    match optional_singleton_header(headers, "x-amz-content-sha256") {
        Err(error) => Err(error),
        Ok(None) => Ok(PayloadHashMode::Missing),
        Ok(Some(value)) => match value_text(&value) {
            None => Err(S3Error::invalid_request("x-amz-content-sha256 must be valid ASCII")),
            Some(text) => match PayloadHashMode::parse(Some(text.as_str())) {
                Ok(mode) => Ok(mode),
                Err(_) => Err(
                    S3Error::invalid_request("Unsupported x-amz-content-sha256 payload mode"),
                ),
            },
        },
    }
}

/// Whether an upload's payload hash mode fits its framing: streaming modes with aws-chunked
/// framing, and the others without.
pub open spec fn upload_mode_error(headers: Seq<(Seq<char>, Seq<u8>)>) -> Option<ErrorView> {
    match payload_mode(headers) {
        Err(error) => Some(error),
        Ok(mode) => {
            let streaming = mode is StreamingSignedPayload || mode is StreamingSignedPayloadTrailer
                || mode is StreamingUnsignedPayloadTrailer;
            if is_aws_chunked(headers) && !streaming {
                Some(
                    invalid_request(
                        "Unsupported x-amz-content-sha256 payload mode for aws-chunked upload"@,
                    ),
                )
            } else if !is_aws_chunked(headers) && streaming {
                Some(invalid_request("Unsupported x-amz-content-sha256 payload mode"@))
            } else {
                None
            }
        },
    }
}

/// The error of a check that has no result of its own.
pub open spec fn failure(result: Result<(), S3Error>) -> Option<ErrorView> {
    match result {
        Ok(_) => None,
        Err(error) => Some(error@),
    }
}

/// Checks that an upload's payload hash mode fits its framing.
pub fn validate_payload_hash_mode(headers: &HeaderMap) -> (result: Result<(), S3Error>)
    ensures
        failure(result) == upload_mode_error(headers@),
{
    let mode = match payload_hash_mode(headers) {
        Ok(mode) => mode,
        Err(error) => {
            return Err(error);
        },
    };
    let streaming = match mode {
        PayloadHashMode::StreamingSignedPayload => true,
        PayloadHashMode::StreamingSignedPayloadTrailer => true,
        PayloadHashMode::StreamingUnsignedPayloadTrailer => true,
        _ => false,
    };
    if is_aws_chunked_request(headers) {
        if streaming {
            Ok(())
        } else {
            Err(
                S3Error::invalid_request(
                    "Unsupported x-amz-content-sha256 payload mode for aws-chunked upload",
                ),
            )
        }
    } else if streaming {
        Err(S3Error::invalid_request("Unsupported x-amz-content-sha256 payload mode"))
    } else {
        Ok(())
    }
}

/// The error of a payload whose SHA-256 digest is not the one that its headers fix.
pub open spec fn fixed_hash_error(
    headers: Seq<(Seq<char>, Seq<u8>)>,
    digest: Seq<u8>,
) -> Option<ErrorView> {
    match payload_mode(headers) {
        Err(error) => Some(error),
        Ok(PayloadHashModeView::Missing) => None,
        Ok(PayloadHashModeView::UnsignedPayload) => None,
        Ok(PayloadHashModeView::FixedSha256 { hex, digest: expected }) => if expected == digest {
            None
        } else {
            Some(
                bad_digest(
                    "The provided x-amz-content-sha256 header does not match what was computed."@,
                ),
            )
        },
        Ok(_) => Some(invalid_request("Unsupported x-amz-content-sha256 payload mode"@)),
    }
}

/// Compares two byte strings.
pub fn same_bytes(a: &Vec<u8>, b: &Vec<u8>) -> (result: bool)
    ensures
        result == (a@ == b@),
{
    if a.len() != b.len() {
        return false;
    }
    let mut i: usize = 0;
    while i < a.len()
        invariant
            i <= a@.len(),
            a@.len() == b@.len(),
            forall|j: int| 0 <= j < i ==> a@[j] == b@[j],
        decreases a.len() - i,
    {
        if a[i] != b[i] {
            return false;
        }
        i += 1;
    }
    assert(a@ =~= b@);
    true
}

/// Validates a fixed SHA-256 payload hash for operations with a known digest.
pub fn validate_fixed_sha256_payload_hash(headers: &HeaderMap, actual_digest: &Vec<u8>) -> (result:
    Result<(), S3Error>)
    ensures
        failure(result) == fixed_hash_error(headers@, actual_digest@),
{
    match payload_hash_mode(headers) {
        Err(error) => Err(error),
        Ok(PayloadHashMode::Missing) => Ok(()),
        Ok(PayloadHashMode::UnsignedPayload) => Ok(()),
        Ok(PayloadHashMode::FixedSha256 { hex, digest }) => {
            if same_bytes(&digest, actual_digest) {
                Ok(())
            } else {
                Err(
                    S3Error::bad_digest(
                        "The provided x-amz-content-sha256 header does not match what was computed.",
                    ),
                )
            }
        },
        Ok(_) => Err(S3Error::invalid_request("Unsupported x-amz-content-sha256 payload mode")),
    }
}

/// Validates an actual SHA-256 payload hash for ordinary bodies. An aws-chunked body is covered by
/// its chunk signatures instead.
pub fn validate_actual_sha256_payload_hash(headers: &HeaderMap, actual_digest: &Vec<u8>) -> (result:
    Result<(), S3Error>)
    ensures
        failure(result) == (if is_aws_chunked(headers@) {
            None
        } else {
            fixed_hash_error(headers@, actual_digest@)
        }),
{
    if is_aws_chunked_request(headers) {
        return Ok(());
    }
    validate_fixed_sha256_payload_hash(headers, actual_digest)
}

/// Whether the SHA-256 digest of an upload has to be computed for its payload hash.
pub open spec fn needs_payload_sha256(headers: Seq<(Seq<char>, Seq<u8>)>) -> bool {
    !is_aws_chunked(headers) && match payload_mode(headers) {
        Ok(PayloadHashModeView::FixedSha256 { .. }) => true,
        _ => false,
    }
}

/// Tests whether the SHA-256 digest of an upload has to be computed for its payload hash.
pub fn requires_actual_sha256_payload_hash(headers: &HeaderMap) -> (result: bool)
    ensures
        result == needs_payload_sha256(headers@),
{
    if is_aws_chunked_request(headers) {
        return false;
    }
    match payload_hash_mode(headers) {
        Ok(PayloadHashMode::FixedSha256 { .. }) => true,
        _ => false,
    }
}

/// The length that a field value writes, or the error for text that is none.
pub open spec fn length_value(value: Option<Seq<u8>>, name: Seq<char>) -> Result<
    Option<nat>,
    ErrorView,
> {
    match value {
        None => Ok(None),
        Some(bytes) => match field_text(bytes) {
            None => Err(invalid_request(name + " must be valid ASCII"@)),
            Some(text) => match parse_unsigned(text, 10, u64::MAX as nat) {
                Some(length) => Ok(Some(length)),
                None => Err(invalid_request(name + " must be an integer"@)),
            },
        },
    }
}

/// The view of an optional content length.
pub open spec fn opt_length(length: Option<ContentLength>) -> Option<nat> {
    match length {
        Some(l) => Some(l@),
        None => None,
    }
}

fn parse_length(value: Option<Vec<u8>>, name: &str) -> (result: Result<
    Option<ContentLength>,
    S3Error,
>)
    ensures
        match result {
            Ok(length) => length_value(
                match value {
                    Some(v) => Some(v@),
                    None => None,
                },
                name@,
            ) == Ok::<_, ErrorView>(opt_length(length)),
            Err(error) => length_value(
                match value {
                    Some(v) => Some(v@),
                    None => None,
                },
                name@,
            ) == Err::<Option<nat>, _>(error@),
        },
{
    match value {
        None => Ok(None),
        Some(bytes) => match value_text(&bytes) {
            None => Err(
                S3Error::invalid_request(name.to_owned().concat(" must be valid ASCII").as_str()),
            ),
            Some(text) => match ContentLength::from_str(text.as_str()) {
                Ok(length) => Ok(Some(length)),
                Err(_) => Err(
                    S3Error::invalid_request(name.to_owned().concat(" must be an integer").as_str()),
                ),
            },
        },
    }
}

/// The decoded content length that an aws-chunked upload declares.
pub open spec fn declared_decoded_length(headers: Seq<(Seq<char>, Seq<u8>)>) -> Result<
    Option<nat>,
    ErrorView,
> {
    match singleton_value(headers, "x-amz-decoded-content-length"@) {
        Err(error) => Err(error),
        Ok(value) => length_value(value, "x-amz-decoded-content-length"@),
    }
}

/// Reads the decoded content length that an aws-chunked upload declares.
pub fn decoded_content_length(headers: &HeaderMap) -> (result: Result<
    Option<ContentLength>,
    S3Error,
>)
    ensures
        match result {
            Ok(length) => declared_decoded_length(headers@) == Ok::<_, ErrorView>(
                opt_length(length),
            ),
            Err(error) => declared_decoded_length(headers@) == Err::<Option<nat>, _>(error@),
        },
{
    match optional_singleton_header(headers, "x-amz-decoded-content-length") {
        Err(error) => Err(error),
        Ok(value) => parse_length(value, "x-amz-decoded-content-length"),
    }
}

/// The content length that a request declares. Of several fields the first counts.
pub open spec fn declared_length(headers: Seq<(Seq<char>, Seq<u8>)>) -> Result<
    Option<nat>,
    ErrorView,
> {
    let found = values(headers, "content-length"@);
    length_value(
        if found.len() > 0 {
            Some(found[0])
        } else {
            None
        },
        "Content-Length"@,
    )
}

/// Reads the content length that a request declares.
pub fn content_length(headers: &HeaderMap) -> (result: Result<Option<ContentLength>, S3Error>)
    ensures
        match result {
            Ok(length) => declared_length(headers@) == Ok::<_, ErrorView>(opt_length(length)),
            Err(error) => declared_length(headers@) == Err::<Option<nat>, _>(error@),
        },
{
    let mut found = headers.get_all("content-length");
    let ghost all = found@.map_values(|v: Vec<u8>| v@);
    assert(all.len() == found@.len());
    let first = if found.len() == 0 {
        None
    } else {
        assert(all[0] == found@[0]@);
        Some(found.swap_remove(0))
    };
    parse_length(first, "Content-Length")
}

/// The error of an aws-chunked upload whose decoded length is not the declared one.
pub open spec fn decoded_length_error(
    headers: Seq<(Seq<char>, Seq<u8>)>,
    actual: nat,
) -> Option<ErrorView> {
    match declared_decoded_length(headers) {
        Err(error) => Some(error),
        Ok(None) => Some(
            invalid_request("x-amz-decoded-content-length is required for aws-chunked uploads"@),
        ),
        Ok(Some(expected)) => if expected == actual {
            None
        } else {
            Some(
                invalid_request("x-amz-decoded-content-length does not match decoded body length"@),
            )
        },
    }
}

/// Checks the decoded length of an aws-chunked upload against the declared one.
pub fn validate_decoded_content_length(headers: &HeaderMap, actual_length: u64) -> (result: Result<
    (),
    S3Error,
>)
    ensures
        failure(result) == decoded_length_error(headers@, actual_length as nat),
{
    match decoded_content_length(headers) {
        Err(error) => Err(error),
        Ok(None) => Err(
            S3Error::invalid_request(
                "x-amz-decoded-content-length is required for aws-chunked uploads",
            ),
        ),
        Ok(Some(expected)) => {
            if expected.get() != actual_length {
                Err(
                    S3Error::invalid_request(
                        "x-amz-decoded-content-length does not match decoded body length",
                    ),
                )
            } else {
                Ok(())
            }
        },
    }
}

/// A count of bytes, held at the largest count there is.
pub open spec fn saturated(count: nat) -> nat {
    if count > u64::MAX {
        u64::MAX as nat
    } else {
        count
    }
}

fn saturating_total(read: u64, next: usize) -> (total: u64)
    ensures
        total as nat == saturated(read as nat + next as nat),
{
    let total: u128 = read as u128 + next as u128;
    if total > u64::MAX as u128 {
        u64::MAX
    } else {
        total as u64
    }
}

/// The error of a body that would grow beyond the largest allowed size.
pub open spec fn size_limit_error(read: nat, next: nat, max: nat) -> Option<ErrorView> {
    if saturated(read + next) > max {
        Some(
            crate::error::entity_too_large("Your proposed upload exceeds the maximum allowed size."@),
        )
    } else {
        None
    }
}

/// Checks that `next_chunk_len` more bytes keep a body within the largest allowed size.
pub fn validate_decoded_size_limit(
    bytes_read: u64,
    next_chunk_len: usize,
    max_decoded_size: u64,
) -> (result: Result<(), S3Error>)
    ensures
        failure(result) == size_limit_error(
            bytes_read as nat,
            next_chunk_len as nat,
            max_decoded_size as nat,
        ),
{
    if saturating_total(bytes_read, next_chunk_len) > max_decoded_size {
        return Err(
            S3Error::entity_too_large("Your proposed upload exceeds the maximum allowed size."),
        );
    }
    Ok(())
}

/// The error of a plain body that grows beyond its declared length.
pub open spec fn chunk_length_error(expected: Option<nat>, read: nat, next: nat) -> Option<
    ErrorView,
> {
    if expected is Some && saturated(read + next) > expected->0 {
        Some(invalid_request("Content-Length does not match request body length"@))
    } else {
        None
    }
}

/// Checks that `next_chunk_len` more bytes keep a plain body within its declared length.
pub fn validate_plain_body_chunk_length(
    expected_length: Option<ContentLength>,
    bytes_read: u64,
    next_chunk_len: usize,
) -> (result: Result<(), S3Error>)
    ensures
        failure(result) == chunk_length_error(
            opt_length(expected_length),
            bytes_read as nat,
            next_chunk_len as nat,
        ),
{
    match expected_length {
        Some(expected) => {
            if saturating_total(bytes_read, next_chunk_len) > expected.get() {
                return Err(
                    S3Error::invalid_request("Content-Length does not match request body length"),
                );
            }
            Ok(())
        },
        None => Ok(()),
    }
}

/// The error of a plain body that is shorter or longer than declared.
pub open spec fn body_length_error(expected: Option<nat>, actual: nat) -> Option<ErrorView> {
    if expected is Some && expected->0 != actual {
        Some(invalid_request("Content-Length does not match request body length"@))
    } else {
        None
    }
}

/// Checks the length of a plain body against the declared one.
pub fn validate_plain_content_length(
    expected_length: Option<ContentLength>,
    actual_length: u64,
) -> (result: Result<(), S3Error>)
    ensures
        failure(result) == body_length_error(opt_length(expected_length), actual_length as nat),
{
    match expected_length {
        Some(expected) => {
            if expected.get() != actual_length {
                return Err(
                    S3Error::invalid_request("Content-Length does not match request body length"),
                );
            }
            Ok(())
        },
        None => Ok(()),
    }
}

} // verus!
