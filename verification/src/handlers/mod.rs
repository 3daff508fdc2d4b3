//! The operations of the endpoint: what is checked of each request before anything is stored or
//! read, and what is answered afterwards.
use crate::body::payload::{failure, is_aws_chunked, is_aws_chunked_request};
use crate::error::{invalid_request, missing_content_length, ErrorView, S3Error};
use crate::http::{field_text, value_text, values, HeaderMap};
use crate::s3::types::ContentLength;
use crate::text::{
    lowercase, parse_unsigned, same_ignoring_case, split, split_all, texts, trim, trimmed,
};
use vstd::prelude::*;

pub mod answers;
pub mod exchange;
pub mod get_object;
pub mod head_object;
pub mod multipart;
pub mod plan;
pub mod query;
pub mod readback;
pub mod request;
pub mod s3;
pub mod selection;
pub mod upload_metadata;

verus! {

/// The length that `Content-Length` declares.
pub open spec fn body_length(headers: Seq<(Seq<char>, Seq<u8>)>) -> Result<
    Option<nat>,
    ErrorView,
> {
    let found = values(headers, "content-length"@);
    if found.len() > 1 {
        Err(invalid_request("Content-Length must not appear more than once"@))
    } else if found.len() == 0 {
        Ok(None)
    } else {
        match field_text(found[0]) {
            None => Err(invalid_request("Content-Length must be valid ASCII"@)),
            Some(text) => match parse_unsigned(text, 10, u64::MAX as nat) {
                Some(length) => Ok(Some(length)),
                None => Err(invalid_request("Content-Length must be an integer"@)),
            },
        }
    }
}

fn validate_content_length(headers: &HeaderMap) -> (result: Result<Option<ContentLength>, S3Error>)
    ensures
        match result {
            Ok(length) => body_length(headers@) == Ok::<_, ErrorView>(
                crate::body::payload::opt_length(length),
            ),
            Err(error) => body_length(headers@) == Err::<Option<nat>, _>(error@),
        },
{
    let found = headers.get_all("content-length");
    let ghost all = found@.map_values(|v: Vec<u8>| v@);
    assert(all.len() == found@.len());
    if found.len() > 1 {
        return Err(S3Error::invalid_request("Content-Length must not appear more than once"));
    }
    if found.len() == 0 {
        return Ok(None);
    }
    assert(all[0] == found@[0]@);
    match value_text(&found[0]) {
        None => Err(S3Error::invalid_request("Content-Length must be valid ASCII")),
        Some(text) => match ContentLength::from_str(text.as_str()) {
            Ok(length) => Ok(Some(length)),
            Err(_) => Err(S3Error::invalid_request("Content-Length must be an integer")),
        },
    }
}

/// The error of the first transfer encoding that is not `chunked`.
pub open spec fn encodings_error(encodings: Seq<Seq<char>>) -> Option<ErrorView>
    decreases encodings.len(),
{
    if encodings.len() == 0 {
        None
    } else if trim(encodings[0]).len() == 0 {
        Some(invalid_request("Transfer-Encoding must not contain empty values"@))
    } else if lowercase(trim(encodings[0])) != lowercase("chunked"@) {
        Some(invalid_request("Unsupported Transfer-Encoding; only chunked is supported"@))
    } else {
        encodings_error(encodings.skip(1))
    }
}

/// The error of the first `Transfer-Encoding` field that lists anything but `chunked`.
pub open spec fn transfer_encoding_error(found: Seq<Seq<u8>>) -> Option<ErrorView>
    decreases found.len(),
{
    if found.len() == 0 {
        None
    } else {
        match field_text(found[0]) {
            None => Some(invalid_request("Transfer-Encoding must be valid ASCII"@)),
            Some(text) => match encodings_error(split(text, ',')) {
                Some(error) => Some(error),
                None => transfer_encoding_error(found.skip(1)),
            },
        }
    }
}

fn validate_encodings(text: &str) -> (result: Result<(), S3Error>)
    ensures
        failure(result) == encodings_error(split(text@, ',')),
{
    let encodings = split_all(text, ',');
    let ghost all = split(text@, ',');
    let mut i: usize = 0;
    assert(all.skip(0) =~= all);
    while i < encodings.len()
        invariant
            i <= encodings@.len(),
            all == split(text@, ','),
            texts(encodings@) == all,
            encodings_error(all) == encodings_error(all.skip(i as int)),
        decreases encodings.len() - i,
    {
        let encoding = trimmed(encodings[i].as_str());
        proof {
            assert(all.skip(i as int)[0] == encodings@[i as int]@);
            assert(all.skip(i as int).skip(1) =~= all.skip(i + 1));
        }
        if encoding.as_str().is_empty() {
            return Err(S3Error::invalid_request("Transfer-Encoding must not contain empty values"));
        }
        if !same_ignoring_case(encoding.as_str(), "chunked") {
            return Err(
                S3Error::invalid_request("Unsupported Transfer-Encoding; only chunked is supported"),
            );
        }
        i += 1;
    }
    Ok(())
}

/// Checks that every transfer encoding is `chunked`; says whether there is one.
fn validate_transfer_encoding(headers: &HeaderMap) -> (result: Result<bool, S3Error>)
    ensures
        match result {
            Err(error) => transfer_encoding_error(values(headers@, "transfer-encoding"@)) == Some(
                error@,
            ),
            Ok(has_chunked) => {
                &&& transfer_encoding_error(values(headers@, "transfer-encoding"@)) is None
                &&& has_chunked == (values(headers@, "transfer-encoding"@).len() > 0)
            },
        },
{
    let found = headers.get_all("transfer-encoding");
    let ghost all = values(headers@, "transfer-encoding"@);
    assert(all.skip(0) =~= all);
    let mut i: usize = 0;
    while i < found.len()
        invariant
            i <= found@.len(),
            all == values(headers@, "transfer-encoding"@),
            found@.map_values(|v: Vec<u8>| v@) == all,
            transfer_encoding_error(all) == transfer_encoding_error(all.skip(i as int)),
        decreases found.len() - i,
    {
        proof {
            assert(all[i as int] == found@[i as int]@);
            assert(all.skip(i as int)[0] == found@[i as int]@);
            assert(all.skip(i as int).skip(1) =~= all.skip(i + 1));
        }
        let text = match value_text(&found[i]) {
            None => {
                return Err(S3Error::invalid_request("Transfer-Encoding must be valid ASCII"));
            },
            Some(text) => text,
        };
        match validate_encodings(text.as_str()) {
            Ok(()) => {},
            Err(error) => {
                return Err(error);
            },
        }
        i += 1;
    }
    Ok(found.len() > 0)
}

/// The error of a request whose body has no length that the endpoint supports.
pub open spec fn upload_length_error(headers: Seq<(Seq<char>, Seq<u8>)>) -> Option<ErrorView> {
    match body_length(headers) {
        Err(error) => Some(error),
        Ok(length) => match transfer_encoding_error(values(headers, "transfer-encoding"@)) {
            Some(error) => Some(error),
            None => if values(headers, "transfer-encoding"@).len() > 0 {
                if length is Some && !is_aws_chunked(headers) {
                    Some(
                        invalid_request(
                            "Content-Length must not be used with Transfer-Encoding for non aws-chunked uploads"@,
                        ),
                    )
                } else {
                    None
                }
            } else if length is None {
                Some(missing_content_length())
            } else {
                None
            },
        },
    }
}

/// Checks that the length of an upload's body is given in a way that the endpoint supports.
pub fn validate_supported_request_body_length(headers: &HeaderMap) -> (result: Result<(), S3Error>)
    ensures
        failure(result) == upload_length_error(headers@),
{
    let content_length = match validate_content_length(headers) {
        Ok(length) => length,
        Err(error) => {
            return Err(error);
        },
    };
    let has_chunked = match validate_transfer_encoding(headers) {
        Ok(has_chunked) => has_chunked,
        Err(error) => {
            return Err(error);
        },
    };
    if has_chunked {
        if content_length.is_some() && !is_aws_chunked_request(headers) {
            return Err(
                S3Error::invalid_request(
                    "Content-Length must not be used with Transfer-Encoding for non aws-chunked uploads",
                ),
            );
        }
        return Ok(());
    }
    if content_length.is_some() {
        Ok(())
    } else {
        Err(S3Error::missing_content_length())
    }
}

/// The error of a request that must not have a body.
pub open spec fn empty_body_error(
    headers: Seq<(Seq<char>, Seq<u8>)>,
    operation: Seq<char>,
) -> Option<ErrorView> {
    match body_length(headers) {
        Err(error) => Some(error),
        Ok(length) => match transfer_encoding_error(values(headers, "transfer-encoding"@)) {
            Some(error) => Some(error),
            None => if values(headers, "transfer-encoding"@).len() > 0 {
                Some(invalid_request(operation + " does not support Transfer-Encoding"@))
            } else if length is Some && length->0 != 0 {
                Some(invalid_request(operation + " requires Content-Length: 0"@))
            } else {
                None
            },
        },
    }
}

/// Checks that a request has no body.
pub fn validate_empty_request_body_headers(headers: &HeaderMap, operation: &str) -> (result: Result<
    (),
    S3Error,
>)
    ensures
        failure(result) == empty_body_error(headers@, operation@),
{
    let content_length = match validate_content_length(headers) {
        Ok(length) => length,
        Err(error) => {
            return Err(error);
        },
    };
    let has_any = match validate_transfer_encoding(headers) {
        Ok(has_any) => has_any,
        Err(error) => {
            return Err(error);
        },
    };
    if has_any {
        let message = operation.to_owned().concat(" does not support Transfer-Encoding");
        return Err(S3Error::invalid_request(message.as_str()));
    }
    match content_length {
        Some(length) => {
            if length.get() != 0 {
                let message = operation.to_owned().concat(" requires Content-Length: 0");
                return Err(S3Error::invalid_request(message.as_str()));
            }
            Ok(())
        },
        None => Ok(()),
    }
}

} // verus!
