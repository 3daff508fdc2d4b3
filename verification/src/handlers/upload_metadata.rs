//! Object metadata in upload requests.
use crate::body::payload::failure;
use crate::collections::{insert_entry, mapping, TextMap};
use crate::error::{invalid_request, ErrorView, S3Error};
use crate::http::{field_text, has_field, value_text, values, HeaderMap};
use crate::storage::checksum::{algorithm_named, kind_with_name, ChecksumAlgorithm, ChecksumType};
use crate::storage::model::{UploadMetadata, UploadMetadataView};
use crate::text::{
    has_prefix, join, joined, lowercase, opt_text, result_view, same_ignoring_case, split,
    split_all, starts_with, texts, trim, trimmed,
};
use vstd::prelude::*;

verus! {

/// The text of a field that may appear once.
pub open spec fn single_text(
    headers: Seq<(Seq<char>, Seq<u8>)>,
    name: Seq<char>,
) -> Result<Option<Seq<char>>, ErrorView> {
    let found = values(headers, name);
    if found.len() > 1 {
        Err(invalid_request(name + " must not appear more than once"@))
    } else if found.len() == 0 {
        Ok(None)
    } else {
        match field_text(found[0]) {
            Some(text) => Ok(Some(text)),
            None => Err(invalid_request(name + " must be valid ASCII"@)),
        }
    }
}

fn optional_header(headers: &HeaderMap, name: &str) -> (result: Result<Option<String>, S3Error>)
    ensures
        match result {
            Ok(text) => single_text(headers@, name@) == Ok::<_, ErrorView>(opt_text(text)),
            Err(error) => single_text(headers@, name@) == Err::<Option<Seq<char>>, _>(error@),
        },
{
    let found = headers.get_all(name);
    let ghost all = found@.map_values(|v: Vec<u8>| v@);
    assert(all.len() == found@.len());
    if found.len() > 1 {
        let message = name.to_owned().concat(" must not appear more than once");
        return Err(S3Error::invalid_request(message.as_str()));
    }
    if found.len() == 0 {
        return Ok(None);
    }
    assert(all[0] == found@[0]@);
    match value_text(&found[0]) {
        Some(text) => Ok(Some(text)),
        None => Err(
            S3Error::invalid_request(name.to_owned().concat(" must be valid ASCII").as_str()),
        ),
    }
}

/// Whether an item of `Content-Encoding` is stored: anything but the transport-only `aws-chunked`.
pub open spec fn is_stored_encoding(item: Seq<char>) -> bool {
    trim(item).len() > 0 && lowercase(trim(item)) != lowercase("aws-chunked"@)
}

/// The items of `Content-Encoding` that are stored, in order.
pub open spec fn stored_encodings(items: Seq<Seq<char>>) -> Seq<Seq<char>>
    decreases items.len(),
{
    if items.len() == 0 {
        Seq::empty()
    } else if is_stored_encoding(items.last()) {
        stored_encodings(items.drop_last()).push(trim(items.last()))
    } else {
        stored_encodings(items.drop_last())
    }
}

/// The stored `Content-Encoding`.
pub open spec fn stored_encoding(headers: Seq<(Seq<char>, Seq<u8>)>) -> Result<
    Option<Seq<char>>,
    ErrorView,
> {
    match single_text(headers, "content-encoding"@) {
        Err(error) => Err(error),
        Ok(None) => Ok(None),
        Ok(Some(text)) => {
            let kept = stored_encodings(split(text, ','));
            if kept.len() == 0 {
                Ok(None)
            } else {
                Ok(Some(join(kept, ", "@)))
            }
        },
    }
}

fn keep_encodings(text: &str) -> (kept: Vec<String>)
    ensures
        texts(kept@) == stored_encodings(split(text@, ',')),
{
    let items = split_all(text, ',');
    let ghost all = split(text@, ',');
    let mut kept: Vec<String> = Vec::new();
    let mut i: usize = 0;
    proof {
        assert(all.take(0) =~= Seq::<Seq<char>>::empty());
        assert(texts(kept@) =~= Seq::<Seq<char>>::empty());
    }
    while i < items.len()
        invariant
            i <= items@.len(),
            all == split(text@, ','),
            texts(items@) == all,
            texts(kept@) == stored_encodings(all.take(i as int)),
        decreases items.len() - i,
    {
        let item = trimmed(items[i].as_str());
        proof {
            assert(all.take(i + 1).drop_last() =~= all.take(i as int));
            assert(all.take(i + 1).last() == items@[i as int]@);
        }
        if !item.as_str().is_empty() && !same_ignoring_case(item.as_str(), "aws-chunked") {
            let ghost before = kept@;
            let ghost view = item@;
            kept.push(item);
            assert(texts(kept@) =~= texts(before).push(view));
        }
        i += 1;
    }
    assert(all.take(i as int) =~= all);
    kept
}

fn content_encoding_metadata(headers: &HeaderMap) -> (result: Result<Option<String>, S3Error>)
    ensures
        match result {
            Ok(text) => stored_encoding(headers@) == Ok::<_, ErrorView>(opt_text(text)),
            Err(error) => stored_encoding(headers@) == Err::<Option<Seq<char>>, _>(error@),
        },
{
    let text = match optional_header(headers, "content-encoding") {
        Err(error) => {
            return Err(error);
        },
        Ok(None) => {
            return Ok(None);
        },
        Ok(Some(text)) => text,
    };
    let kept = keep_encodings(text.as_str());
    assert(texts(kept@).len() == kept@.len());
    if kept.len() == 0 {
        Ok(None)
    } else {
        Ok(Some(joined(&kept, ", ")))
    }
}

/// The checksum algorithm that an upload is started with.
pub open spec fn upload_algorithm(headers: Seq<(Seq<char>, Seq<u8>)>) -> Result<
    Option<ChecksumAlgorithm>,
    ErrorView,
> {
    match single_text(headers, "x-amz-checksum-algorithm"@) {
        Err(error) => Err(error),
        Ok(None) => Ok(None),
        Ok(Some(text)) => match algorithm_named(text) {
            Some(algorithm) => Ok(Some(algorithm)),
            None => Err(invalid_request("Checksum algorithm not supported"@)),
        },
    }
}

fn optional_checksum_algorithm(headers: &HeaderMap) -> (result: Result<
    Option<ChecksumAlgorithm>,
    S3Error,
>)
    ensures
        match result {
            Ok(algorithm) => upload_algorithm(headers@) == Ok::<_, ErrorView>(algorithm),
            Err(error) => upload_algorithm(headers@) == Err::<Option<ChecksumAlgorithm>, _>(
                error@,
            ),
        },
{
    match optional_header(headers, "x-amz-checksum-algorithm") {
        Err(error) => Err(error),
        Ok(None) => Ok(None),
        Ok(Some(text)) => match ChecksumAlgorithm::from_name(text.as_str()) {
            Some(algorithm) => Ok(Some(algorithm)),
            None => Err(S3Error::invalid_request("Checksum algorithm not supported")),
        },
    }
}

/// The checksum type that an upload is started with.
pub open spec fn upload_checksum_type(headers: Seq<(Seq<char>, Seq<u8>)>) -> Result<
    Option<ChecksumType>,
    ErrorView,
> {
    match single_text(headers, "x-amz-checksum-type"@) {
        Err(error) => Err(error),
        Ok(None) => Ok(None),
        Ok(Some(text)) => match kind_with_name(text) {
            Some(checksum_type) => Ok(Some(checksum_type)),
            None => Err(invalid_request("x-amz-checksum-type must be COMPOSITE or FULL_OBJECT"@)),
        },
    }
}

fn optional_checksum_type(headers: &HeaderMap) -> (result: Result<Option<ChecksumType>, S3Error>)
    ensures
        match result {
            Ok(checksum_type) => upload_checksum_type(headers@) == Ok::<_, ErrorView>(
                checksum_type,
            ),
            Err(error) => upload_checksum_type(headers@) == Err::<Option<ChecksumType>, _>(error@),
        },
{
    match optional_header(headers, "x-amz-checksum-type") {
        Err(error) => Err(error),
        Ok(None) => Ok(None),
        Ok(Some(text)) => match ChecksumType::from_name(text.as_str()) {
            Some(checksum_type) => Ok(Some(checksum_type)),
            None => Err(
                S3Error::invalid_request("x-amz-checksum-type must be COMPOSITE or FULL_OBJECT"),
            ),
        },
    }
}

/// The user metadata of header fields, in the order of their names. Each name may appear once.
pub open spec fn user_metadata(fields: Seq<(Seq<char>, Seq<u8>)>) -> Result<
    Seq<(Seq<char>, Seq<char>)>,
    ErrorView,
>
    decreases fields.len(),
{
    if fields.len() == 0 {
        Ok(Seq::empty())
    } else {
        let (name, value) = fields.last();
        match user_metadata(fields.drop_last()) {
            Err(error) => Err(error),
            Ok(found) => if !starts_with(name, "x-amz-meta-"@) {
                Ok(found)
            } else {
                match field_text(value) {
                    None => Err(invalid_request(name + " must be valid ASCII"@)),
                    Some(text) => if mapping(found).dom().contains(name) {
                        Err(invalid_request(name + " must not appear more than once"@))
                    } else {
                        Ok(insert_entry(found, name, text))
                    },
                }
            },
        }
    }
}

proof fn lemma_user_metadata_fail(fields: Seq<(Seq<char>, Seq<u8>)>, n: int)
    requires
        0 <= n <= fields.len(),
        user_metadata(fields.take(n)) is Err,
    ensures
        user_metadata(fields) == user_metadata(fields.take(n)),
    decreases fields.len() - n,
{
    if n < fields.len() {
        assert(fields.take(n + 1).drop_last() =~= fields.take(n));
        lemma_user_metadata_fail(fields, n + 1);
    } else {
        assert(fields.take(n) =~= fields);
    }
}

fn collect_user_metadata(headers: &HeaderMap) -> (result: Result<TextMap, S3Error>)
    ensures
        result_view(result) == user_metadata(headers@),
{
    let ghost all = headers@;
    let mut found = TextMap::new();
    let mut i: usize = 0;
    assert(all.take(0) =~= Seq::<(Seq<char>, Seq<u8>)>::empty());
    while i < headers.len()
        invariant
            i <= headers@.len(),
            all == headers@,
            user_metadata(all.take(i as int)) == Ok::<_, ErrorView>(found@),
        decreases headers@.len() - i,
    {
        let name = headers.name_at(i);
        proof {
            assert(all.take(i + 1).drop_last() =~= all.take(i as int));
            assert(all.take(i + 1).last() == all[i as int]);
            if user_metadata(all.take(i + 1)) is Err {
                lemma_user_metadata_fail(all, i + 1);
            }
        }
        if has_prefix(name, "x-amz-meta-") {
            let text = match value_text(headers.value_at(i)) {
                Some(text) => text,
                None => {
                    return Err(
                        S3Error::invalid_request(
                            name.to_owned().concat(" must be valid ASCII").as_str(),
                        ),
                    );
                },
            };
            if found.contains_key(name) {
                let message = name.to_owned().concat(" must not appear more than once");
                return Err(S3Error::invalid_request(message.as_str()));
            }
            found.insert_new(name, text.as_str());
        }
        i += 1;
    }
    assert(all.take(i as int) =~= all);
    Ok(found)
}

/// The error of the first metadata field that cannot be stored.
pub open spec fn metadata_error(headers: Seq<(Seq<char>, Seq<u8>)>) -> Option<ErrorView> {
    match single_text(headers, "content-type"@) {
        Err(error) => Some(error),
        Ok(_) => match stored_encoding(headers) {
            Err(error) => Some(error),
            Ok(_) => match single_text(headers, "content-disposition"@) {
                Err(error) => Some(error),
                Ok(_) => match single_text(headers, "content-language"@) {
                    Err(error) => Some(error),
                    Ok(_) => match single_text(headers, "cache-control"@) {
                        Err(error) => Some(error),
                        Ok(_) => match single_text(headers, "expires"@) {
                            Err(error) => Some(error),
                            Ok(_) => match single_text(headers, "x-amz-tagging"@) {
                                Err(error) => Some(error),
                                Ok(_) => match upload_algorithm(headers) {
                                    Err(error) => Some(error),
                                    Ok(_) => match upload_checksum_type(headers) {
                                        Err(error) => Some(error),
                                        Ok(_) => match user_metadata(headers) {
                                            Err(error) => Some(error),
                                            Ok(_) => None,
                                        },
                                    },
                                },
                            },
                        },
                    },
                },
            },
        },
    }
}

/// The metadata of an upload request.
pub open spec fn upload_metadata(headers: Seq<(Seq<char>, Seq<u8>)>) -> Result<
    UploadMetadataView,
    ErrorView,
> {
    match metadata_error(headers) {
        Some(error) => Err(error),
        None => Ok(
            UploadMetadataView {
                content_type: single_text(headers, "content-type"@)->Ok_0,
                content_encoding: stored_encoding(headers)->Ok_0,
                content_disposition: single_text(headers, "content-disposition"@)->Ok_0,
                content_language: single_text(headers, "content-language"@)->Ok_0,
                cache_control: single_text(headers, "cache-control"@)->Ok_0,
                expires: single_text(headers, "expires"@)->Ok_0,
                tagging: single_text(headers, "x-amz-tagging"@)->Ok_0,
                checksum_algorithm: upload_algorithm(headers)->Ok_0,
                checksum_type: upload_checksum_type(headers)->Ok_0,
                user_metadata: user_metadata(headers)->Ok_0,
            },
        ),
    }
}

/// Collects persisted object metadata from upload request headers.
///
/// Duplicate metadata headers and non-ASCII values are rejected. The transport-only `aws-chunked`
/// content encoding is stripped before metadata is stored.
pub fn collect_upload_metadata(headers: &HeaderMap) -> (result: Result<UploadMetadata, S3Error>)
    ensures
        result_view(result) == upload_metadata(headers@),
{
    let content_type = optional_header(headers, "content-type")?;
    let content_encoding = content_encoding_metadata(headers)?;
    let content_disposition = optional_header(headers, "content-disposition")?;
    let content_language = optional_header(headers, "content-language")?;
    let cache_control = optional_header(headers, "cache-control")?;
    let expires = optional_header(headers, "expires")?;
    let tagging = optional_header(headers, "x-amz-tagging")?;
    let checksum_algorithm = optional_checksum_algorithm(headers)?;
    let checksum_type = optional_checksum_type(headers)?;
    let user_metadata = collect_user_metadata(headers)?;
    Ok(
        UploadMetadata {
            content_type,
            content_encoding,
            content_disposition,
            content_language,
            cache_control,
            expires,
            tagging,
            checksum_algorithm,
            checksum_type,
            user_metadata,
        },
    )
}

/// What is stored as `Content-Encoding` never holds the transport-only `aws-chunked`.
pub proof fn law_transport_encoding_is_not_stored(items: Seq<Seq<char>>, i: int)
    requires
        0 <= i < stored_encodings(items).len(),
    ensures
        lowercase(stored_encodings(items)[i]) != lowercase("aws-chunked"@),
        stored_encodings(items)[i].len() > 0,
    decreases items.len(),
{
    let rest = stored_encodings(items.drop_last());
    if i < rest.len() {
        law_transport_encoding_is_not_stored(items.drop_last(), i);
    }
}

// ---------------------------------------------------------------------------------------------
// Headers that the endpoint does not support
// ---------------------------------------------------------------------------------------------
/// The upload headers that the endpoint does not support, in the order in which they are checked.
pub open spec fn unsupported_upload_headers() -> Seq<Seq<char>> {
    seq![
        "x-amz-server-side-encryption"@,
        "x-amz-server-side-encryption-aws-kms-key-id"@,
        "x-amz-server-side-encryption-context"@,
        "x-amz-server-side-encryption-customer-algorithm"@,
        "x-amz-server-side-encryption-customer-key"@,
        "x-amz-server-side-encryption-customer-key-md5"@,
        "x-amz-object-lock-mode"@,
        "x-amz-object-lock-retain-until-date"@,
        "x-amz-object-lock-legal-hold"@,
        "x-amz-website-redirect-location"@,
        "x-amz-copy-source"@,
        "x-amz-copy-source-if-match"@,
        "x-amz-copy-source-if-none-match"@,
        "x-amz-copy-source-if-modified-since"@,
        "x-amz-copy-source-if-unmodified-since"@,
        "x-amz-copy-source-range"@,
    ]
}

/// The error of the first of some names that is a header field.
pub open spec fn upload_header_error(
    headers: Seq<(Seq<char>, Seq<u8>)>,
    names: Seq<Seq<char>>,
) -> Option<ErrorView>
    decreases names.len(),
{
    if names.len() == 0 {
        None
    } else if has_field(headers, names[0]) {
        Some(invalid_request("Unsupported upload header: "@ + names[0]))
    } else {
        upload_header_error(headers, names.skip(1))
    }
}

fn list_unsupported_headers() -> (names: Vec<&'static str>)
    ensures
        names@.map_values(|name: &'static str| name@) == unsupported_upload_headers(),
{
    let names: Vec<&'static str> = vec![
        "x-amz-server-side-encryption",
        "x-amz-server-side-encryption-aws-kms-key-id",
        "x-amz-server-side-encryption-context",
        "x-amz-server-side-encryption-customer-algorithm",
        "x-amz-server-side-encryption-customer-key",
        "x-amz-server-side-encryption-customer-key-md5",
        "x-amz-object-lock-mode",
        "x-amz-object-lock-retain-until-date",
        "x-amz-object-lock-legal-hold",
        "x-amz-website-redirect-location",
        "x-amz-copy-source",
        "x-amz-copy-source-if-match",
        "x-amz-copy-source-if-none-match",
        "x-amz-copy-source-if-modified-since",
        "x-amz-copy-source-if-unmodified-since",
        "x-amz-copy-source-range",
    ];
    assert(names@.map_values(|name: &'static str| name@) =~= unsupported_upload_headers());
    names
}

/// Rejects uploads that ask for features which the endpoint does not support.
pub fn validate_upload_headers(headers: &HeaderMap) -> (result: Result<(), S3Error>)
    ensures
        failure(result) == upload_header_error(headers@, unsupported_upload_headers()),
{
    let names = list_unsupported_headers();
    let ghost all = unsupported_upload_headers();
    let mut i: usize = 0;
    assert(all.skip(0) =~= all);
    while i < names.len()
        invariant
            i <= names@.len(),
            all == unsupported_upload_headers(),
            names@.map_values(|name: &'static str| name@) == all,
            upload_header_error(headers@, all) == upload_header_error(headers@, all.skip(i as int)),
        decreases names.len() - i,
    {
        let name = names[i];
        proof {
            assert(all[i as int] == names@[i as int]@);
            assert(all.skip(i as int)[0] == name@);
            assert(all.skip(i as int).skip(1) =~= all.skip(i + 1));
        }
        if headers.contains_key(name) {
            let message = "Unsupported upload header: ".to_owned().concat(name);
            return Err(S3Error::invalid_request(message.as_str()));
        }
        i += 1;
    }
    Ok(())
}

} // verus!
