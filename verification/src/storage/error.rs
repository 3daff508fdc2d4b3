//! Errors of the stores.
use crate::error::{
    entity_too_large, entity_too_small, internal, invalid_part, no_such_key, no_such_upload,
    ErrorView, S3Error,
};
use vstd::prelude::*;

verus! {

/// Errors returned by object and multipart stores.
#[derive(Debug)]
pub enum StoreError {
    /// Filesystem I/O failed; the text says how.
    Io(String),
    /// Persisted JSON metadata could not be encoded or decoded; the text says how.
    Json(String),
    /// A persisted file path did not match the expected storage layout.
    InvalidPath(String),
    /// An upload ID was not a canonical UUID path segment.
    InvalidUploadId,
    /// The requested multipart upload does not exist or is no longer open.
    NoSuchUpload,
    /// The requested multipart part is missing, duplicated, or inconsistent.
    InvalidPart,
    /// A non-final multipart part is below the configured minimum size.
    EntityTooSmall,
    /// An object, part, or completed multipart object exceeds configured limits.
    EntityTooLarge,
    /// Final object checksum validation failed.
    Checksum(S3Error),
    /// Upload middleware rejected or failed a staged object.
    Processor(S3Error),
}

/// A [`StoreError`] as a mathematical value.
#[verifier::ext_equal]
pub enum StoreErrorView {
    Io(Seq<char>),
    Json(Seq<char>),
    InvalidPath(Seq<char>),
    InvalidUploadId,
    NoSuchUpload,
    InvalidPart,
    EntityTooSmall,
    EntityTooLarge,
    Checksum(ErrorView),
    Processor(ErrorView),
}

impl View for StoreError {
    type V = StoreErrorView;

    open spec fn view(&self) -> StoreErrorView {
        match self {
            StoreError::Io(text) => StoreErrorView::Io(text@),
            StoreError::Json(text) => StoreErrorView::Json(text@),
            StoreError::InvalidPath(path) => StoreErrorView::InvalidPath(path@),
            StoreError::InvalidUploadId => StoreErrorView::InvalidUploadId,
            StoreError::NoSuchUpload => StoreErrorView::NoSuchUpload,
            StoreError::InvalidPart => StoreErrorView::InvalidPart,
            StoreError::EntityTooSmall => StoreErrorView::EntityTooSmall,
            StoreError::EntityTooLarge => StoreErrorView::EntityTooLarge,
            StoreError::Checksum(error) => StoreErrorView::Checksum(error@),
            StoreError::Processor(error) => StoreErrorView::Processor(error@),
        }
    }
}

/// What a store error says.
pub open spec fn store_error_message(error: StoreErrorView) -> Seq<char> {
    match error {
        StoreErrorView::Io(_) => "storage I/O failed"@,
        StoreErrorView::Json(_) => "failed to encode or decode storage metadata"@,
        StoreErrorView::InvalidPath(path) => "invalid storage path: "@ + path,
        StoreErrorView::InvalidUploadId => "invalid upload ID"@,
        StoreErrorView::NoSuchUpload => "multipart upload does not exist"@,
        StoreErrorView::InvalidPart => "multipart upload part is invalid"@,
        StoreErrorView::EntityTooSmall => "multipart upload part is smaller than the minimum allowed size"@,
        StoreErrorView::EntityTooLarge => "entity is larger than the maximum allowed size"@,
        StoreErrorView::Checksum(_) => "checksum validation failed"@,
        StoreErrorView::Processor(_) => "upload processor failed"@,
    }
}

impl StoreError {
    /// What the error says.
    pub fn message(&self) -> (message: String)
        ensures
            message@ == store_error_message(self@),
    {
        match self {
            StoreError::Io(_) => "storage I/O failed".to_owned(),
            StoreError::Json(_) => "failed to encode or decode storage metadata".to_owned(),
            StoreError::InvalidPath(path) => "invalid storage path: ".to_owned().concat(
                path.as_str(),
            ),
            StoreError::InvalidUploadId => "invalid upload ID".to_owned(),
            StoreError::NoSuchUpload => "multipart upload does not exist".to_owned(),
            StoreError::InvalidPart => "multipart upload part is invalid".to_owned(),
            StoreError::EntityTooSmall => "multipart upload part is smaller than the minimum allowed size".to_owned(),
            StoreError::EntityTooLarge => "entity is larger than the maximum allowed size".to_owned(),
            StoreError::Checksum(_) => "checksum validation failed".to_owned(),
            StoreError::Processor(_) => "upload processor failed".to_owned(),
        }
    }
}

/// The error with which a client is answered when a multipart store fails.
pub open spec fn store_error_response(error: StoreErrorView) -> ErrorView {
    match error {
        StoreErrorView::NoSuchUpload => no_such_upload(),
        StoreErrorView::InvalidPart => invalid_part(
            "One or more parts could not be found or the ETag did not match."@,
        ),
        StoreErrorView::EntityTooSmall => entity_too_small(
            "Your proposed upload is smaller than the minimum allowed object size."@,
        ),
        StoreErrorView::EntityTooLarge => entity_too_large(
            "Your proposed upload exceeds the maximum allowed size."@,
        ),
        StoreErrorView::Checksum(inner) => inner,
        StoreErrorView::Processor(inner) => inner,
        _ => internal("storage operation failed: "@ + store_error_message(error)),
    }
}

/// Turns an error of a multipart store into the error with which the client is answered.
pub fn map_store_error(error: StoreError) -> (response: S3Error)
    ensures
        response@ == store_error_response(error@),
{
    match error {
        StoreError::NoSuchUpload => S3Error::no_such_upload(),
        StoreError::InvalidPart => S3Error::invalid_part(
            "One or more parts could not be found or the ETag did not match.",
        ),
        StoreError::EntityTooSmall => S3Error::entity_too_small(
            "Your proposed upload is smaller than the minimum allowed object size.",
        ),
        StoreError::EntityTooLarge => S3Error::entity_too_large(
            "Your proposed upload exceeds the maximum allowed size.",
        ),
        StoreError::Checksum(inner) => inner,
        StoreError::Processor(inner) => inner,
        other => {
            let message = "storage operation failed: ".to_owned().concat(other.message().as_str());
            S3Error::internal(message.as_str())
        },
    }
}

/// What a client is answered where the store failed at something.
pub open spec fn failed_to(action: Seq<char>, error: StoreErrorView) -> ErrorView {
    internal("failed to "@ + action + ": "@ + store_error_message(error))
}

/// Answers a client where the store failed at something.
pub fn store_failure(action: &str, error: &StoreError) -> (response: S3Error)
    ensures
        response@ == failed_to(action@, error@),
{
    let mut text = "failed to ".to_owned();
    text.append(action);
    text.append(": ");
    text.append(error.message().as_str());
    S3Error::internal(text.as_str())
}

/// Answers a client that asks for an object: one that does not exist is missed, and a store that
/// failed says at what.
pub fn found_object<T>(found: Result<Option<T>, StoreError>, action: &str) -> (result: Result<
    T,
    S3Error,
>)
    ensures
        match found {
            Ok(Some(object)) => result == Ok::<T, S3Error>(object),
            Ok(None) => result is Err && result->Err_0@ == no_such_key(),
            Err(error) => result is Err && result->Err_0@ == failed_to(action@, error@),
        },
{
    match found {
        Ok(Some(object)) => Ok(object),
        Ok(None) => Err(S3Error::no_such_key()),
        Err(error) => Err(store_failure(action, &error)),
    }
}

} // verus!
