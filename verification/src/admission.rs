//! Bounded admission of requests and uploads.
use crate::body::payload::{is_aws_chunked, is_aws_chunked_request};
use crate::config::ValidatedUploadLimits;
use crate::error::{slow_down, ErrorView, S3Error};
use crate::http::HeaderMap;
use std::sync::Arc;
use vstd::prelude::*;

verus! {

#[verifier::external_type_specification]
#[verifier::external_body]
pub struct ExSemaphore(tokio::sync::Semaphore);

#[verifier::external_type_specification]
#[verifier::external_body]
pub struct ExOwnedSemaphorePermit(tokio::sync::OwnedSemaphorePermit);

/// The number of permits with which a semaphore was made.
pub uninterp spec fn permits_of(semaphore: tokio::sync::Semaphore) -> nat;

/// The most permits that a semaphore can have.
pub open spec fn most_permits() -> nat {
    usize::MAX as nat / 8
}

/// Calls `tokio::sync::Semaphore::new`: a semaphore with a number of permits. It panics on more
/// than `Semaphore::MAX_PERMITS`, an eighth of the largest `usize`.
#[verifier::external_body]
fn new_semaphore(permits: usize) -> (semaphore: Arc<tokio::sync::Semaphore>)
    requires
        permits <= most_permits(),
    ensures
        permits_of(*semaphore) == permits,
{
    Arc::new(tokio::sync::Semaphore::new(permits))
}

/// The number of permits with which the semaphore of a permit was made.
pub uninterp spec fn bound_of(permit: tokio::sync::OwnedSemaphorePermit) -> nat;

/// Calls `tokio::sync::Semaphore::try_acquire_owned`: a permit of this semaphore, where one is free.
/// Whether one is depends on what other requests hold at the time, so that is left open.
#[verifier::external_body]
fn try_acquire(semaphore: &Arc<tokio::sync::Semaphore>) -> (permit: Option<
    tokio::sync::OwnedSemaphorePermit,
>)
    ensures
        permit is Some ==> bound_of(permit->0) == permits_of(**semaphore),
{
    Arc::clone(semaphore).try_acquire_owned().ok()
}

/// Admits a request that holds a permit, and refuses one that does not.
pub fn admission_result<P>(permit: Option<P>, message: &str) -> (result: Result<P, S3Error>)
    ensures
        match result {
            Ok(held) => permit == Some(held),
            Err(error) => permit is None && error@ == slow_down(message@),
        },
{
    match permit {
        Some(held) => Ok(held),
        None => Err(S3Error::slow_down(message)),
    }
}

/// The semaphores that bound what an endpoint does at the same time.
pub struct AdmissionControl {
    s3_requests: Arc<tokio::sync::Semaphore>,
    object_writers: Arc<tokio::sync::Semaphore>,
    multipart_part_writers: Arc<tokio::sync::Semaphore>,
    aws_chunked_decoders: Arc<tokio::sync::Semaphore>,
}

/// The bounds of an [`AdmissionControl`].
pub struct AdmissionView {
    pub s3_requests: nat,
    pub object_writers: nat,
    pub multipart_part_writers: nat,
    pub aws_chunked_decoders: nat,
}

impl View for AdmissionControl {
    type V = AdmissionView;

    closed spec fn view(&self) -> AdmissionView {
        AdmissionView {
            s3_requests: permits_of(*self.s3_requests),
            object_writers: permits_of(*self.object_writers),
            multipart_part_writers: permits_of(*self.multipart_part_writers),
            aws_chunked_decoders: permits_of(*self.aws_chunked_decoders),
        }
    }
}

/// What is said to a request of one too many.
pub open spec fn too_many_requests() -> ErrorView {
    slow_down("too many active S3 requests; retry the request"@)
}

/// What is said to an object upload of one too many.
pub open spec fn too_many_object_writers() -> ErrorView {
    slow_down("too many active object uploads; retry the request"@)
}

/// What is said to a part upload of one too many.
pub open spec fn too_many_part_writers() -> ErrorView {
    slow_down("too many active multipart part uploads; retry the request"@)
}

/// What is said to an aws-chunked upload of one too many.
pub open spec fn too_many_decoders() -> ErrorView {
    slow_down("too many active aws-chunked uploads; retry the request"@)
}

impl AdmissionControl {
    /// Bounds an endpoint by validated limits.
    pub fn new(limits: &ValidatedUploadLimits) -> (control: Self)
        requires
            limits@.max_concurrent_s3_requests <= most_permits(),
            limits@.max_active_object_writers <= most_permits(),
            limits@.max_active_multipart_part_writers <= most_permits(),
            limits@.max_active_aws_chunked_decoders <= most_permits(),
        ensures
            control@.s3_requests == limits@.max_concurrent_s3_requests,
            control@.object_writers == limits@.max_active_object_writers,
            control@.multipart_part_writers == limits@.max_active_multipart_part_writers,
            control@.aws_chunked_decoders == limits@.max_active_aws_chunked_decoders,
    {
        AdmissionControl {
            s3_requests: new_semaphore(limits.max_concurrent_s3_requests.get()),
            object_writers: new_semaphore(limits.max_active_object_writers.get()),
            multipart_part_writers: new_semaphore(limits.max_active_multipart_part_writers.get()),
            aws_chunked_decoders: new_semaphore(limits.max_active_aws_chunked_decoders.get()),
        }
    }

    /// Admits a request, where not too many are active: the permit is one of as many as
    /// the endpoint's limit allows.
    pub fn try_acquire_s3_request(&self) -> (result: Result<
        tokio::sync::OwnedSemaphorePermit,
        S3Error,
    >)
        ensures
            match result {
                Ok(permit) => bound_of(permit) == self@.s3_requests,
                Err(error) => error@ == too_many_requests(),
            },
    {
        admission_result(try_acquire(&self.s3_requests), "too many active S3 requests; retry the request")
    }

    /// Admits an object upload, where not too many are active: the permit is one of as many as
    /// the endpoint's limit allows.
    pub fn try_acquire_object_writer(&self) -> (result: Result<
        tokio::sync::OwnedSemaphorePermit,
        S3Error,
    >)
        ensures
            match result {
                Ok(permit) => bound_of(permit) == self@.object_writers,
                Err(error) => error@ == too_many_object_writers(),
            },
    {
        admission_result(
            try_acquire(&self.object_writers),
            "too many active object uploads; retry the request",
        )
    }

    /// Admits a part upload, where not too many are active: the permit is one of as many as
    /// the endpoint's limit allows.
    pub fn try_acquire_multipart_part_writer(&self) -> (result: Result<
        tokio::sync::OwnedSemaphorePermit,
        S3Error,
    >)
        ensures
            match result {
                Ok(permit) => bound_of(permit) == self@.multipart_part_writers,
                Err(error) => error@ == too_many_part_writers(),
            },
    {
        admission_result(
            try_acquire(&self.multipart_part_writers),
            "too many active multipart part uploads; retry the request",
        )
    }

    /// Admits an aws-chunked upload, where not too many are active. Other uploads need no permit.
    pub fn try_acquire_aws_chunked_decoder(&self, headers: &HeaderMap) -> (result: Result<
        Option<tokio::sync::OwnedSemaphorePermit>,
        S3Error,
    >)
        ensures
            match result {
                Ok(None) => !is_aws_chunked(headers@),
                Ok(Some(permit)) => is_aws_chunked(headers@) && bound_of(permit)
                    == self@.aws_chunked_decoders,
                Err(error) => is_aws_chunked(headers@) && error@ == too_many_decoders(),
            },
    {
        if !is_aws_chunked_request(headers) {
            return Ok(None);
        }
        match admission_result(
            try_acquire(&self.aws_chunked_decoders),
            "too many active aws-chunked uploads; retry the request",
        ) {
            Ok(permit) => Ok(Some(permit)),
            Err(error) => Err(error),
        }
    }
}

} // verus!
