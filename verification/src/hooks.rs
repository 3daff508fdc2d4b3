//! What embedding applications see of requests, and the decisions they can take.
use crate::config::{AccessKeyId, S3Action};
use crate::error::S3Error;
use crate::http::Method;
use crate::s3::types::{BucketName, ObjectKey, PartNumber, RequestId, S3Operation, UploadId};
use vstd::prelude::*;

verus! {

/// Authenticated principal visible to tuning hooks.
#[derive(Debug, PartialEq, Eq)]
pub enum RequestPrincipal {
    /// Anonymous request accepted by configuration.
    Anonymous,
    /// Signed request authenticated as an access key.
    AccessKey {
        /// Access key ID used by the request.
        access_key_id: AccessKeyId,
    },
    /// Principal named by an application-defined authentication provider.
    Custom {
        /// Name of the principal.
        id: String,
    },
}

/// A [`RequestPrincipal`] as a mathematical value.
pub enum PrincipalView {
    Anonymous,
    AccessKey { access_key_id: Seq<char> },
    Custom { id: Seq<char> },
}

impl View for RequestPrincipal {
    type V = PrincipalView;

    open spec fn view(&self) -> PrincipalView {
        match self {
            RequestPrincipal::Anonymous => PrincipalView::Anonymous,
            RequestPrincipal::AccessKey { access_key_id } => PrincipalView::AccessKey {
                access_key_id: access_key_id@,
            },
            RequestPrincipal::Custom { id } => PrincipalView::Custom { id: id@ },
        }
    }
}

impl Clone for RequestPrincipal {
    fn clone(&self) -> (copy: Self)
        ensures
            copy@ == self@,
    {
        match self {
            RequestPrincipal::Anonymous => RequestPrincipal::Anonymous,
            RequestPrincipal::AccessKey { access_key_id } => RequestPrincipal::AccessKey {
                access_key_id: access_key_id.clone(),
            },
            RequestPrincipal::Custom { id } => RequestPrincipal::Custom { id: id.clone() },
        }
    }
}

/// The text that names a principal.
pub open spec fn principal_text(principal: PrincipalView) -> Seq<char> {
    match principal {
        PrincipalView::Anonymous => "anonymous"@,
        PrincipalView::AccessKey { access_key_id } => access_key_id,
        PrincipalView::Custom { id } => id,
    }
}

impl RequestPrincipal {
    /// The text that names the principal in diagnostics.
    pub fn to_text(&self) -> (text: String)
        ensures
            text@ == principal_text(self@),
    {
        match self {
            RequestPrincipal::Anonymous => "anonymous".to_owned(),
            RequestPrincipal::AccessKey { access_key_id } => access_key_id.as_str().to_owned(),
            RequestPrincipal::Custom { id } => id.clone(),
        }
    }
}

/// Read-only S3 request metadata passed to request observers.
#[derive(Debug, PartialEq, Eq)]
pub struct S3RequestContext {
    /// Request ID attached to this request.
    pub request_id: RequestId,
    /// HTTP method.
    pub method: Method,
    /// Detected S3 operation name or `InvalidRequest`.
    pub operation: String,
    /// Parsed bucket when target parsing succeeded.
    pub bucket: Option<BucketName>,
    /// Parsed object key when target parsing succeeded.
    pub key: Option<ObjectKey>,
    /// Multipart upload ID when present in the request query.
    pub upload_id: Option<UploadId>,
    /// Multipart part number when present in the request query.
    pub part_number: Option<PartNumber>,
    /// Raw request content length when provided.
    pub content_length: Option<u64>,
}

/// Error mapping context passed before an S3 XML error response is built.
#[derive(Debug, PartialEq, Eq)]
pub struct S3ErrorContext {
    /// Request ID attached to this request.
    pub request_id: RequestId,
    /// Detected S3 operation name or `InvalidRequest`.
    pub operation: String,
}

/// Response mapping context passed before a response is sent.
#[derive(Debug, PartialEq, Eq)]
pub struct S3ResponseContext {
    /// Request ID attached to this request.
    pub request_id: RequestId,
    /// Detected S3 operation name or `InvalidRequest`.
    pub operation: String,
    /// Parsed bucket when target parsing succeeded.
    pub bucket: Option<BucketName>,
    /// Parsed object key when target parsing succeeded.
    pub key: Option<ObjectKey>,
}

/// Operation context passed to the application before a request is authenticated.
#[derive(Debug)]
pub struct OperationContext {
    /// S3 action of the request.
    pub action: S3Action,
    /// Operation that the request asks for.
    pub operation: S3Operation,
}

/// What an application that limits its tenants sees of an authenticated request.
#[derive(Debug)]
pub struct TenantLimitContext {
    /// Request ID attached to this request.
    pub request_id: RequestId,
    /// The tenant that the principal belongs to.
    pub tenant: String,
    /// Authenticated principal.
    pub principal: RequestPrincipal,
    /// HTTP method.
    pub method: Method,
    /// S3 action of the request.
    pub action: S3Action,
    /// Operation that the request asks for.
    pub operation: S3Operation,
    /// Parsed bucket when target parsing succeeded.
    pub bucket: Option<BucketName>,
    /// Parsed object key when target parsing succeeded.
    pub key: Option<ObjectKey>,
    /// Multipart upload ID when present in the request query.
    pub upload_id: Option<UploadId>,
    /// Multipart part number when present in the request query.
    pub part_number: Option<PartNumber>,
    /// Raw request content length when provided.
    pub content_length: Option<u64>,
}

/// What the application says of the tenant of an authenticated request.
#[derive(Debug)]
pub enum TenantAnswer {
    /// The operation may go on.
    Begun,
    /// The principal belongs to no tenant.
    InvalidPrincipal,
    /// The operation is refused with an error.
    Refused(S3Error),
}

/// How an operation of a tenant ended.
#[derive(Debug, PartialEq, Eq)]
pub enum TenantOperationOutcome {
    /// It was answered.
    Success {
        /// HTTP status of the answer.
        status: u16,
        /// The number of decoded body bytes, where a body was received.
        decoded_bytes: Option<u64>,
    },
    /// It failed with an error.
    Error {
        /// HTTP status of the error.
        status: u16,
        /// S3 code of the error.
        code: String,
    },
    /// It took longer than the tenant was given.
    TimedOut {
        /// HTTP status of the error.
        status: u16,
        /// S3 code of the error.
        code: String,
    },
}

/// Authorization context passed to custom authorization policies.
#[derive(Debug, PartialEq, Eq)]
pub struct AuthorizationContext {
    /// Authenticated principal.
    pub principal: RequestPrincipal,
    /// Bucket being authorized.
    pub bucket: BucketName,
    /// Object key being authorized when the operation targets an object.
    pub key: Option<ObjectKey>,
    /// S3 action being authorized.
    pub action: S3Action,
}

/// Target context passed to the application before a bucket or an object is accessed.
#[derive(Debug, PartialEq, Eq)]
pub struct TargetContext {
    /// Bucket that the request names.
    pub bucket: BucketName,
    /// Object key when the operation targets an object.
    pub key: Option<ObjectKey>,
    /// S3 action of the request.
    pub action: S3Action,
}

/// What an application-defined authentication provider accepts a request as.
#[derive(Debug, PartialEq, Eq)]
pub struct AuthenticationResult {
    /// Authenticated principal.
    pub principal: RequestPrincipal,
    /// Access key that owns what the request creates, if any.
    pub access_key_id: Option<AccessKeyId>,
}

impl AuthenticationResult {
    /// Accepts a request as a principal that the application names.
    pub fn custom(id: &str) -> (result: Self)
        ensures
            result.principal@ == (PrincipalView::Custom { id: id@ }),
            result.access_key_id is None,
    {
        AuthenticationResult {
            principal: RequestPrincipal::Custom { id: id.to_owned() },
            access_key_id: None,
        }
    }

    /// The principal and the access key.
    pub fn into_parts(self) -> (parts: (RequestPrincipal, Option<AccessKeyId>))
        ensures
            parts == (self.principal, self.access_key_id),
    {
        (self.principal, self.access_key_id)
    }
}

/// Creates request IDs for S3 responses and hooks.
pub trait RequestIdFactory: Send + Sync + 'static {
    /// Creates a request ID.
    fn request_id(&self) -> RequestId;
}

/// Filter that the application applies to operations before a request is authenticated.
pub trait OperationFilter: Send + Sync + 'static {
    /// Returns `Ok(())` to let the request go on or an S3 error to refuse it.
    fn allow_operation(&self, context: OperationContext) -> Result<(), S3Error>;
}

/// Filter that the application applies to targets before any allow-list is consulted.
pub trait TargetFilter: Send + Sync + 'static {
    /// Returns `Ok(())` to let the request go on or an S3 error to refuse it.
    fn allow_target(&self, context: TargetContext) -> Result<(), S3Error>;
}

/// Additional authorization policy evaluated after static allow-lists.
pub trait AuthorizationPolicy: Send + Sync + 'static {
    /// Returns `Ok(())` to allow the request or an S3 error to deny it.
    fn authorize(&self, context: AuthorizationContext) -> Result<(), S3Error>;
}

} // verus!
