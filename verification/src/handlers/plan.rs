//! From a request to what is done for it: every check that comes before anything is read or
//! stored, operation by operation.
use crate::auth::AuthContextView;
use crate::body::payload::failure;
use crate::config::{AccessKeyId, AuthStateView, S3Action};
use crate::error::{with_resource, ErrorView, S3Error};
use crate::handlers::{
    empty_body_error, upload_length_error, validate_empty_request_body_headers,
    validate_supported_request_body_length,
};
use crate::handlers::multipart::{
    completed_location, completion_location, list_parts_response, list_parts_xml, opt_session,
    requested_page, session_error, validate_upload_session_target, ListPartsPageRequest,
};
use crate::handlers::request::{
    access_error, authorize_request, bucket_of, empty_hash_error, filter_answers, hooks_answer,
    policy_answers, resolve_request_bucket, resolve_request_target, target_of,
    validate_empty_payload_hash, AccessView, Caller,
};
use crate::handlers::upload_metadata::{
    collect_upload_metadata, unsupported_upload_headers, upload_header_error, upload_metadata,
    validate_upload_headers,
};
use crate::hooks::{AuthorizationPolicy, TargetFilter};
use crate::http::{query_text, RequestView, S3Request};
use crate::response::{empty_answer, empty_response, xml_answer, S3Response, S3ResponseView};
use crate::s3::types::{
    OperationView, PartNumber, RequestId, S3Operation, S3Target, TargetView, UploadId,
};
use crate::storage::model::{
    opt_key_id, SessionView, UploadMetadata, UploadMetadataView, UploadSession,
};
use crate::storage::multipart::FileMultipartStore;
use crate::text::{opt_str, result_view};
use vstd::prelude::*;

verus! {

/// What is done for a request that passed every check.
#[derive(Debug, PartialEq, Eq)]
pub enum OperationPlan {
    /// The response is already known.
    Respond(S3Response),
    /// Read the metadata of an object and answer with it.
    DescribeObject(S3Target),
    /// Open an object and send it.
    SendObject(S3Target),
    /// Delete an object.
    DeleteObject(S3Target),
    /// Receive an object and store it.
    ReceiveObject {
        /// Where the object is stored.
        target: S3Target,
        /// The metadata that is stored with it.
        metadata: UploadMetadata,
    },
    /// Start a multipart upload.
    CreateUpload {
        /// Where the completed object will be stored.
        target: S3Target,
        /// The access key that owns the upload, if any.
        owner: Option<AccessKeyId>,
        /// The metadata that will be stored with the object.
        metadata: UploadMetadata,
    },
    /// Receive a part of a multipart upload and store it.
    ReceivePart {
        /// The upload.
        upload_id: UploadId,
        /// The part.
        part_number: PartNumber,
    },
    /// Read the body of a completion request and complete the upload.
    CompleteUpload {
        /// The upload.
        upload_id: UploadId,
        /// The location that the completed object is said to have.
        location: String,
    },
    /// Abort a multipart upload.
    AbortUpload(UploadId),
}

/// An [`OperationPlan`] as a mathematical value.
#[verifier::ext_equal]
pub enum PlanView {
    Respond(S3ResponseView),
    DescribeObject(TargetView),
    SendObject(TargetView),
    DeleteObject(TargetView),
    ReceiveObject { target: TargetView, metadata: UploadMetadataView },
    CreateUpload {
        target: TargetView,
        owner: Option<Seq<char>>,
        metadata: UploadMetadataView,
    },
    ReceivePart { upload_id: Seq<char>, part_number: nat },
    CompleteUpload { upload_id: Seq<char>, location: Seq<char> },
    AbortUpload(Seq<char>),
}

impl View for OperationPlan {
    type V = PlanView;

    open spec fn view(&self) -> PlanView {
        match self {
            OperationPlan::Respond(response) => PlanView::Respond(response@),
            OperationPlan::DescribeObject(target) => PlanView::DescribeObject(target@),
            OperationPlan::SendObject(target) => PlanView::SendObject(target@),
            OperationPlan::DeleteObject(target) => PlanView::DeleteObject(target@),
            OperationPlan::ReceiveObject { target, metadata } => PlanView::ReceiveObject {
                target: target@,
                metadata: metadata@,
            },
            OperationPlan::CreateUpload { target, owner, metadata } => PlanView::CreateUpload {
                target: target@,
                owner: opt_key_id(*owner),
                metadata: metadata@,
            },
            OperationPlan::ReceivePart { upload_id, part_number } => PlanView::ReceivePart {
                upload_id: upload_id@,
                part_number: part_number@,
            },
            OperationPlan::CompleteUpload { upload_id, location } => PlanView::CompleteUpload {
                upload_id: upload_id@,
                location: location@,
            },
            OperationPlan::AbortUpload(upload_id) => PlanView::AbortUpload(upload_id@),
        }
    }
}

/// Everything that decides about a request: the request itself, the endpoint's domain, who sent it,
/// the upload it names, and what the application's hooks say.
pub struct Situation {
    pub request: RequestView,
    pub base_domain: Option<Seq<char>>,
    pub auth: AuthStateView,
    pub context: AuthContextView,
    pub session: Option<SessionView>,
    pub request_id: Seq<char>,
    pub filtered: Option<ErrorView>,
    pub decided: Option<ErrorView>,
}

/// The error of an access to a bucket.
pub open spec fn denied(s: Situation, bucket: Seq<char>, action: S3Action) -> Option<ErrorView> {
    access_error(s.auth, s.context, bucket, action, s.filtered, s.decided)
}

/// The target of an operation on a stored object: it is resolved, the access is authorized, and the
/// request must have no body.
pub open spec fn object_access(s: Situation, action: S3Action) -> Result<TargetView, ErrorView> {
    match target_of(s.request, s.base_domain) {
        Err(error) => Err(error),
        Ok(target) => match denied(s, target.bucket, action) {
            Some(error) => Err(error),
            None => match empty_hash_error(s.request.headers) {
                Some(error) => Err(error),
                None => Ok(target),
            },
        },
    }
}

/// The plan of `HeadBucket`.
pub open spec fn head_bucket_plan(s: Situation) -> Result<PlanView, ErrorView> {
    match bucket_of(s.request, s.base_domain) {
        Err(error) => Err(error),
        Ok(bucket) => match denied(s, bucket, S3Action::HeadBucket) {
            Some(error) => Err(error),
            None => match empty_hash_error(s.request.headers) {
                Some(error) => Err(error),
                None => Ok(PlanView::Respond(empty_answer(200, s.request_id))),
            },
        },
    }
}

/// The plan of `PutObject`.
pub open spec fn put_object_plan(s: Situation) -> Result<PlanView, ErrorView> {
    match target_of(s.request, s.base_domain) {
        Err(error) => Err(error),
        Ok(target) => match upload_length_error(s.request.headers) {
            Some(error) => Err(with_resource(error, s.request.path)),
            None => match upload_header_error(s.request.headers, unsupported_upload_headers()) {
                Some(error) => Err(error),
                None => match denied(s, target.bucket, S3Action::PutObject) {
                    Some(error) => Err(error),
                    None => match upload_metadata(s.request.headers) {
                        Err(error) => Err(error),
                        Ok(metadata) => Ok(PlanView::ReceiveObject { target, metadata }),
                    },
                },
            },
        },
    }
}

/// The plan of `CreateMultipartUpload`.
pub open spec fn create_upload_plan(s: Situation) -> Result<PlanView, ErrorView> {
    match empty_body_error(s.request.headers, "CreateMultipartUpload"@) {
        Some(error) => Err(error),
        None => match upload_header_error(s.request.headers, unsupported_upload_headers()) {
            Some(error) => Err(error),
            None => match empty_hash_error(s.request.headers) {
                Some(error) => Err(error),
                None => match target_of(s.request, s.base_domain) {
                    Err(error) => Err(error),
                    Ok(target) => match denied(
                        s,
                        target.bucket,
                        S3Action::CreateMultipartUpload,
                    ) {
                        Some(error) => Err(error),
                        None => match upload_metadata(s.request.headers) {
                            Err(error) => Err(error),
                            Ok(metadata) => Ok(
                                PlanView::CreateUpload {
                                    target,
                                    owner: s.context.access_key_id,
                                    metadata,
                                },
                            ),
                        },
                    },
                },
            },
        },
    }
}

/// The error of an access to an upload: it must be one that the request may touch, and the action
/// must be allowed on its bucket.
pub open spec fn upload_denied(s: Situation, action: S3Action) -> Option<ErrorView> {
    match session_error(s.session, s.request, s.base_domain, s.context) {
        Some(error) => Some(error),
        None => denied(s, s.session->0.bucket, action),
    }
}

/// The plan of `UploadPart`.
pub open spec fn upload_part_plan(s: Situation, upload_id: Seq<char>, part_number: nat) -> Result<
    PlanView,
    ErrorView,
> {
    match upload_length_error(s.request.headers) {
        Some(error) => Err(error),
        None => match upload_header_error(s.request.headers, unsupported_upload_headers()) {
            Some(error) => Err(error),
            None => match upload_denied(s, S3Action::UploadPart) {
                Some(error) => Err(error),
                None => Ok(PlanView::ReceivePart { upload_id, part_number }),
            },
        },
    }
}

/// The plan of `ListParts`.
pub open spec fn list_parts_plan(s: Situation) -> Result<PlanView, ErrorView> {
    match requested_page(query_text(s.request)) {
        Err(error) => Err(error),
        Ok((max, marker)) => match upload_denied(s, S3Action::ListMultipartUploadParts) {
            Some(error) => Err(error),
            None => match empty_hash_error(s.request.headers) {
                Some(error) => Err(error),
                None => Ok(
                    PlanView::Respond(
                        xml_answer(
                            200,
                            s.request_id,
                            list_parts_xml(s.session->0, max, marker),
                        ),
                    ),
                ),
            },
        },
    }
}

/// The plan of `AbortMultipartUpload`.
pub open spec fn abort_upload_plan(s: Situation, upload_id: Seq<char>) -> Result<
    PlanView,
    ErrorView,
> {
    match empty_body_error(s.request.headers, "AbortMultipartUpload"@) {
        Some(error) => Err(error),
        None => match upload_denied(s, S3Action::AbortMultipartUpload) {
            Some(error) => Err(error),
            None => match empty_hash_error(s.request.headers) {
                Some(error) => Err(error),
                None => Ok(PlanView::AbortUpload(upload_id)),
            },
        },
    }
}

/// The plan of `CompleteMultipartUpload`.
pub open spec fn complete_upload_plan(s: Situation, upload_id: Seq<char>) -> Result<
    PlanView,
    ErrorView,
> {
    match upload_denied(s, S3Action::CompleteMultipartUpload) {
        Some(error) => Err(error),
        None => Ok(
            PlanView::CompleteUpload { upload_id, location: completed_location(s.request) },
        ),
    }
}

/// What is done for a request, or the error with which it is answered.
pub open spec fn operation_plan(s: Situation, operation: OperationView) -> Result<
    PlanView,
    ErrorView,
> {
    match operation {
        OperationView::HeadObject => match object_access(s, S3Action::HeadObject) {
            Err(error) => Err(error),
            Ok(target) => Ok(PlanView::DescribeObject(target)),
        },
        OperationView::GetObject => match object_access(s, S3Action::GetObject) {
            Err(error) => Err(error),
            Ok(target) => Ok(PlanView::SendObject(target)),
        },
        OperationView::DeleteObject => match object_access(s, S3Action::DeleteObject) {
            Err(error) => Err(error),
            Ok(target) => Ok(PlanView::DeleteObject(target)),
        },
        OperationView::HeadBucket => head_bucket_plan(s),
        OperationView::PutObject => put_object_plan(s),
        OperationView::CreateMultipartUpload => create_upload_plan(s),
        OperationView::UploadPart { upload_id, part_number } => upload_part_plan(
            s,
            upload_id,
            part_number,
        ),
        OperationView::ListParts { upload_id } => list_parts_plan(s),
        OperationView::AbortMultipartUpload { upload_id } => abort_upload_plan(s, upload_id),
        OperationView::CompleteMultipartUpload { upload_id } => complete_upload_plan(s, upload_id),
    }
}

/// The situation of a request before the hooks are asked.
pub open spec fn situation(
    request: RequestView,
    base_domain: Option<Seq<char>>,
    auth: AuthStateView,
    context: AuthContextView,
    session: Option<SessionView>,
    request_id: Seq<char>,
) -> Situation {
    Situation {
        request,
        base_domain,
        auth,
        context,
        session,
        request_id,
        filtered: None,
        decided: None,
    }
}

/// A situation with the answers of the hooks.
pub open spec fn with_answers(
    s: Situation,
    filtered: Option<ErrorView>,
    decided: Option<ErrorView>,
) -> Situation {
    Situation { filtered, decided, ..s }
}

// ---------------------------------------------------------------------------------------------
// What the hooks are asked about
// ---------------------------------------------------------------------------------------------
/// The access of an operation on a stored object.
pub open spec fn object_accessed(s: Situation, action: S3Action) -> Option<AccessView> {
    match target_of(s.request, s.base_domain) {
        Err(_) => None,
        Ok(target) => Some(AccessView { bucket: target.bucket, key: Some(target.key), action }),
    }
}

/// The access of `HeadBucket`.
pub open spec fn bucket_accessed(s: Situation) -> Option<AccessView> {
    match bucket_of(s.request, s.base_domain) {
        Err(_) => None,
        Ok(bucket) => Some(AccessView { bucket, key: None, action: S3Action::HeadBucket }),
    }
}

/// The access of `PutObject`, where nothing is wrong with the headers.
pub open spec fn put_accessed(s: Situation) -> Option<AccessView> {
    if upload_length_error(s.request.headers) is None && upload_header_error(
        s.request.headers,
        unsupported_upload_headers(),
    ) is None {
        object_accessed(s, S3Action::PutObject)
    } else {
        None
    }
}

/// The access of `CreateMultipartUpload`, where nothing is wrong with the headers.
pub open spec fn create_accessed(s: Situation) -> Option<AccessView> {
    if empty_body_error(s.request.headers, "CreateMultipartUpload"@) is None
        && upload_header_error(s.request.headers, unsupported_upload_headers()) is None
        && empty_hash_error(s.request.headers) is None {
        object_accessed(s, S3Action::CreateMultipartUpload)
    } else {
        None
    }
}

/// The access of an operation on a multipart upload that the request may touch.
pub open spec fn upload_accessed(s: Situation, action: S3Action) -> Option<AccessView> {
    if session_error(s.session, s.request, s.base_domain, s.context) is None {
        Some(AccessView { bucket: s.session->0.bucket, key: Some(s.session->0.key), action })
    } else {
        None
    }
}

/// The access of `UploadPart`, where nothing is wrong with the headers.
pub open spec fn part_accessed(s: Situation) -> Option<AccessView> {
    if upload_length_error(s.request.headers) is None && upload_header_error(
        s.request.headers,
        unsupported_upload_headers(),
    ) is None {
        upload_accessed(s, S3Action::UploadPart)
    } else {
        None
    }
}

/// The access of `ListParts`, where nothing is wrong with the query.
pub open spec fn list_accessed(s: Situation) -> Option<AccessView> {
    if requested_page(query_text(s.request)) is Ok {
        upload_accessed(s, S3Action::ListMultipartUploadParts)
    } else {
        None
    }
}

/// The access of `AbortMultipartUpload`, where nothing is wrong with the headers.
pub open spec fn abort_accessed(s: Situation) -> Option<AccessView> {
    if empty_body_error(s.request.headers, "AbortMultipartUpload"@) is None {
        upload_accessed(s, S3Action::AbortMultipartUpload)
    } else {
        None
    }
}

/// The access that the hooks are asked about for an operation: none where the request is refused
/// before.
pub open spec fn operation_access(s: Situation, operation: OperationView) -> Option<AccessView> {
    match operation {
        OperationView::HeadObject => object_accessed(s, S3Action::HeadObject),
        OperationView::GetObject => object_accessed(s, S3Action::GetObject),
        OperationView::DeleteObject => object_accessed(s, S3Action::DeleteObject),
        OperationView::HeadBucket => bucket_accessed(s),
        OperationView::PutObject => put_accessed(s),
        OperationView::CreateMultipartUpload => create_accessed(s),
        OperationView::UploadPart { .. } => part_accessed(s),
        OperationView::ListParts { .. } => list_accessed(s),
        OperationView::AbortMultipartUpload { .. } => abort_accessed(s),
        OperationView::CompleteMultipartUpload { .. } => upload_accessed(
            s,
            S3Action::CompleteMultipartUpload,
        ),
    }
}

/// The upload with an ID.
pub open spec fn session_of(
    sessions: Map<Seq<char>, SessionView>,
    upload_id: Seq<char>,
) -> Option<SessionView> {
    if sessions.dom().contains(upload_id) {
        Some(sessions[upload_id])
    } else {
        None
    }
}

/// The upload that an operation names.
pub open spec fn named_session(
    sessions: Map<Seq<char>, SessionView>,
    operation: OperationView,
) -> Option<SessionView> {
    match operation {
        OperationView::UploadPart { upload_id, .. } => session_of(sessions, upload_id),
        OperationView::ListParts { upload_id } => session_of(sessions, upload_id),
        OperationView::AbortMultipartUpload { upload_id } => session_of(sessions, upload_id),
        OperationView::CompleteMultipartUpload { upload_id } => session_of(sessions, upload_id),
        _ => None,
    }
}

/// Whether an operation came out as it must: the hooks were asked about the operation's access, and
/// with their answers the result is the operation's plan.
#[verifier::opaque]
pub open spec fn is_planned<P: AuthorizationPolicy, F: TargetFilter>(
    filter: Option<&F>,
    policy: Option<&P>,
    s: Situation,
    operation: OperationView,
    result: Result<PlanView, ErrorView>,
) -> bool {
    exists|filtered: Option<ErrorView>, decided: Option<ErrorView>| #[trigger]
        hooks_answer(
            filter,
            policy,
            s.auth,
            s.context,
            operation_access(s, operation),
            filtered,
            decided,
        ) && result == operation_plan(with_answers(s, filtered, decided), operation)
}

// ---------------------------------------------------------------------------------------------
// Checks
// ---------------------------------------------------------------------------------------------
fn access_object<P: AuthorizationPolicy, F: TargetFilter>(
    request: &S3Request,
    base_domain: Option<&str>,
    caller: &Caller<'_, P, F>,
    action: S3Action,
    Ghost(request_id): Ghost<Seq<char>>,
) -> (result: Result<S3Target, S3Error>)
    ensures
        ({
            let s = situation(
                request@,
                opt_str(base_domain),
                caller.auth@,
                caller.context@,
                None,
                request_id,
            );
            exists|filtered: Option<ErrorView>, decided: Option<ErrorView>| #[trigger]
                hooks_answer(
                    caller.filter,
                    caller.policy,
                    s.auth,
                    s.context,
                    object_accessed(s, action),
                    filtered,
                    decided,
                )
                    && result_view(result) == object_access(
                    with_answers(s, filtered, decided),
                    action,
                )
        }),
{
    let ghost s = situation(
        request@,
        opt_str(base_domain),
        caller.auth@,
        caller.context@,
        None,
        request_id,
    );
    assert(hooks_answer(caller.filter, caller.policy, s.auth, s.context, None, None, None));
    let target = match resolve_request_target(request, base_domain) {
        Ok(target) => target,
        Err(error) => {
            return Err(error);
        },
    };
    match authorize_request(caller, &target.bucket, Some(&target.key), action) {
        Ok(()) => {},
        Err(error) => {
            return Err(error);
        },
    }
    match validate_empty_payload_hash(&request.headers) {
        Ok(()) => Ok(target),
        Err(error) => Err(error),
    }
}

/// Checks a `HeadObject` request.
pub fn head_object<P: AuthorizationPolicy, F: TargetFilter>(
    request: &S3Request,
    base_domain: Option<&str>,
    caller: &Caller<'_, P, F>,
    request_id: &RequestId,
) -> (result: Result<OperationPlan, S3Error>)
    ensures
        is_planned(
            caller.filter,
            caller.policy,
            situation(
                request@,
                opt_str(base_domain),
                caller.auth@,
                caller.context@,
                None,
                request_id@,
            ),
            OperationView::HeadObject,
            result_view(result),
        ),
{
    reveal(is_planned);
    match access_object(request, base_domain, caller, S3Action::HeadObject, Ghost(request_id@)) {
        Ok(target) => Ok(OperationPlan::DescribeObject(target)),
        Err(error) => Err(error),
    }
}

/// Checks a `GetObject` request.
pub fn get_object<P: AuthorizationPolicy, F: TargetFilter>(
    request: &S3Request,
    base_domain: Option<&str>,
    caller: &Caller<'_, P, F>,
    request_id: &RequestId,
) -> (result: Result<OperationPlan, S3Error>)
    ensures
        is_planned(
            caller.filter,
            caller.policy,
            situation(
                request@,
                opt_str(base_domain),
                caller.auth@,
                caller.context@,
                None,
                request_id@,
            ),
            OperationView::GetObject,
            result_view(result),
        ),
{
    reveal(is_planned);
    match access_object(request, base_domain, caller, S3Action::GetObject, Ghost(request_id@)) {
        Ok(target) => Ok(OperationPlan::SendObject(target)),
        Err(error) => Err(error),
    }
}

/// Checks a `DeleteObject` request.
pub fn delete_object<P: AuthorizationPolicy, F: TargetFilter>(
    request: &S3Request,
    base_domain: Option<&str>,
    caller: &Caller<'_, P, F>,
    request_id: &RequestId,
) -> (result: Result<OperationPlan, S3Error>)
    ensures
        is_planned(
            caller.filter,
            caller.policy,
            situation(
                request@,
                opt_str(base_domain),
                caller.auth@,
                caller.context@,
                None,
                request_id@,
            ),
            OperationView::DeleteObject,
            result_view(result),
        ),
{
    reveal(is_planned);
    match access_object(request, base_domain, caller, S3Action::DeleteObject, Ghost(request_id@)) {
        Ok(target) => Ok(OperationPlan::DeleteObject(target)),
        Err(error) => Err(error),
    }
}

/// Checks a `HeadBucket` request.
pub fn head_bucket<P: AuthorizationPolicy, F: TargetFilter>(
    request: &S3Request,
    base_domain: Option<&str>,
    caller: &Caller<'_, P, F>,
    request_id: &RequestId,
) -> (result: Result<OperationPlan, S3Error>)
    ensures
        is_planned(
            caller.filter,
            caller.policy,
            situation(
                request@,
                opt_str(base_domain),
                caller.auth@,
                caller.context@,
                None,
                request_id@,
            ),
            OperationView::HeadBucket,
            result_view(result),
        ),
{
    reveal(is_planned);
    let ghost s = situation(
        request@,
        opt_str(base_domain),
        caller.auth@,
        caller.context@,
        None,
        request_id@,
    );
    assert(hooks_answer(caller.filter, caller.policy, s.auth, s.context, None, None, None));
    let bucket = match resolve_request_bucket(request, base_domain) {
        Ok(bucket) => bucket,
        Err(error) => {
            return Err(error);
        },
    };
    match authorize_request(caller, &bucket, None, S3Action::HeadBucket) {
        Ok(()) => {},
        Err(error) => {
            return Err(error);
        },
    }
    match validate_empty_payload_hash(&request.headers) {
        Ok(()) => {},
        Err(error) => {
            return Err(error);
        },
    }
    Ok(OperationPlan::Respond(empty_response(200, request_id)))
}

/// Checks a `PutObject` request.
pub fn handle_put_object<P: AuthorizationPolicy, F: TargetFilter>(
    request: &S3Request,
    base_domain: Option<&str>,
    caller: &Caller<'_, P, F>,
    request_id: &RequestId,
) -> (result: Result<OperationPlan, S3Error>)
    ensures
        is_planned(
            caller.filter,
            caller.policy,
            situation(
                request@,
                opt_str(base_domain),
                caller.auth@,
                caller.context@,
                None,
                request_id@,
            ),
            OperationView::PutObject,
            result_view(result),
        ),
{
    reveal(is_planned);
    let ghost s = situation(
        request@,
        opt_str(base_domain),
        caller.auth@,
        caller.context@,
        None,
        request_id@,
    );
    assert(hooks_answer(caller.filter, caller.policy, s.auth, s.context, None, None, None));
    let target = match resolve_request_target(request, base_domain) {
        Ok(target) => target,
        Err(error) => {
            return Err(error);
        },
    };
    match validate_supported_request_body_length(&request.headers) {
        Ok(()) => {},
        Err(error) => {
            return Err(error.with_resource(request.uri.path.as_str()));
        },
    }
    match validate_upload_headers(&request.headers) {
        Ok(()) => {},
        Err(error) => {
            return Err(error);
        },
    }
    match authorize_request(caller, &target.bucket, Some(&target.key), S3Action::PutObject) {
        Ok(()) => {},
        Err(error) => {
            return Err(error);
        },
    }
    let metadata = match collect_upload_metadata(&request.headers) {
        Ok(metadata) => metadata,
        Err(error) => {
            return Err(error);
        },
    };
    Ok(OperationPlan::ReceiveObject { target, metadata })
}

/// Checks a `CreateMultipartUpload` request.
pub fn create_multipart_upload<P: AuthorizationPolicy, F: TargetFilter>(
    request: &S3Request,
    base_domain: Option<&str>,
    caller: &Caller<'_, P, F>,
    request_id: &RequestId,
) -> (result: Result<OperationPlan, S3Error>)
    ensures
        is_planned(
            caller.filter,
            caller.policy,
            situation(
                request@,
                opt_str(base_domain),
                caller.auth@,
                caller.context@,
                None,
                request_id@,
            ),
            OperationView::CreateMultipartUpload,
            result_view(result),
        ),
{
    reveal(is_planned);
    let ghost s = situation(
        request@,
        opt_str(base_domain),
        caller.auth@,
        caller.context@,
        None,
        request_id@,
    );
    assert(hooks_answer(caller.filter, caller.policy, s.auth, s.context, None, None, None));
    match validate_empty_request_body_headers(&request.headers, "CreateMultipartUpload") {
        Ok(()) => {},
        Err(error) => {
            return Err(error);
        },
    }
    match validate_upload_headers(&request.headers) {
        Ok(()) => {},
        Err(error) => {
            return Err(error);
        },
    }
    match validate_empty_payload_hash(&request.headers) {
        Ok(()) => {},
        Err(error) => {
            return Err(error);
        },
    }
    let target = match resolve_request_target(request, base_domain) {
        Ok(target) => target,
        Err(error) => {
            return Err(error);
        },
    };
    match authorize_request(
        caller,
        &target.bucket,
        Some(&target.key),
        S3Action::CreateMultipartUpload,
    ) {
        Ok(()) => {},
        Err(error) => {
            return Err(error);
        },
    }
    let metadata = match collect_upload_metadata(&request.headers) {
        Ok(metadata) => metadata,
        Err(error) => {
            return Err(error);
        },
    };
    let owner = match &caller.context.access_key_id {
        Some(id) => Some(id.clone()),
        None => None,
    };
    Ok(OperationPlan::CreateUpload { target, owner, metadata })
}

#[verifier::rlimit(40)]
#[verifier::spinoff_prover]
fn access_upload<P: AuthorizationPolicy, F: TargetFilter>(
    request: &S3Request,
    base_domain: Option<&str>,
    caller: &Caller<'_, P, F>,
    session: Option<&UploadSession>,
    action: S3Action,
    Ghost(request_id): Ghost<Seq<char>>,
) -> (result: Result<(), S3Error>)
    ensures
        ({
            let s = situation(
                request@,
                opt_str(base_domain),
                caller.auth@, caller.context@,
                opt_session(session),
                request_id,
            );
            exists|filtered: Option<ErrorView>, decided: Option<ErrorView>| #[trigger]
                hooks_answer(
                    caller.filter,
                    caller.policy,
                    s.auth,
                    s.context,
                    upload_accessed(s, action),
                    filtered,
                    decided,
                ) && failure(
                    result,
                ) == upload_denied(with_answers(s, filtered, decided), action)
        }),
        result is Ok ==> session is Some,
{
    let ghost s = situation(
        request@,
        opt_str(base_domain),
        caller.auth@,
        caller.context@,
        opt_session(session),
        request_id,
    );
    assert(hooks_answer(caller.filter, caller.policy, s.auth, s.context, None, None, None));
    match validate_upload_session_target(session, request, base_domain, caller.context) {
        Ok(()) => {},
        Err(error) => {
            return Err(error);
        },
    }
    match session {
        None => Err(S3Error::no_such_upload()),
        Some(upload) => authorize_request(caller, &upload.bucket, Some(&upload.key), action),
    }
}

/// Checks an `UploadPart` request.
pub fn upload_part<P: AuthorizationPolicy, F: TargetFilter>(
    request: &S3Request,
    base_domain: Option<&str>,
    caller: &Caller<'_, P, F>,
    session: Option<&UploadSession>,
    request_id: &RequestId,
    upload_id: UploadId,
    part_number: PartNumber,
) -> (result: Result<OperationPlan, S3Error>)
    ensures
        is_planned(
            caller.filter,
            caller.policy,
            situation(
                request@,
                opt_str(base_domain),
                caller.auth@,
                caller.context@,
                opt_session(session),
                request_id@,
            ),
            OperationView::UploadPart { upload_id: upload_id@, part_number: part_number@ },
            result_view(result),
        ),
{
    reveal(is_planned);
    let ghost s = situation(
        request@,
        opt_str(base_domain),
        caller.auth@,
        caller.context@,
        opt_session(session),
        request_id@,
    );
    assert(hooks_answer(caller.filter, caller.policy, s.auth, s.context, None, None, None));
    match validate_supported_request_body_length(&request.headers) {
        Ok(()) => {},
        Err(error) => {
            return Err(error);
        },
    }
    match validate_upload_headers(&request.headers) {
        Ok(()) => {},
        Err(error) => {
            return Err(error);
        },
    }
    match access_upload(
        request,
        base_domain,
        caller,
        session,
        S3Action::UploadPart,
        Ghost(request_id@),
    ) {
        Ok(()) => {},
        Err(error) => {
            return Err(error);
        },
    }
    Ok(OperationPlan::ReceivePart { upload_id, part_number })
}

/// Checks a `ListParts` request and answers it.
pub fn list_parts<P: AuthorizationPolicy, F: TargetFilter>(
    request: &S3Request,
    base_domain: Option<&str>,
    caller: &Caller<'_, P, F>,
    session: Option<&UploadSession>,
    request_id: &RequestId,
    upload_id: &UploadId,
) -> (result: Result<OperationPlan, S3Error>)
    ensures
        is_planned(
            caller.filter,
            caller.policy,
            situation(
                request@,
                opt_str(base_domain),
                caller.auth@,
                caller.context@,
                opt_session(session),
                request_id@,
            ),
            OperationView::ListParts { upload_id: upload_id@ },
            result_view(result),
        ),
{
    reveal(is_planned);
    let ghost s = situation(
        request@,
        opt_str(base_domain),
        caller.auth@,
        caller.context@,
        opt_session(session),
        request_id@,
    );
    assert(hooks_answer(caller.filter, caller.policy, s.auth, s.context, None, None, None));
    let query = request.query();
    let page = match ListPartsPageRequest::parse(query.as_str()) {
        Ok(page) => page,
        Err(error) => {
            return Err(error);
        },
    };
    match access_upload(
        request,
        base_domain,
        caller,
        session,
        S3Action::ListMultipartUploadParts,
        Ghost(request_id@),
    ) {
        Ok(()) => {},
        Err(error) => {
            return Err(error);
        },
    }
    match validate_empty_payload_hash(&request.headers) {
        Ok(()) => {},
        Err(error) => {
            return Err(error);
        },
    }
    match session {
        None => Err(S3Error::no_such_upload()),
        Some(upload) => Ok(OperationPlan::Respond(list_parts_response(upload, page, request_id))),
    }
}

/// Checks an `AbortMultipartUpload` request.
pub fn abort_multipart_upload<P: AuthorizationPolicy, F: TargetFilter>(
    request: &S3Request,
    base_domain: Option<&str>,
    caller: &Caller<'_, P, F>,
    session: Option<&UploadSession>,
    request_id: &RequestId,
    upload_id: UploadId,
) -> (result: Result<OperationPlan, S3Error>)
    ensures
        is_planned(
            caller.filter,
            caller.policy,
            situation(
                request@,
                opt_str(base_domain),
                caller.auth@,
                caller.context@,
                opt_session(session),
                request_id@,
            ),
            OperationView::AbortMultipartUpload { upload_id: upload_id@ },
            result_view(result),
        ),
{
    reveal(is_planned);
    let ghost s = situation(
        request@,
        opt_str(base_domain),
        caller.auth@,
        caller.context@,
        opt_session(session),
        request_id@,
    );
    assert(hooks_answer(caller.filter, caller.policy, s.auth, s.context, None, None, None));
    match validate_empty_request_body_headers(&request.headers, "AbortMultipartUpload") {
        Ok(()) => {},
        Err(error) => {
            return Err(error);
        },
    }
    match access_upload(
        request,
        base_domain,
        caller,
        session,
        S3Action::AbortMultipartUpload,
        Ghost(request_id@),
    ) {
        Ok(()) => {},
        Err(error) => {
            return Err(error);
        },
    }
    match validate_empty_payload_hash(&request.headers) {
        Ok(()) => {},
        Err(error) => {
            return Err(error);
        },
    }
    Ok(OperationPlan::AbortUpload(upload_id))
}

/// Checks a `CompleteMultipartUpload` request, as far as that goes without its body.
pub fn complete_multipart_upload<P: AuthorizationPolicy, F: TargetFilter>(
    request: &S3Request,
    base_domain: Option<&str>,
    caller: &Caller<'_, P, F>,
    session: Option<&UploadSession>,
    request_id: &RequestId,
    upload_id: UploadId,
) -> (result: Result<OperationPlan, S3Error>)
    ensures
        is_planned(
            caller.filter,
            caller.policy,
            situation(
                request@,
                opt_str(base_domain),
                caller.auth@,
                caller.context@,
                opt_session(session),
                request_id@,
            ),
            OperationView::CompleteMultipartUpload { upload_id: upload_id@ },
            result_view(result),
        ),
{
    reveal(is_planned);
    let ghost s = situation(
        request@,
        opt_str(base_domain),
        caller.auth@,
        caller.context@,
        opt_session(session),
        request_id@,
    );
    assert(hooks_answer(caller.filter, caller.policy, s.auth, s.context, None, None, None));
    match access_upload(
        request,
        base_domain,
        caller,
        session,
        S3Action::CompleteMultipartUpload,
        Ghost(request_id@),
    ) {
        Ok(()) => {},
        Err(error) => {
            return Err(error);
        },
    }
    Ok(OperationPlan::CompleteUpload { upload_id, location: completion_location(request) })
}

/// Checks a request for an operation and tells what is done for it.
pub fn dispatch_implemented_operation<P: AuthorizationPolicy, F: TargetFilter>(
    request: &S3Request,
    base_domain: Option<&str>,
    caller: &Caller<'_, P, F>,
    uploads: &FileMultipartStore,
    request_id: &RequestId,
    operation: S3Operation,
) -> (result: Result<OperationPlan, S3Error>)
    ensures
        is_planned(
            caller.filter,
            caller.policy,
            situation(
                request@,
                opt_str(base_domain),
                caller.auth@,
                caller.context@,
                named_session(uploads@, operation@),
                request_id@,
            ),
            operation@,
            result_view(result),
        ),
{
    match operation {
        S3Operation::HeadObject => head_object(request, base_domain, caller, request_id),
        S3Operation::GetObject => get_object(request, base_domain, caller, request_id),
        S3Operation::DeleteObject => delete_object(request, base_domain, caller, request_id),
        S3Operation::HeadBucket => head_bucket(request, base_domain, caller, request_id),
        S3Operation::PutObject => handle_put_object(request, base_domain, caller, request_id),
        S3Operation::CreateMultipartUpload => create_multipart_upload(
            request,
            base_domain,
            caller,
            request_id,
        ),
        S3Operation::UploadPart { upload_id, part_number } => {
            let session = uploads.get_upload(&upload_id);
            upload_part(
                request,
                base_domain,
                caller,
                session.as_ref(),
                request_id,
                upload_id,
                part_number,
            )
        },
        S3Operation::ListParts { upload_id } => {
            let session = uploads.get_upload(&upload_id);
            list_parts(request, base_domain, caller, session.as_ref(), request_id, &upload_id)
        },
        S3Operation::AbortMultipartUpload { upload_id } => {
            let session = uploads.get_upload(&upload_id);
            abort_multipart_upload(
                request,
                base_domain,
                caller,
                session.as_ref(),
                request_id,
                upload_id,
            )
        },
        S3Operation::CompleteMultipartUpload { upload_id } => {
            let session = uploads.get_upload(&upload_id);
            complete_multipart_upload(
                request,
                base_domain,
                caller,
                session.as_ref(),
                request_id,
                upload_id,
            )
        },
    }
}

/// The bucket that an operation touches.
pub open spec fn accessed_bucket(s: Situation, operation: OperationView) -> Seq<char> {
    match operation {
        OperationView::HeadBucket => bucket_of(s.request, s.base_domain)->Ok_0,
        OperationView::UploadPart { .. } => s.session->0.bucket,
        OperationView::ListParts { .. } => s.session->0.bucket,
        OperationView::AbortMultipartUpload { .. } => s.session->0.bucket,
        OperationView::CompleteMultipartUpload { .. } => s.session->0.bucket,
        _ => target_of(s.request, s.base_domain)->Ok_0.bucket,
    }
}

/// Nothing is done for a request that the filter, the allow-lists or the policy do not allow: where
/// there is a plan, none of them denies the operation's action on the bucket that it touches.
pub proof fn law_plans_are_authorized(s: Situation, operation: OperationView)
    requires
        operation_plan(s, operation) is Ok,
    ensures
        denied(
            s,
            accessed_bucket(s, operation),
            crate::s3::types::operation_action(operation),
        ) is None,
{
}

/// Where the application has no hooks, the request, the caller and the uploads alone decide about
/// what is done.
pub proof fn law_plans_without_hooks_are_determined<P: AuthorizationPolicy, F: TargetFilter>(
    filter: Option<&F>,
    policy: Option<&P>,
    s: Situation,
    operation: OperationView,
    result: Result<PlanView, ErrorView>,
)
    requires
        filter is None,
        policy is None,
        s.filtered is None,
        s.decided is None,
    ensures
        is_planned(filter, policy, s, operation, result) <==> result == operation_plan(
            s,
            operation,
        ),
{
    reveal(is_planned);
    reveal(filter_answers);
    reveal(policy_answers);
    assert(with_answers(s, None, None) == s);
    assert(hooks_answer(
        filter,
        policy,
        s.auth,
        s.context,
        operation_access(s, operation),
        None,
        None,
    ));
}

/// A multipart operation touches the bucket that its own request names.
pub proof fn law_uploads_are_reached_through_their_bucket(s: Situation, operation: OperationView)
    requires
        operation_plan(s, operation) is Ok,
        !(operation is HeadBucket),
    ensures
        target_of(s.request, s.base_domain) is Ok,
        accessed_bucket(s, operation) == target_of(s.request, s.base_domain)->Ok_0.bucket,
{
}

} // verus!
