//! Which operation a request asks for, and what is logged of it.
use crate::encoding::is_canonical_uuid;
use crate::error::{
    invalid_argument, invalid_request, method_not_allowed, not_implemented, ErrorView, S3Error,
};
use crate::handlers::query::{
    first_value, query_param, unique_flag, unique_query_flag, unique_query_param, unique_value,
};
use crate::handlers::selection::lemma_decimal;
use crate::hashing::{sha256, sha256_digest};
use crate::hooks::{
    RequestPrincipal, S3ErrorContext, S3RequestContext, S3ResponseContext, TenantLimitContext,
};
use crate::http::{first_text, host_of, query_text, HeaderMap, Method, RequestView, S3Request};
use crate::response::{
    render_error, text_response, without_body, without_head_response_body, S3Response,
    S3ResponseView,
};
use crate::s3::target::{
    has_virtual_hosted_bucket, relative_path, request_bucket, request_host_bucket, request_target,
    resolve_bucket_name, resolve_s3_target,
};
use crate::s3::types::{
    is_part_number, operation_action, operation_name, parse_part_number, BucketName, ObjectKey,
    OperationView, PartNumber, RequestId, S3Operation, UploadId,
};
use crate::text::{
    decimal, hex_encode, hex_text, opt_str, opt_text, parse_number, parse_unsigned, result_view,
    same, split_at_first, split_once, without_prefix,
};
use vstd::prelude::*;
use vstd::utf8::encode_utf8;

verus! {

// ---------------------------------------------------------------------------------------------
// Operations
// ---------------------------------------------------------------------------------------------
/// What a request asks for.
#[derive(Debug, PartialEq, Eq)]
pub enum DetectedOperation {
    /// An operation that the endpoint implements.
    Implemented(S3Operation),
    /// `ListObjectsV2`.
    ListObjectsV2,
    /// A listing of an unknown type.
    Unsupported,
    /// Nothing that the method allows.
    MethodNotAllowed,
}

/// A [`DetectedOperation`] as a mathematical value.
#[verifier::ext_equal]
pub enum DetectedView {
    Implemented(OperationView),
    ListObjectsV2,
    Unsupported,
    MethodNotAllowed,
}

impl View for DetectedOperation {
    type V = DetectedView;

    open spec fn view(&self) -> DetectedView {
        match self {
            DetectedOperation::Implemented(operation) => DetectedView::Implemented(operation@),
            DetectedOperation::ListObjectsV2 => DetectedView::ListObjectsV2,
            DetectedOperation::Unsupported => DetectedView::Unsupported,
            DetectedOperation::MethodNotAllowed => DetectedView::MethodNotAllowed,
        }
    }
}

/// The name of what a request asks for.
pub open spec fn detected_name(detected: DetectedView) -> Seq<char> {
    match detected {
        DetectedView::Implemented(operation) => operation_name(operation),
        DetectedView::ListObjectsV2 => "ListObjectsV2"@,
        DetectedView::Unsupported => "Unsupported"@,
        DetectedView::MethodNotAllowed => "MethodNotAllowed"@,
    }
}

impl DetectedOperation {
    /// The name of what the request asks for.
    pub fn name(&self) -> (name: &'static str)
        ensures
            name@ == detected_name(self@),
    {
        match self {
            DetectedOperation::Implemented(operation) => operation.name(),
            DetectedOperation::ListObjectsV2 => "ListObjectsV2",
            DetectedOperation::Unsupported => "Unsupported",
            DetectedOperation::MethodNotAllowed => "MethodNotAllowed",
        }
    }
}

/// Whether a request names an object, by the shape of its path alone.
pub open spec fn names_object(
    path: Seq<char>,
    host: Option<Seq<char>>,
    base_domain: Option<Seq<char>>,
) -> bool {
    let rest = relative_path(path);
    if request_host_bucket(host, base_domain) is Some {
        rest.len() > 0
    } else {
        match split_once(rest, '/') {
            Some((bucket, key)) => bucket.len() > 0 && key.len() > 0,
            None => false,
        }
    }
}

fn has_object_route(request: &S3Request, base_domain: Option<&str>) -> (result: bool)
    ensures
        result == names_object(request@.path, host_of(request@.headers), opt_str(base_domain)),
{
    let path = match without_prefix(request.uri.path.as_str(), "/") {
        Some(rest) => rest,
        None => request.uri.path.clone(),
    };
    match (request.host(), base_domain) {
        (Some(host), Some(base)) => {
            if has_virtual_hosted_bucket(host.as_str(), base) {
                return !path.as_str().is_empty();
            }
        },
        _ => {},
    }
    match split_at_first(path.as_str(), '/') {
        Some((bucket, key)) => !bucket.as_str().is_empty() && !key.as_str().is_empty(),
        None => false,
    }
}

/// The upload ID that a parameter gives.
pub open spec fn upload_id_value(value: Seq<char>) -> Result<Seq<char>, ErrorView> {
    if is_canonical_uuid(value) {
        Ok(value)
    } else {
        Err(invalid_request("invalid upload ID"@))
    }
}

fn parse_upload_id_value(value: &str) -> (result: Result<UploadId, S3Error>)
    ensures
        result_view(result) == upload_id_value(value@),
{
    match UploadId::parse(value) {
        Ok(id) => Ok(id),
        Err(_) => Err(S3Error::invalid_request("invalid upload ID")),
    }
}

/// The part number that a parameter gives.
pub open spec fn part_number_value(value: Seq<char>) -> Result<nat, ErrorView> {
    match parse_unsigned(value, 10, u16::MAX as nat) {
        None => Err(invalid_request("partNumber must be an integer"@)),
        Some(number) => if is_part_number(number as int) {
            Ok(number)
        } else {
            Err(invalid_request("partNumber must be in 1..=10000"@))
        },
    }
}

fn parse_part_number_value(value: &str) -> (result: Result<PartNumber, S3Error>)
    ensures
        result_view(result) == part_number_value(value@),
{
    match parse_number(value, 10, u16::MAX as u64) {
        None => Err(S3Error::invalid_request("partNumber must be an integer")),
        Some(number) => match PartNumber::parse(number as u16) {
            Ok(number) => Ok(number),
            Err(_) => Err(S3Error::invalid_request("partNumber must be in 1..=10000")),
        },
    }
}

/// What a POST request asks for by its query, where it starts or completes a multipart upload.
pub open spec fn post_operation(query: Seq<char>) -> Result<Option<OperationView>, ErrorView> {
    match unique_flag(query, "uploads"@) {
        Err(error) => Err(error),
        Ok(uploads) => match unique_value(query, "uploadId"@) {
            Err(error) => Err(error),
            Ok(upload_id) => if uploads && upload_id is Some {
                Err(invalid_request("multipart operation query is ambiguous"@))
            } else if uploads {
                Ok(Some(OperationView::CreateMultipartUpload))
            } else {
                match upload_id {
                    None => Ok(None),
                    Some(value) => match upload_id_value(value) {
                        Err(error) => Err(error),
                        Ok(id) => Ok(
                            Some(OperationView::CompleteMultipartUpload { upload_id: id }),
                        ),
                    },
                }
            },
        },
    }
}

/// What a PUT request asks for, given the multipart parameters of its query.
pub open spec fn put_operation(
    part_number: Option<Seq<char>>,
    upload_id: Option<Seq<char>>,
) -> Result<DetectedView, ErrorView> {
    match (part_number, upload_id) {
        (None, Some(_)) => Err(invalid_request("partNumber is required"@)),
        (Some(_), None) => Err(invalid_request("uploadId is required"@)),
        (Some(number), Some(id)) => match upload_id_value(id) {
            Err(error) => Err(error),
            Ok(upload_id) => match part_number_value(number) {
                Err(error) => Err(error),
                Ok(part_number) => Ok(
                    DetectedView::Implemented(
                        OperationView::UploadPart { upload_id, part_number },
                    ),
                ),
            },
        },
        (None, None) => Ok(DetectedView::Implemented(OperationView::PutObject)),
    }
}

/// What a DELETE request asks for.
pub open spec fn delete_operation(upload_id: Option<Seq<char>>, object: bool) -> Result<
    DetectedView,
    ErrorView,
> {
    match upload_id {
        Some(value) => match upload_id_value(value) {
            Err(error) => Err(error),
            Ok(id) => Ok(
                DetectedView::Implemented(OperationView::AbortMultipartUpload { upload_id: id }),
            ),
        },
        None => if object {
            Ok(DetectedView::Implemented(OperationView::DeleteObject))
        } else {
            Ok(DetectedView::MethodNotAllowed)
        },
    }
}

/// What a GET request asks for.
pub open spec fn get_operation(
    query: Seq<char>,
    upload_id: Option<Seq<char>>,
    object: bool,
) -> Result<DetectedView, ErrorView> {
    match upload_id {
        Some(value) => match upload_id_value(value) {
            Err(error) => Err(error),
            Ok(id) => Ok(DetectedView::Implemented(OperationView::ListParts { upload_id: id })),
        },
        None => match unique_value(query, "list-type"@) {
            Err(error) => Err(error),
            Ok(Some(list_type)) => if list_type == "2"@ {
                Ok(DetectedView::ListObjectsV2)
            } else {
                Ok(DetectedView::Unsupported)
            },
            Ok(None) => if object {
                Ok(DetectedView::Implemented(OperationView::GetObject))
            } else {
                Ok(DetectedView::MethodNotAllowed)
            },
        },
    }
}

/// What a request asks for, by its method, the shape of its path and its query.
pub open spec fn detected_operation(
    request: RequestView,
    base_domain: Option<Seq<char>>,
    query: Seq<char>,
) -> Result<DetectedView, ErrorView> {
    let object = names_object(request.path, host_of(request.headers), base_domain);
    let post = if request.method is Post {
        post_operation(query)
    } else {
        Ok(None)
    };
    if request.method is Head {
        if object {
            Ok(DetectedView::Implemented(OperationView::HeadObject))
        } else {
            Ok(DetectedView::Implemented(OperationView::HeadBucket))
        }
    } else {
        match post {
            Err(error) => Err(error),
            Ok(Some(operation)) => Ok(DetectedView::Implemented(operation)),
            Ok(None) => match unique_value(query, "partNumber"@) {
                Err(error) => Err(error),
                Ok(part_number) => match unique_value(query, "uploadId"@) {
                    Err(error) => Err(error),
                    Ok(upload_id) => match request.method {
                        Method::Put => put_operation(part_number, upload_id),
                        Method::Delete => delete_operation(upload_id, object),
                        Method::Get => get_operation(query, upload_id, object),
                        _ => Ok(DetectedView::MethodNotAllowed),
                    },
                },
            },
        }
    }
}

fn detect_post(query: &str) -> (result: Result<Option<S3Operation>, S3Error>)
    ensures
        match result {
            Err(error) => post_operation(query@) == Err::<Option<OperationView>, _>(error@),
            Ok(None) => post_operation(query@) == Ok::<_, ErrorView>(None::<OperationView>),
            Ok(Some(operation)) => post_operation(query@) == Ok::<_, ErrorView>(
                Some(operation@),
            ),
        },
{
    let uploads = unique_query_flag(query, "uploads")?;
    let upload_id = unique_query_param(query, "uploadId")?;
    if uploads && upload_id.is_some() {
        return Err(S3Error::invalid_request("multipart operation query is ambiguous"));
    }
    if uploads {
        return Ok(Some(S3Operation::CreateMultipartUpload));
    }
    match upload_id {
        None => Ok(None),
        Some(value) => {
            let upload_id = parse_upload_id_value(value.as_str())?;
            Ok(Some(S3Operation::CompleteMultipartUpload { upload_id }))
        },
    }
}

fn detect_put(part_number: Option<String>, upload_id: Option<String>) -> (result: Result<
    DetectedOperation,
    S3Error,
>)
    ensures
        result_view(result) == put_operation(opt_text(part_number), opt_text(upload_id)),
{
    match (part_number, upload_id) {
        (None, Some(_)) => Err(S3Error::invalid_request("partNumber is required")),
        (Some(_), None) => Err(S3Error::invalid_request("uploadId is required")),
        (Some(number), Some(id)) => {
            let upload_id = parse_upload_id_value(id.as_str())?;
            let part_number = parse_part_number_value(number.as_str())?;
            Ok(
                DetectedOperation::Implemented(S3Operation::UploadPart { upload_id, part_number }),
            )
        },
        (None, None) => Ok(DetectedOperation::Implemented(S3Operation::PutObject)),
    }
}

fn detect_delete(upload_id: Option<String>, object: bool) -> (result: Result<
    DetectedOperation,
    S3Error,
>)
    ensures
        result_view(result) == delete_operation(opt_text(upload_id), object),
{
    match upload_id {
        Some(value) => {
            let upload_id = parse_upload_id_value(value.as_str())?;
            Ok(DetectedOperation::Implemented(S3Operation::AbortMultipartUpload { upload_id }))
        },
        None => {
            if object {
                Ok(DetectedOperation::Implemented(S3Operation::DeleteObject))
            } else {
                Ok(DetectedOperation::MethodNotAllowed)
            }
        },
    }
}

fn detect_get(query: &str, upload_id: Option<String>, object: bool) -> (result: Result<
    DetectedOperation,
    S3Error,
>)
    ensures
        result_view(result) == get_operation(query@, opt_text(upload_id), object),
{
    match upload_id {
        Some(value) => {
            let upload_id = parse_upload_id_value(value.as_str())?;
            Ok(DetectedOperation::Implemented(S3Operation::ListParts { upload_id }))
        },
        None => match unique_query_param(query, "list-type")? {
            Some(list_type) => {
                if same(list_type.as_str(), "2") {
                    Ok(DetectedOperation::ListObjectsV2)
                } else {
                    Ok(DetectedOperation::Unsupported)
                }
            },
            None => {
                if object {
                    Ok(DetectedOperation::Implemented(S3Operation::GetObject))
                } else {
                    Ok(DetectedOperation::MethodNotAllowed)
                }
            },
        },
    }
}

/// Tells which operation a request asks for.
pub fn detect_operation(
    request: &S3Request,
    virtual_host_base_domain: Option<&str>,
    query: &str,
) -> (result: Result<DetectedOperation, S3Error>)
    ensures
        result_view(result) == detected_operation(
            request@,
            opt_str(virtual_host_base_domain),
            query@,
        ),
{
    let object = has_object_route(request, virtual_host_base_domain);
    match &request.method {
        Method::Head => {
            return if object {
                Ok(DetectedOperation::Implemented(S3Operation::HeadObject))
            } else {
                Ok(DetectedOperation::Implemented(S3Operation::HeadBucket))
            };
        },
        Method::Post => match detect_post(query)? {
            Some(operation) => {
                return Ok(DetectedOperation::Implemented(operation));
            },
            None => {},
        },
        _ => {},
    }
    let part_number = unique_query_param(query, "partNumber")?;
    let upload_id = unique_query_param(query, "uploadId")?;
    match &request.method {
        Method::Put => detect_put(part_number, upload_id),
        Method::Delete => detect_delete(upload_id, object),
        Method::Get => detect_get(query, upload_id, object),
        _ => Ok(DetectedOperation::MethodNotAllowed),
    }
}

/// The operation that is carried out, or the error with which the request is answered.
pub open spec fn implemented_operation(detected: Result<DetectedView, ErrorView>) -> Result<
    OperationView,
    ErrorView,
> {
    match detected {
        Err(error) => Err(error),
        Ok(DetectedView::Implemented(operation)) => Ok(operation),
        Ok(DetectedView::ListObjectsV2) => Err(not_implemented("ListObjectsV2 is not implemented"@)),
        Ok(DetectedView::Unsupported) => Err(invalid_argument("list-type must be 2"@)),
        Ok(DetectedView::MethodNotAllowed) => Err(method_not_allowed()),
    }
}

/// Selects the operation that is carried out.
pub fn select_operation(detected: Result<DetectedOperation, S3Error>) -> (result: Result<
    S3Operation,
    S3Error,
>)
    ensures
        result_view(result) == implemented_operation(result_view(detected)),
{
    match detected {
        Err(error) => Err(error),
        Ok(DetectedOperation::Implemented(operation)) => Ok(operation),
        Ok(DetectedOperation::ListObjectsV2) => Err(
            S3Error::not_implemented("ListObjectsV2 is not implemented"),
        ),
        Ok(DetectedOperation::Unsupported) => Err(S3Error::invalid_argument("list-type must be 2")),
        Ok(DetectedOperation::MethodNotAllowed) => Err(S3Error::method_not_allowed()),
    }
}

// ---------------------------------------------------------------------------------------------
// The request log
// ---------------------------------------------------------------------------------------------
/// What is logged of a request.
#[derive(Debug, PartialEq, Eq)]
pub struct RequestLogContext {
    /// Bucket, where the target could be read.
    pub bucket: Option<BucketName>,
    /// Object key, where the target could be read.
    pub key: Option<ObjectKey>,
    /// The SHA-256 digest of the object key in hexadecimal.
    pub key_sha256: Option<String>,
    /// Upload ID in the query.
    pub upload_id: Option<UploadId>,
    /// Part number in the query.
    pub part_number: Option<PartNumber>,
    /// The number of decoded body bytes, once known.
    pub decoded_bytes: Option<u64>,
}

/// A [`RequestLogContext`] as a mathematical value.
#[verifier::ext_equal]
pub struct LogView {
    pub bucket: Option<Seq<char>>,
    pub key: Option<Seq<char>>,
    pub key_sha256: Option<Seq<char>>,
    pub upload_id: Option<Seq<char>>,
    pub part_number: Option<nat>,
    pub decoded_bytes: Option<u64>,
}

/// The view of an optional value.
pub open spec fn opt_view<T: View>(value: Option<T>) -> Option<T::V> {
    match value {
        Some(v) => Some(v@),
        None => None,
    }
}

impl View for RequestLogContext {
    type V = LogView;

    open spec fn view(&self) -> LogView {
        LogView {
            bucket: opt_view(self.bucket),
            key: opt_view(self.key),
            key_sha256: opt_text(self.key_sha256),
            upload_id: opt_view(self.upload_id),
            part_number: opt_view(self.part_number),
            decoded_bytes: self.decoded_bytes,
        }
    }
}

/// The digest by which an object key is logged.
pub open spec fn key_digest(key: Seq<char>) -> Seq<char> {
    hex_text(sha256_digest(encode_utf8(key)))
}

/// The digest by which an object key is logged.
pub fn object_key_sha256(key: &ObjectKey) -> (digest: String)
    ensures
        digest@ == key_digest(key@),
{
    hex_encode(sha256(key.as_str().as_bytes()).as_slice())
}

/// What is logged of a request.
pub open spec fn log_context(
    request: RequestView,
    base_domain: Option<Seq<char>>,
    query: Seq<char>,
) -> LogView {
    let host = host_of(request.headers);
    let target = request_target(request.path, host, base_domain);
    LogView {
        bucket: match target {
            Ok(t) => Some(t.bucket),
            Err(_) => match request_bucket(request.path, host, base_domain) {
                Ok(bucket) => Some(bucket),
                Err(_) => None,
            },
        },
        key: match target {
            Ok(t) => Some(t.key),
            Err(_) => None,
        },
        key_sha256: match target {
            Ok(t) => Some(key_digest(t.key)),
            Err(_) => None,
        },
        upload_id: match first_value(query, "uploadId"@) {
            Some(value) => if is_canonical_uuid(value) {
                Some(value)
            } else {
                None
            },
            None => None,
        },
        part_number: match first_value(query, "partNumber"@) {
            Some(value) => parse_part_number(value),
            None => None,
        },
        decoded_bytes: None,
    }
}

/// Collects what is logged of a request.
pub fn request_log_context(
    request: &S3Request,
    virtual_host_base_domain: Option<&str>,
    query: &str,
) -> (context: RequestLogContext)
    ensures
        context@ == log_context(request@, opt_str(virtual_host_base_domain), query@),
{
    let upload_id = match query_param(query, "uploadId") {
        Some(value) => match UploadId::parse(value.as_str()) {
            Ok(id) => Some(id),
            Err(_) => None,
        },
        None => None,
    };
    let part_number = match query_param(query, "partNumber") {
        Some(value) => match PartNumber::from_str(value.as_str()) {
            Ok(number) => Some(number),
            Err(_) => None,
        },
        None => None,
    };
    let host = request.host();
    let host_text = match &host {
        Some(text) => Some(text.as_str()),
        None => None,
    };
    let path = request.uri.path.as_str();
    match resolve_s3_target(path, host_text, virtual_host_base_domain) {
        Ok(target) => {
            let digest = object_key_sha256(&target.key);
            RequestLogContext {
                bucket: Some(target.bucket),
                key: Some(target.key),
                key_sha256: Some(digest),
                upload_id,
                part_number,
                decoded_bytes: None,
            }
        },
        Err(_) => {
            let bucket = match resolve_bucket_name(path, host_text, virtual_host_base_domain) {
                Ok(bucket) => Some(bucket),
                Err(_) => None,
            };
            RequestLogContext {
                bucket,
                key: None,
                key_sha256: None,
                upload_id,
                part_number,
                decoded_bytes: None,
            }
        },
    }
}

// ---------------------------------------------------------------------------------------------
// Taking in a request and answering it
// ---------------------------------------------------------------------------------------------
/// A request as far as it is read before anything is decided.
#[derive(Debug)]
pub struct ParsedS3Request {
    /// What the request asks for.
    pub operation: Result<DetectedOperation, S3Error>,
    /// What is logged of it.
    pub log_context: RequestLogContext,
    /// The length that it declares, where that can be read.
    pub content_length: Option<u64>,
}

/// The length that a request declares, where that can be read.
pub open spec fn logged_length(headers: Seq<(Seq<char>, Seq<u8>)>) -> Option<nat> {
    match first_text(headers, "content-length"@) {
        Some(Some(text)) => parse_unsigned(text, 10, u64::MAX as nat),
        _ => None,
    }
}

fn read_logged_length(headers: &HeaderMap) -> (length: Option<u64>)
    ensures
        match length {
            Some(l) => logged_length(headers@) == Some(l as nat),
            None => logged_length(headers@) is None,
        },
{
    match headers.get_text("content-length") {
        Some(Some(text)) => parse_number(text.as_str(), 10, u64::MAX),
        _ => None,
    }
}

/// The name under which a request is logged and observed.
pub open spec fn operation_label(detected: Result<DetectedView, ErrorView>) -> Seq<char> {
    match detected {
        Ok(d) => detected_name(d),
        Err(_) => "InvalidRequest"@,
    }
}

impl ParsedS3Request {
    /// Reads a request.
    pub fn parse(request: &S3Request, virtual_host_base_domain: Option<&str>) -> (parsed: Self)
        ensures
            result_view(parsed.operation) == detected_operation(
                request@,
                opt_str(virtual_host_base_domain),
                query_text(request@),
            ),
            parsed.log_context@ == log_context(
                request@,
                opt_str(virtual_host_base_domain),
                query_text(request@),
            ),
            match parsed.content_length {
                Some(l) => logged_length(request@.headers) == Some(l as nat),
                None => logged_length(request@.headers) is None,
            },
    {
        let query = request.query();
        ParsedS3Request {
            operation: detect_operation(request, virtual_host_base_domain, query.as_str()),
            log_context: request_log_context(request, virtual_host_base_domain, query.as_str()),
            content_length: read_logged_length(&request.headers),
        }
    }

    /// The name under which the request is logged and observed.
    pub fn label(&self) -> (label: &'static str)
        ensures
            label@ == operation_label(result_view(self.operation)),
    {
        match &self.operation {
            Ok(detected) => detected.name(),
            Err(_) => "InvalidRequest",
        }
    }

    /// What request observers see of the request.
    pub fn observed(&self, request_id: &RequestId, method: Method) -> (context: S3RequestContext)
        ensures
            context.request_id@ == request_id@,
            context.method == method,
            context.operation@ == operation_label(result_view(self.operation)),
            opt_view(context.bucket) == self.log_context@.bucket,
            opt_view(context.key) == self.log_context@.key,
            opt_view(context.upload_id) == self.log_context@.upload_id,
            opt_view(context.part_number) == self.log_context@.part_number,
            context.content_length == self.content_length,
    {
        S3RequestContext {
            request_id: request_id.clone(),
            method,
            operation: self.label().to_owned(),
            bucket: match &self.log_context.bucket {
                Some(bucket) => Some(bucket.clone()),
                None => None,
            },
            key: match &self.log_context.key {
                Some(key) => Some(key.clone()),
                None => None,
            },
            upload_id: match &self.log_context.upload_id {
                Some(id) => Some(id.clone()),
                None => None,
            },
            part_number: self.log_context.part_number,
            content_length: self.content_length,
        }
    }

    /// What error mappers see of the request.
    pub fn error_context(&self, request_id: &RequestId) -> (context: S3ErrorContext)
        ensures
            context.request_id@ == request_id@,
            context.operation@ == operation_label(result_view(self.operation)),
    {
        S3ErrorContext { request_id: request_id.clone(), operation: self.label().to_owned() }
    }

    /// What response mappers see of the request.
    pub fn response_context(&self, request_id: &RequestId) -> (context: S3ResponseContext)
        ensures
            context.request_id@ == request_id@,
            context.operation@ == operation_label(result_view(self.operation)),
            opt_view(context.bucket) == self.log_context@.bucket,
            opt_view(context.key) == self.log_context@.key,
    {
        S3ResponseContext {
            request_id: request_id.clone(),
            operation: self.label().to_owned(),
            bucket: match &self.log_context.bucket {
                Some(bucket) => Some(bucket.clone()),
                None => None,
            },
            key: match &self.log_context.key {
                Some(key) => Some(key.clone()),
                None => None,
            },
        }
    }
}

impl RequestLogContext {
    /// What an application that limits its tenants sees of an authenticated request.
    pub fn tenant_context(
        &self,
        request_id: &RequestId,
        tenant: String,
        principal: &RequestPrincipal,
        method: Method,
        operation: &S3Operation,
        content_length: Option<u64>,
    ) -> (context: TenantLimitContext)
        ensures
            context.request_id@ == request_id@,
            context.tenant == tenant,
            context.principal@ == principal@,
            context.method == method,
            context.action == operation_action(operation@),
            context.operation@ == operation@,
            opt_view(context.bucket) == self@.bucket,
            opt_view(context.key) == self@.key,
            opt_view(context.upload_id) == self@.upload_id,
            opt_view(context.part_number) == self@.part_number,
            context.content_length == content_length,
    {
        TenantLimitContext {
            request_id: request_id.clone(),
            tenant,
            principal: principal.clone(),
            method,
            action: operation.action(),
            operation: operation.clone(),
            bucket: match &self.bucket {
                Some(bucket) => Some(bucket.clone()),
                None => None,
            },
            key: match &self.key {
                Some(key) => Some(key.clone()),
                None => None,
            },
            upload_id: match &self.upload_id {
                Some(id) => Some(id.clone()),
                None => None,
            },
            part_number: self.part_number,
            content_length,
        }
    }
}

/// The response that is sent for the outcome of an operation.
pub open spec fn final_response(
    head: bool,
    outcome: Result<S3ResponseView, ErrorView>,
    request_id: Seq<char>,
) -> S3ResponseView {
    let response = match outcome {
        Ok(r) => r,
        Err(error) => text_response(crate::error::error_response(error, request_id)),
    };
    if head {
        without_body(response)
    } else {
        response
    }
}

/// Makes the response that is sent for the outcome of an operation: errors become XML, and the
/// response to a HEAD request loses its body.
pub fn finish_response(
    method: &Method,
    outcome: Result<S3Response, S3Error>,
    request_id: &RequestId,
) -> (response: S3Response)
    ensures
        response@ == final_response(*method is Head, result_view(outcome), request_id@),
{
    let response = match outcome {
        Ok(response) => response,
        Err(error) => render_error(error, request_id),
    };
    match method {
        Method::Head => without_head_response_body(response),
        _ => response,
    }
}

/// Whatever identifiers a detected operation has are valid: an upload ID is a canonical UUID, and a
/// part number is one of those that multipart uploads have.
pub proof fn law_detected_identifiers_are_valid(
    request: RequestView,
    base_domain: Option<Seq<char>>,
    query: Seq<char>,
)
    ensures
        match detected_operation(request, base_domain, query) {
            Ok(DetectedView::Implemented(OperationView::UploadPart { upload_id, part_number })) =>
                is_canonical_uuid(upload_id) && is_part_number(part_number as int),
            Ok(
                DetectedView::Implemented(OperationView::CompleteMultipartUpload { upload_id }),
            ) => is_canonical_uuid(upload_id),
            Ok(DetectedView::Implemented(OperationView::AbortMultipartUpload { upload_id })) =>
                is_canonical_uuid(upload_id),
            Ok(DetectedView::Implemented(OperationView::ListParts { upload_id })) =>
                is_canonical_uuid(upload_id),
            _ => true,
        },
{
}

/// Each operation is reached by its own method only.
pub proof fn law_operations_keep_to_their_methods(
    request: RequestView,
    base_domain: Option<Seq<char>>,
    query: Seq<char>,
)
    ensures
        match detected_operation(request, base_domain, query) {
            Ok(DetectedView::Implemented(operation)) => match operation {
                OperationView::PutObject => request.method is Put,
                OperationView::UploadPart { .. } => request.method is Put,
                OperationView::CreateMultipartUpload => request.method is Post,
                OperationView::CompleteMultipartUpload { .. } => request.method is Post,
                OperationView::AbortMultipartUpload { .. } => request.method is Delete,
                OperationView::DeleteObject => request.method is Delete,
                OperationView::ListParts { .. } => request.method is Get,
                OperationView::GetObject => request.method is Get,
                OperationView::HeadBucket => request.method is Head,
                OperationView::HeadObject => request.method is Head,
            },
            _ => true,
        },
{
}

/// Requests reach the operations that they are made for. A request for an object that names no
/// multipart upload stores, reads, describes or deletes the object by its method, or starts an
/// upload where it asks for `uploads`; one that names an upload lists, aborts or completes it, or
/// stores the part that it names.
pub proof fn law_requests_reach_their_operations(
    request: RequestView,
    base_domain: Option<Seq<char>>,
    query: Seq<char>,
    upload_id: Seq<char>,
    number: nat,
)
    requires
        names_object(request.path, host_of(request.headers), base_domain),
        is_canonical_uuid(upload_id),
        1 <= number <= 10_000,
    ensures
        ({
            let upload = unique_value(query, "uploadId"@);
            let part = unique_value(query, "partNumber"@);
            let none = Ok::<_, ErrorView>(None::<Seq<char>>);
            let is_named = upload == Ok::<_, ErrorView>(Some(upload_id));
            let detected = detected_operation(request, base_domain, query);
            &&& request.method is Head ==> detected == reached(OperationView::HeadObject)
            &&& request.method is Put && upload == none && part == none ==> detected == reached(
                OperationView::PutObject,
            )
            &&& request.method is Delete && upload == none && part == none ==> detected == reached(
                OperationView::DeleteObject,
            )
            &&& request.method is Get && upload == none && part == none && unique_value(
                query,
                "list-type"@,
            ) == none ==> detected == reached(OperationView::GetObject)
            &&& request.method is Post && upload == none && unique_flag(query, "uploads"@) == Ok::<
                _,
                ErrorView,
            >(true) ==> detected == reached(OperationView::CreateMultipartUpload)
            &&& request.method is Put && is_named && part == Ok::<_, ErrorView>(
                Some(decimal(number)),
            ) ==> detected == reached(OperationView::UploadPart { upload_id, part_number: number })
            &&& request.method is Get && is_named && part == none ==> detected == reached(
                OperationView::ListParts { upload_id },
            )
            &&& request.method is Delete && is_named && part == none ==> detected == reached(
                OperationView::AbortMultipartUpload { upload_id },
            )
            &&& request.method is Post && is_named && unique_flag(query, "uploads"@) == Ok::<
                _,
                ErrorView,
            >(false) ==> detected == reached(OperationView::CompleteMultipartUpload { upload_id })
        }),
{
    lemma_decimal(number);
    assert(decimal(number)[0] != '+');
}

/// An operation that a request reaches.
pub open spec fn reached(operation: OperationView) -> Result<DetectedView, ErrorView> {
    Ok(DetectedView::Implemented(operation))
}

} // verus!
