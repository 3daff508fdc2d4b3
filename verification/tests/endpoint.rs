use hmac::Mac as _;
use s3_endpoint::auth::{AuthContext, AuthMode};
use s3_endpoint::config::{AuthConfig, AuthState, S3Action};
use s3_endpoint::error::S3Error;
use s3_endpoint::handlers::exchange::{
    admitted, authenticated, carried_out, dispatch, mapped, tenant_outcome, NextStep, OperationEnd,
};
use s3_endpoint::handlers::plan::{dispatch_implemented_operation, OperationPlan};
use s3_endpoint::handlers::request::{authenticate_request, Caller};
use s3_endpoint::handlers::s3::{select_operation, ParsedS3Request};
use s3_endpoint::hooks::{
    AuthenticationResult, AuthorizationContext, AuthorizationPolicy, OperationContext,
    OperationFilter, RequestPrincipal, TargetContext, TargetFilter, TenantAnswer,
    TenantOperationOutcome,
};
use s3_endpoint::http::{HeaderMap, Method, RequestUri, S3Request};
use s3_endpoint::response::ResponseBody;
use s3_endpoint::s3::types::{
    BucketName, ObjectKey, PartNumber, RequestId, S3Operation, UploadId,
};
use s3_endpoint::storage::model::{UploadMetadata, UploadSession, UploadState};
use s3_endpoint::storage::multipart::FileMultipartStore;
use s3_endpoint::time::Instant;
use sha2::Digest as _;

struct Policy(fn(AuthorizationContext) -> Result<(), S3Error>);

impl AuthorizationPolicy for Policy {
    fn authorize(&self, context: AuthorizationContext) -> Result<(), S3Error> {
        (self.0)(context)
    }
}

struct Filter(fn(TargetContext) -> Result<(), S3Error>);

impl TargetFilter for Filter {
    fn allow_target(&self, context: TargetContext) -> Result<(), S3Error> {
        (self.0)(context)
    }
}

struct Operations(fn(OperationContext) -> Result<(), S3Error>);

impl OperationFilter for Operations {
    fn allow_operation(&self, context: OperationContext) -> Result<(), S3Error> {
        (self.0)(context)
    }
}

const NOON: i64 = 1_781_611_200;

fn at(seconds: i64) -> Instant {
    Instant::new(seconds, 0).expect("instant")
}

fn request(method: &str, target: &str) -> S3Request {
    S3Request {
        method: Method::from_text(method),
        uri: RequestUri::new(target),
        headers: HeaderMap::new(),
    }
}

fn anonymous() -> AuthState {
    AuthState::new(&AuthConfig::builder().allow_anonymous(true).build()).expect("auth")
}

fn plan_with(
    auth: &AuthState,
    context: &AuthContext,
    policy: Option<&Policy>,
    filter: Option<&Filter>,
    request: &S3Request,
    session: Option<&UploadSession>,
) -> Result<OperationPlan, S3Error> {
    let operation = select_operation(ParsedS3Request::parse(request, None).operation)?;
    let caller = Caller { auth, context, filter, policy };
    let mut uploads = FileMultipartStore::new();
    if let Some(upload) = session {
        uploads.register(upload.clone());
    }
    dispatch_implemented_operation(
        request,
        None,
        &caller,
        &uploads,
        &RequestId::parse("request-1").expect("request id"),
        operation,
    )
}

fn plan(request: &S3Request, session: Option<&UploadSession>) -> Result<OperationPlan, S3Error> {
    let auth = anonymous();
    let context = authenticate_request(&auth, request, None, at(NOON)).expect("anonymous");
    plan_with(&auth, &context, None, None, request, session)
}

fn upload() -> UploadSession {
    FileMultipartStore::create_upload(
        BucketName::parse("test-bucket").expect("bucket"),
        ObjectKey::parse("key.txt").expect("key"),
        None,
        UploadMetadata::default(),
        at(0),
    )
}

#[test]
fn objects_are_described_sent_and_deleted() {
    assert!(matches!(
        plan(&request("HEAD", "/test-bucket/key.txt"), None),
        Ok(OperationPlan::DescribeObject(target)) if target.key.as_str() == "key.txt"
    ));
    assert!(matches!(
        plan(&request("GET", "/test-bucket/key.txt"), None),
        Ok(OperationPlan::SendObject(target)) if target.bucket.as_str() == "test-bucket"
    ));
    assert!(matches!(
        plan(&request("DELETE", "/test-bucket/key.txt"), None),
        Ok(OperationPlan::DeleteObject(_))
    ));
    let Ok(OperationPlan::Respond(response)) = plan(&request("HEAD", "/test-bucket"), None) else {
        panic!("buckets are answered at once");
    };
    assert_eq!(response.status, 200);
    assert_eq!(response.body, ResponseBody::Empty);
    let mut hashed = request("GET", "/test-bucket/key.txt");
    hashed.headers.insert("x-amz-content-sha256", &"0".repeat(64));
    assert!(plan(&hashed, None).is_err());
}

#[test]
fn uploads_are_received_with_their_metadata() {
    let mut put = request("PUT", "/test-bucket/key.txt");
    assert_eq!(
        plan(&put, None).expect_err("no length").code(),
        "MissingContentLength"
    );
    put.headers.insert("content-length", "5");
    put.headers.insert("content-type", "text/plain");
    let Ok(OperationPlan::ReceiveObject { target, metadata }) = plan(&put, None) else {
        panic!("an upload is received");
    };
    assert_eq!(target.key.as_str(), "key.txt");
    assert_eq!(metadata.content_type.as_deref(), Some("text/plain"));
    put.headers.insert("x-amz-copy-source", "/a/b");
    assert!(plan(&put, None).is_err());

    let post = request("POST", "/test-bucket/key.txt?uploads");
    assert!(matches!(
        plan(&post, None),
        Ok(OperationPlan::CreateUpload { owner: None, .. })
    ));
}

#[test]
fn multipart_requests_need_their_upload() {
    let session = upload();
    let id = session.upload_id.as_str().to_owned();
    let mut part = request("PUT", &format!("/test-bucket/key.txt?partNumber=3&uploadId={id}"));
    part.headers.insert("content-length", "5");
    assert!(matches!(
        plan(&part, Some(&session)),
        Ok(OperationPlan::ReceivePart { part_number, .. })
            if part_number == PartNumber::parse(3).expect("part number")
    ));
    assert_eq!(plan(&part, None).expect_err("no upload").code(), "NoSuchUpload");
    assert_eq!(
        plan(&part, Some(&upload())).expect_err("another upload").code(),
        "NoSuchUpload"
    );
    let mut closed = session.clone();
    closed.state = UploadState::Completing;
    assert_eq!(
        plan(&part, Some(&closed)).expect_err("closed").code(),
        "NoSuchUpload"
    );
    let mut elsewhere = request("PUT", &format!("/test-bucket/other?partNumber=3&uploadId={id}"));
    elsewhere.headers.insert("content-length", "5");
    assert_eq!(
        plan(&elsewhere, Some(&session)).expect_err("other key").code(),
        "NoSuchUpload"
    );

    let post = request("POST", &format!("/test-bucket/key.txt?uploadId={id}"));
    assert!(matches!(
        plan(&post, Some(&session)),
        Ok(OperationPlan::CompleteUpload { location, .. }) if location == "/test-bucket/key.txt"
    ));
    let delete = request("DELETE", &format!("/test-bucket/key.txt?uploadId={id}"));
    assert!(matches!(
        plan(&delete, Some(&session)),
        Ok(OperationPlan::AbortUpload(_))
    ));
    let list = request("GET", &format!("/test-bucket/key.txt?uploadId={id}"));
    let Ok(OperationPlan::Respond(response)) = plan(&list, Some(&session)) else {
        panic!("parts are listed at once");
    };
    assert_eq!(response.status, 200);

    let mut owned = session.clone();
    owned.owner_access_key_id =
        Some(s3_endpoint::config::AccessKeyId::parse("owner").expect("owner"));
    assert_eq!(
        plan(&list, Some(&owned)).expect_err("not the owner").code(),
        "NoSuchUpload"
    );
}

#[test]
fn authorization_policy_can_deny_allowed_request() {
    let auth = anonymous();
    let mut put = request("PUT", "/test-bucket/blocked.txt");
    put.headers.insert("content-length", "2");
    let context = authenticate_request(&auth, &put, None, at(NOON)).expect("anonymous");
    let policy = Policy(|context| {
        assert_eq!(context.bucket.as_str(), "test-bucket");
        assert_eq!(
            context.key.as_ref().map(|key| key.as_str()),
            Some("blocked.txt")
        );
        assert_eq!(context.action, S3Action::PutObject);
        Err(S3Error::access_denied("blocked by policy"))
    });
    let error = plan_with(&auth, &context, Some(&policy), None, &put, None).expect_err("denied");
    assert_eq!(error.status(), 403);
    assert_eq!(error.message(), "blocked by policy");

    let filter = Filter(|context| {
        assert_eq!(context.action, S3Action::PutObject);
        Err(S3Error::no_such_bucket(context.bucket.as_str()))
    });
    let error = plan_with(&auth, &context, Some(&policy), Some(&filter), &put, None)
        .expect_err("filtered");
    assert_eq!(error.code(), "NoSuchBucket");
}

#[test]
fn authentication_provider_can_replace_static_auth() {
    let auth = AuthState::new(&AuthConfig::default()).expect("auth");
    let head = request("HEAD", "/test-bucket");
    let context = authenticate_request(
        &auth,
        &head,
        Some(Ok(AuthenticationResult::custom("tenant-a"))),
        at(NOON),
    )
    .expect("accepted");
    assert_eq!(context.mode, AuthMode::Custom);
    assert!(plan_with(&auth, &context, None, None, &head, None).is_ok());

    let denied = authenticate_request(
        &auth,
        &head,
        Some(Err(S3Error::access_denied("invalid api key"))),
        at(NOON),
    )
    .expect_err("denied");
    assert_eq!(denied.status(), 403);
    assert!(authenticate_request(&auth, &head, None, at(NOON)).is_err());
}

#[test]
fn authorization_policy_receives_custom_auth_principal() {
    let auth = AuthState::new(&AuthConfig::default()).expect("auth");
    let head = request("HEAD", "/test-bucket");
    let context = authenticate_request(
        &auth,
        &head,
        Some(Ok(AuthenticationResult::custom("tenant-a"))),
        at(NOON),
    )
    .expect("accepted");
    let policy = Policy(|context| {
        assert_eq!(
            context.principal,
            RequestPrincipal::Custom { id: "tenant-a".to_owned() }
        );
        Ok(())
    });
    let Ok(OperationPlan::Respond(response)) =
        plan_with(&auth, &context, Some(&policy), None, &head, None)
    else {
        panic!("the policy lets the request pass");
    };
    assert_eq!(response.status, 200);
}

fn mac(key: &[u8], data: &str) -> Vec<u8> {
    let mut mac = hmac::Hmac::<sha2::Sha256>::new_from_slice(key).expect("key");
    mac.update(data.as_bytes());
    mac.finalize().into_bytes().to_vec()
}

fn sha(data: &str) -> String {
    hex::encode(sha2::Sha256::digest(data.as_bytes()))
}

fn signature(secret: &str, string_to_sign: &str) -> String {
    let date = mac(format!("AWS4{secret}").as_bytes(), "20260616");
    let region = mac(&date, "us-east-1");
    let service = mac(&region, "s3");
    let key = mac(&service, "aws4_request");
    hex::encode(mac(&key, string_to_sign))
}

fn signed_get(secret: &str) -> S3Request {
    let canonical = "GET\n/test-bucket/a%2520b.txt\nx-id=1\nhost:localhost\n\
                     x-amz-content-sha256:UNSIGNED-PAYLOAD\nx-amz-date:20260616T120000Z\n\n\
                     host;x-amz-content-sha256;x-amz-date\nUNSIGNED-PAYLOAD";
    let string_to_sign = format!(
        "AWS4-HMAC-SHA256\n20260616T120000Z\n20260616/us-east-1/s3/aws4_request\n{}",
        sha(canonical)
    );
    let mut get = request("GET", "/test-bucket/a%20b.txt?x-id=1");
    get.headers.insert("host", "localhost");
    get.headers.insert("x-amz-content-sha256", "UNSIGNED-PAYLOAD");
    get.headers.insert("x-amz-date", "20260616T120000Z");
    get.headers.insert(
        "authorization",
        &format!(
            "AWS4-HMAC-SHA256 Credential=test/20260616/us-east-1/s3/aws4_request, \
             SignedHeaders=host;x-amz-content-sha256;x-amz-date, Signature={}",
            signature(secret, &string_to_sign)
        ),
    );
    get
}

fn signing_auth() -> AuthState {
    AuthState::new(
        &AuthConfig::builder().primary_credentials("test", "testsecret").build(),
    )
    .expect("auth")
}

#[test]
fn signed_requests_are_authenticated() {
    let auth = signing_auth();
    let get = signed_get("testsecret");
    let context = authenticate_request(&auth, &get, None, at(NOON)).expect("signed");
    assert_eq!(context.mode, AuthMode::HeaderSigV4);
    assert_eq!(context.access_key_id.as_ref().map(|id| id.as_str()), Some("test"));
    assert!(authenticate_request(&auth, &get, None, at(NOON + 900)).is_ok());
    assert_eq!(
        authenticate_request(&auth, &get, None, at(NOON + 901)).expect_err("late").code(),
        "RequestTimeTooSkewed"
    );
    assert_eq!(
        authenticate_request(&auth, &signed_get("other"), None, at(NOON))
            .expect_err("signature")
            .code(),
        "SignatureDoesNotMatch"
    );
    let mut changed = signed_get("testsecret");
    changed.uri = RequestUri::new("/test-bucket/other.txt?x-id=1");
    assert_eq!(
        authenticate_request(&auth, &changed, None, at(NOON)).expect_err("path").code(),
        "SignatureDoesNotMatch"
    );
}

#[test]
fn presigned_urls_are_authenticated_until_they_expire() {
    let auth = signing_auth();
    let query = "X-Amz-Algorithm=AWS4-HMAC-SHA256\
                 &X-Amz-Credential=test%2F20260616%2Fus-east-1%2Fs3%2Faws4_request\
                 &X-Amz-Date=20260616T120000Z&X-Amz-Expires=60&X-Amz-SignedHeaders=host";
    let canonical = format!(
        "GET\n/test-bucket/key.txt\n{query}\nhost:localhost\n\nhost\nUNSIGNED-PAYLOAD"
    );
    let string_to_sign = format!(
        "AWS4-HMAC-SHA256\n20260616T120000Z\n20260616/us-east-1/s3/aws4_request\n{}",
        sha(&canonical)
    );
    let mut get = request(
        "GET",
        &format!(
            "/test-bucket/key.txt?{query}&X-Amz-Signature={}",
            signature("testsecret", &string_to_sign)
        ),
    );
    get.headers.insert("host", "localhost");
    let context = authenticate_request(&auth, &get, None, at(NOON)).expect("presigned");
    assert_eq!(context.mode, AuthMode::PresignedUrl);
    assert!(authenticate_request(&auth, &get, None, at(NOON + 60)).is_ok());
    assert!(authenticate_request(&auth, &get, None, at(NOON + 61)).is_err());
}

fn let_in(request: &S3Request) -> NextStep {
    admitted::<Operations>(Ok(()), ParsedS3Request::parse(request, None).operation, None)
}

fn go_on(auth: &AuthState, request: &S3Request, tenant: TenantAnswer) -> NextStep {
    let NextStep::Authenticate(operation) = let_in(request) else {
        panic!("the operation is supported");
    };
    match authenticated(auth, request, None, at(NOON), operation) {
        NextStep::BeginOperation { context, operation } => dispatch::<Policy, Filter>(
            auth,
            request,
            None,
            context,
            tenant,
            None,
            None,
            &FileMultipartStore::new(),
            &RequestId::parse("request-1").expect("request id"),
            operation,
        ),
        next => next,
    }
}

fn mapped_error(next: NextStep) -> S3Error {
    match next {
        NextStep::MapError(error) => error,
        other => panic!("{other:?}"),
    }
}

#[test]
fn requests_are_handled_step_by_step() {
    let id = RequestId::parse("request-1").expect("request id");
    let auth = anonymous();
    let get = request("GET", "/test-bucket/key.txt");
    let NextStep::CarryOut { context, plan } = go_on(&auth, &get, TenantAnswer::Begun) else {
        panic!("objects are public");
    };
    assert_eq!(context.mode, AuthMode::Anonymous);
    assert!(matches!(plan, OperationPlan::SendObject(_)));
    let end = OperationEnd::Finished(Err(S3Error::no_such_key()));
    assert_eq!(
        tenant_outcome(&end),
        TenantOperationOutcome::Error {
            status: 404,
            code: "NoSuchKey".to_owned()
        }
    );
    let error = mapped_error(carried_out(&get.method, end, &id));
    let NextStep::Respond(response) = mapped(&get.method, error, &id) else {
        panic!("mapped errors are sent");
    };
    assert_eq!(response.status, 404);
    assert!(response
        .headers
        .contains(&("x-amz-request-id".to_owned(), "request-1".to_owned())));
    assert!(
        matches!(response.body, ResponseBody::Text(text) if text.contains("<Code>NoSuchKey</Code>"))
    );

    let busy = S3Error::slow_down("too many active S3 requests; retry the request");
    let next =
        admitted::<Operations>(Err(busy), ParsedS3Request::parse(&get, None).operation, None);
    assert_eq!(mapped_error(next).code(), "SlowDown");
    let list = request("GET", "/test-bucket?list-type=2");
    assert_eq!(mapped_error(let_in(&list)).code(), "NotImplemented");
}

#[test]
fn operations_are_filtered_before_requests_are_authenticated() {
    let reads_only = Operations(|context| match context.action {
        S3Action::GetObject => Ok(()),
        _ => Err(S3Error::access_denied(&format!("no {}", context.operation.name()))),
    });
    let ask = |method: &str| {
        let request = request(method, "/test-bucket/key.txt");
        let parsed = ParsedS3Request::parse(&request, None);
        admitted(Ok(()), parsed.operation, Some(&reads_only))
    };
    assert!(matches!(ask("GET"), NextStep::Authenticate(S3Operation::GetObject)));
    let error = mapped_error(ask("DELETE"));
    assert_eq!(error.status(), 403);
    assert_eq!(error.message(), "no DeleteObject");
}

#[test]
fn tenants_limit_operations() {
    let id = RequestId::parse("request-1").expect("request id");
    let auth = anonymous();
    let get = request("GET", "/test-bucket/key.txt");

    let error = mapped_error(go_on(&auth, &get, TenantAnswer::InvalidPrincipal));
    assert_eq!((error.status(), error.code()), (403, "AccessDenied"));
    assert_eq!(error.message(), "invalid custom principal id");
    let refused = TenantAnswer::Refused(S3Error::slow_down("tenant is busy"));
    let error = mapped_error(go_on(&auth, &get, refused));
    assert_eq!(error.message(), "tenant is busy");

    let timed_out = OperationEnd::TimedOut;
    assert_eq!(
        tenant_outcome(&timed_out),
        TenantOperationOutcome::TimedOut {
            status: 503,
            code: "SlowDown".to_owned()
        }
    );
    let error = mapped_error(carried_out(&get.method, timed_out, &id));
    assert_eq!((error.status(), error.code()), (503, "SlowDown"));
    assert_eq!(error.message(), "operation timed out");

    let numbered = request("GET", "/test-bucket/key.txt?uploadId=x&partNumber=3");
    let context = ParsedS3Request::parse(&numbered, None).log_context.tenant_context(
        &id,
        "tenant-a".to_owned(),
        &RequestPrincipal::Custom { id: "a".to_owned() },
        Method::Get,
        &S3Operation::GetObject,
        Some(4),
    );
    assert_eq!(context.request_id.as_str(), "request-1");
    assert_eq!(context.tenant, "tenant-a");
    assert_eq!(context.principal.to_text(), "a");
    assert_eq!(context.method, Method::Get);
    assert_eq!(context.action, S3Action::GetObject);
    assert_eq!(context.bucket.expect("bucket").as_str(), "test-bucket");
    assert_eq!(context.key.expect("key").as_str(), "key.txt");
    assert!(context.upload_id.is_none());
    assert_eq!(context.part_number.expect("part number").get(), 3);
    assert_eq!(context.content_length, Some(4));
}

#[test]
fn response_mappers_see_what_was_asked_for() {
    let id = RequestId::parse("request-1").expect("request id");
    let get = request("GET", "/test-bucket/key.txt");
    let context = ParsedS3Request::parse(&get, None).response_context(&id);
    assert_eq!(context.request_id.as_str(), "request-1");
    assert_eq!(context.operation, "GetObject");
    assert_eq!(context.bucket.expect("bucket").as_str(), "test-bucket");
    assert_eq!(context.key.expect("key").as_str(), "key.txt");
}

#[test]
fn unauthenticated_requests_are_turned_away() {
    let id = RequestId::parse("request-1").expect("request id");
    let auth = AuthState::new(&AuthConfig::builder().build()).expect("auth");
    let head = request("HEAD", "/test-bucket/key.txt");
    let error = mapped_error(go_on(&auth, &head, TenantAnswer::Begun));
    assert_eq!(error.code(), "AccessDenied");
    let NextStep::Respond(response) = mapped(&head.method, error, &id) else {
        panic!("mapped errors are sent");
    };
    assert_eq!(response.status, 403);
    assert_eq!(response.body, ResponseBody::Empty);
}
