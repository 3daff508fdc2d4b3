//! Checks that many operations share.
use crate::auth::{
    authenticate_at, authentication, authorization_error, authorize, AuthContext, AuthContextView,
    AuthMode,
};
use crate::body::payload::{failure, fixed_hash_error, validate_fixed_sha256_payload_hash};
use crate::config::{AuthState, AuthStateView, S3Action};
use crate::error::{invalid_request, with_resource, ErrorView, S3Error};
use crate::hashing::{sha256, sha256_digest};
use crate::hooks::{
    AuthenticationResult, AuthorizationContext, AuthorizationPolicy, TargetContext, TargetFilter,
};
use crate::http::{host_of, method_text, HeaderMap, RequestView, S3Request};
use crate::s3::target::{
    request_bucket, request_target, resolve_bucket_name, resolve_s3_target, target_error_message,
};
use crate::s3::types::{BucketName, ObjectKey, S3Target, TargetView};
use crate::text::{opt_str, result_view};
use crate::time::Instant;
use vstd::prelude::*;

verus! {

/// What an authentication provider's answer amounts to.
pub open spec fn provider_context(answer: Result<AuthenticationResult, S3Error>) -> Result<
    AuthContextView,
    ErrorView,
> {
    match answer {
        Err(error) => Err(error@),
        Ok(result) => Ok(
            AuthContextView {
                mode: AuthMode::Custom,
                principal: result.principal@,
                access_key_id: crate::storage::model::opt_key_id(result.access_key_id),
                streaming_signing: None,
            },
        ),
    }
}

/// What a request is authenticated as, given the answer of the authentication provider, if any.
pub open spec fn request_context(
    auth: AuthStateView,
    request: S3Request,
    provider: Option<Result<AuthenticationResult, S3Error>>,
    now: (int, int),
) -> Result<AuthContextView, ErrorView> {
    match provider {
        Some(answer) => provider_context(answer),
        None => authentication(
            auth,
            method_text(request.method),
            request.uri@,
            request@.headers,
            now,
        ),
    }
}

/// Authenticates a request through a custom provider or by built-in authentication.
///
/// `provider` is the answer of the custom authentication provider, where one is registered: it then
/// decides alone. Without one, SigV4 signatures or anonymous access are checked at the time `now`.
pub fn authenticate_request(
    auth: &AuthState,
    request: &S3Request,
    provider: Option<Result<AuthenticationResult, S3Error>>,
    now: Instant,
) -> (result: Result<AuthContext, S3Error>)
    ensures
        result_view(result) == request_context(auth@, *request, provider, now@),
{
    match provider {
        Some(Ok(accepted)) => {
            let (principal, access_key_id) = accepted.into_parts();
            Ok(
                AuthContext {
                    mode: AuthMode::Custom,
                    principal,
                    access_key_id,
                    streaming_signing: None,
                },
            )
        },
        Some(Err(error)) => Err(error),
        None => authenticate_at(auth, &request.method, &request.uri, &request.headers, now),
    }
}

/// The target of a request, or the error with which it is answered.
pub open spec fn target_of(request: RequestView, base_domain: Option<Seq<char>>) -> Result<
    TargetView,
    ErrorView,
> {
    match request_target(request.path, host_of(request.headers), base_domain) {
        Ok(target) => Ok(target),
        Err(error) => Err(
            with_resource(invalid_request(target_error_message(error)), request.path),
        ),
    }
}

/// Resolves the S3 bucket and object key from request path and host headers.
///
/// Resolution honors the configured virtual-hosted-style base domain and maps target parsing
/// failures to `InvalidRequest` with the request path resource.
pub fn resolve_request_target(request: &S3Request, base_domain: Option<&str>) -> (result: Result<
    S3Target,
    S3Error,
>)
    ensures
        result_view(result) == target_of(request@, opt_str(base_domain)),
{
    let host = request.host();
    let host_text = match &host {
        Some(text) => Some(text.as_str()),
        None => None,
    };
    match resolve_s3_target(request.uri.path.as_str(), host_text, base_domain) {
        Ok(target) => Ok(target),
        Err(error) => Err(
            S3Error::invalid_request(error.message().as_str()).with_resource(
                request.uri.path.as_str(),
            ),
        ),
    }
}

/// The bucket of a request, or the error with which it is answered.
pub open spec fn bucket_of(request: RequestView, base_domain: Option<Seq<char>>) -> Result<
    Seq<char>,
    ErrorView,
> {
    match request_bucket(request.path, host_of(request.headers), base_domain) {
        Ok(bucket) => Ok(bucket),
        Err(error) => Err(
            with_resource(invalid_request(target_error_message(error)), request.path),
        ),
    }
}

/// Resolves the S3 bucket from request path and host headers.
pub fn resolve_request_bucket(request: &S3Request, base_domain: Option<&str>) -> (result: Result<
    BucketName,
    S3Error,
>)
    ensures
        result_view(result) == bucket_of(request@, opt_str(base_domain)),
{
    let host = request.host();
    let host_text = match &host {
        Some(text) => Some(text.as_str()),
        None => None,
    };
    match resolve_bucket_name(request.uri.path.as_str(), host_text, base_domain) {
        Ok(bucket) => Ok(bucket),
        Err(error) => Err(
            S3Error::invalid_request(error.message().as_str()).with_resource(
                request.uri.path.as_str(),
            ),
        ),
    }
}

/// Whoever a request was authenticated as, and who is asked what they may do.
pub struct Caller<'a, P: AuthorizationPolicy, F: TargetFilter> {
    /// Credentials and allow-lists.
    pub auth: &'a AuthState,
    /// What the request was authenticated as.
    pub context: &'a AuthContext,
    /// The application's filter of targets, if any.
    pub filter: Option<&'a F>,
    /// The application's authorization policy, if any.
    pub policy: Option<&'a P>,
}

/// The view of an optional key.
pub open spec fn opt_key(key: Option<&ObjectKey>) -> Option<Seq<char>> {
    match key {
        Some(k) => Some(k@),
        None => None,
    }
}

/// Whether a filter, asked about an access, gave an answer. A filter that is not there lets every
/// access go on.
#[verifier::opaque]
pub open spec fn filter_answers<F: TargetFilter>(
    filter: Option<&F>,
    bucket: Seq<char>,
    key: Option<Seq<char>>,
    action: S3Action,
    answer: Option<ErrorView>,
) -> bool {
    match filter {
        None => answer is None,
        Some(f) => exists|context: TargetContext, result: Result<(), S3Error>|
            {
                &&& context.bucket@ == bucket
                &&& crate::handlers::s3::opt_view(context.key) == key
                &&& context.action == action
                &&& #[trigger] call_ensures(F::allow_target, (f, context), result)
                &&& failure(result) == answer
            },
    }
}

/// Whether a policy, asked about an access, gave an answer. A policy that is not there allows
/// everything.
#[verifier::opaque]
pub open spec fn policy_answers<P: AuthorizationPolicy>(
    policy: Option<&P>,
    principal: crate::hooks::PrincipalView,
    bucket: Seq<char>,
    key: Option<Seq<char>>,
    action: S3Action,
    answer: Option<ErrorView>,
) -> bool {
    match policy {
        None => answer is None,
        Some(p) => exists|context: AuthorizationContext, result: Result<(), S3Error>|
            {
                &&& context.principal@ == principal
                &&& context.bucket@ == bucket
                &&& crate::handlers::s3::opt_view(context.key) == key
                &&& context.action == action
                &&& #[trigger] call_ensures(P::authorize, (p, context), result)
                &&& failure(result) == answer
            },
    }
}

/// The error of an access: what the filter says, or else what the allow-lists say, or else what the
/// policy says.
pub open spec fn access_error(
    auth: AuthStateView,
    context: AuthContextView,
    bucket: Seq<char>,
    action: S3Action,
    filtered: Option<ErrorView>,
    decided: Option<ErrorView>,
) -> Option<ErrorView> {
    match filtered {
        Some(error) => Some(error),
        None => match authorization_error(auth, context, bucket, action) {
            Some(error) => Some(error),
            None => decided,
        },
    }
}

/// An access to a bucket, or to an object in it.
#[verifier::ext_equal]
pub struct AccessView {
    pub bucket: Seq<char>,
    pub key: Option<Seq<char>>,
    pub action: S3Action,
}

/// Whether the application's hooks, asked about an access, gave answers. The policy is asked only
/// where the filter and the allow-lists let the access pass, and nobody is asked where there is no
/// access.
pub open spec fn hooks_answer<P: AuthorizationPolicy, F: TargetFilter>(
    filter: Option<&F>,
    policy: Option<&P>,
    auth: AuthStateView,
    context: AuthContextView,
    access: Option<AccessView>,
    filtered: Option<ErrorView>,
    decided: Option<ErrorView>,
) -> bool {
    match access {
        None => filtered is None && decided is None,
        Some(a) => {
            &&& filter_answers(filter, a.bucket, a.key, a.action, filtered)
            &&& if filtered is None && authorization_error(
                auth,
                context,
                a.bucket,
                a.action,
            ) is None {
                policy_answers(
                    policy,
                    context.principal,
                    a.bucket,
                    a.key,
                    a.action,
                    decided,
                )
            } else {
                decided is None
            }
        },
    }
}

/// Applies target, static auth, and custom authorization policy checks, in this order.
pub fn authorize_request<P: AuthorizationPolicy, F: TargetFilter>(
    caller: &Caller<'_, P, F>,
    bucket: &BucketName,
    key: Option<&ObjectKey>,
    action: S3Action,
) -> (result: Result<(), S3Error>)
    ensures
        exists|filtered: Option<ErrorView>, decided: Option<ErrorView>|
            {
                &&& #[trigger] hooks_answer(
                    caller.filter,
                    caller.policy,
                    caller.auth@,
                    caller.context@,
                    Some(AccessView { bucket: bucket@, key: opt_key(key), action }),
                    filtered,
                    decided,
                )
                &&& failure(result) == access_error(
                    caller.auth@,
                    caller.context@,
                    bucket@,
                    action,
                    filtered,
                    decided,
                )
            },
{
    reveal(filter_answers);
    reveal(policy_answers);
    let ghost access = Some(AccessView { bucket: bucket@, key: opt_key(key), action });
    match caller.filter {
        None => {},
        Some(filter) => {
            let context = TargetContext {
                bucket: bucket.clone(),
                key: match key {
                    Some(k) => Some(k.clone()),
                    None => None,
                },
                action,
            };
            let answer = filter.allow_target(context);
            assert(filter_answers(
                caller.filter,
                bucket@,
                opt_key(key),
                action,
                failure(answer),
            ));
            match answer {
                Ok(()) => {},
                Err(error) => {
                    assert(hooks_answer(
                        caller.filter,
                        caller.policy,
                        caller.auth@,
                        caller.context@,
                        access,
                        Some(error@),
                        None,
                    ));
                    return Err(error);
                },
            }
        },
    }
    match authorize(caller.auth, caller.context, bucket, action) {
        Ok(()) => {},
        Err(error) => {
            assert(hooks_answer(
                caller.filter,
                caller.policy,
                caller.auth@,
                caller.context@,
                access,
                None,
                None,
            ));
            return Err(error);
        },
    }
    match caller.policy {
        None => {
            assert(hooks_answer(
                caller.filter,
                caller.policy,
                caller.auth@,
                caller.context@,
                access,
                None,
                None,
            ));
            Ok(())
        },
        Some(policy) => {
            let context = AuthorizationContext {
                principal: caller.context.principal.clone(),
                bucket: bucket.clone(),
                key: match key {
                    Some(k) => Some(k.clone()),
                    None => None,
                },
                action,
            };
            let result = policy.authorize(context);
            assert(policy_answers(
                caller.policy,
                caller.context@.principal,
                bucket@,
                opt_key(key),
                action,
                failure(result),
            ));
            assert(hooks_answer(
                caller.filter,
                caller.policy,
                caller.auth@,
                caller.context@,
                access,
                None,
                failure(result),
            ));
            result
        },
    }
}

/// The error of a request without a body whose headers fix the digest of something else.
pub open spec fn empty_hash_error(headers: Seq<(Seq<char>, Seq<u8>)>) -> Option<ErrorView> {
    fixed_hash_error(headers, sha256_digest(Seq::empty()))
}

/// Validates an empty-body operation's fixed SHA-256 payload hash, when supplied.
pub fn validate_empty_payload_hash(headers: &HeaderMap) -> (result: Result<(), S3Error>)
    ensures
        failure(result) == empty_hash_error(headers@),
{
    let empty: Vec<u8> = Vec::new();
    assert(empty@ =~= Seq::<u8>::empty());
    validate_fixed_sha256_payload_hash(headers, &sha256(empty.as_slice()))
}

} // verus!
