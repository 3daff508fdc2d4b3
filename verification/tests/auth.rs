use s3_endpoint::auth::{
    authorize, canonical_headers, canonical_query, is_presigned_query,
    validate_amz_headers_are_signed, validate_signed_headers, AuthContext, AuthError, AuthMode,
    CanonicalQueryMode, CredentialScope, ParsedAuthorization,
};
use s3_endpoint::collections::TextSet;
use s3_endpoint::config::{
    AccessKeyConfig, AccessKeyId, ActionSet, AuthConfig, AuthState, S3Action,
};
use s3_endpoint::hooks::RequestPrincipal;
use s3_endpoint::http::HeaderMap;
use s3_endpoint::s3::types::BucketName;

fn texts(list: &[&str]) -> Vec<String> {
    let mut owned = Vec::new();
    for text in list {
        owned.push((*text).to_owned());
    }
    owned
}

#[test]
fn canonical_query_preserves_empty_values_and_sorts_after_encoding() {
    assert_eq!(
        canonical_query("uploads&z=last&a=one%20two", CanonicalQueryMode::IncludeAll)
            .expect("query"),
        "a=one%20two&uploads=&z=last"
    );
}

#[test]
fn canonical_query_includes_signature_param_for_header_auth() {
    assert_eq!(
        canonical_query(
            "X-Amz-Signature=not-auth&x-id=PutObject",
            CanonicalQueryMode::IncludeAll,
        )
        .expect("query"),
        "X-Amz-Signature=not-auth&x-id=PutObject"
    );
}

#[test]
fn canonical_query_excludes_decoded_signature_param_for_presigned_auth() {
    assert_eq!(
        canonical_query(
            "X-Amz%2DSignature=abc&x-id=PutObject",
            CanonicalQueryMode::ExcludePresignedSignature,
        )
        .expect("query"),
        "x-id=PutObject"
    );
}

#[test]
fn presigned_query_detection_decodes_query_field_names() {
    assert!(is_presigned_query("X-Amz%2DAlgorithm=AWS4-HMAC-SHA256"));
    assert!(!is_presigned_query("x-id=PutObject"));
}

#[test]
fn canonical_headers_trim_and_compress_spaces() {
    let mut headers = HeaderMap::new();
    headers.insert("host", "example.com");
    headers.insert("x-amz-date", "  a   b  ");

    let got = canonical_headers(&headers, &texts(&["x-amz-date", "host"])).expect("headers");

    assert_eq!(got, "host:example.com\nx-amz-date:a b\n");
}

#[test]
fn canonical_headers_join_repeated_values() {
    let mut headers = HeaderMap::new();
    headers.insert("host", "example.com");
    headers.insert(
        "x-amz-meta-owner",
        "  first   value ",
    );
    headers.append("x-amz-meta-owner", "second");

    let got = canonical_headers(&headers, &texts(&["host", "x-amz-meta-owner"])).expect("headers");

    assert_eq!(
        got,
        "host:example.com\nx-amz-meta-owner:first value,second\n"
    );
}

#[test]
fn signed_headers_must_be_lowercase_sorted_unique_and_include_host() {
    assert!(validate_signed_headers(&texts(&["host", "x-amz-date"])).is_ok());
    assert!(matches!(
        validate_signed_headers(&texts(&["Host", "x-amz-date"])),
        Err(AuthError::InvalidSignedHeaders)
    ));
    assert!(matches!(
        validate_signed_headers(&texts(&["x-amz-date"])),
        Err(AuthError::MissingSignedHeader(name)) if name == "host"
    ));
    assert!(matches!(
        validate_signed_headers(&texts(&["x-amz-date", "host"])),
        Err(AuthError::InvalidSignedHeaders)
    ));
    assert!(matches!(
        validate_signed_headers(&texts(&["host", "host"])),
        Err(AuthError::InvalidSignedHeaders)
    ));
}

#[test]
fn all_x_amz_request_headers_must_be_signed() {
    let mut headers = HeaderMap::new();
    headers.insert("host", "example.com");
    headers.insert("x-amz-date", "20260616T120000Z");
    headers.insert("x-amz-meta-owner", "rust");

    assert!(matches!(
        validate_amz_headers_are_signed(&headers, &texts(&["host", "x-amz-date"])),
        Err(AuthError::MissingSignedHeader(name)) if name == "x-amz-meta-owner"
    ));
    assert!(
        validate_amz_headers_are_signed(&headers, &texts(&["host", "x-amz-date", "x-amz-meta-owner"]))
            .is_ok()
    );
}

#[test]
fn authorization_header_rejects_duplicate_fields() {
    let header = format!(
        "AWS4-HMAC-SHA256 Credential=test/20260616/us-east-1/s3/aws4_request, \
         SignedHeaders=host;x-amz-content-sha256;x-amz-date, \
         Signature={}, Signature={}",
        "0".repeat(64),
        "1".repeat(64)
    );

    assert!(matches!(
        ParsedAuthorization::parse(&header),
        Err(AuthError::DuplicateAuthorizationField(name)) if name == "Signature"
    ));
}

#[test]
fn credential_scope_rejects_empty_segments() {
    assert!(matches!(
        CredentialScope::parse("test//us-east-1/s3/aws4_request"),
        Err(AuthError::InvalidCredentialScope)
    ));
    assert!(matches!(
        CredentialScope::parse("test/20260616//s3/aws4_request"),
        Err(AuthError::InvalidCredentialScope)
    ));
}

#[test]
fn credential_scope_rejects_malformed_dates() {
    assert!(matches!(
        CredentialScope::parse("test/2026/us-east-1/s3/aws4_request"),
        Err(AuthError::InvalidCredentialScope)
    ));
    assert!(matches!(
        CredentialScope::parse("test/2026061a/us-east-1/s3/aws4_request"),
        Err(AuthError::InvalidCredentialScope)
    ));
}

#[test]
fn canonical_queries_do_not_depend_on_the_order_of_parameters() {
    for mode in [
        CanonicalQueryMode::IncludeAll,
        CanonicalQueryMode::ExcludePresignedSignature,
    ] {
        let first = canonical_query("b=2&a=%20&X-Amz-Signature=s&a=1", mode).expect("query");
        let second = canonical_query("a=1&X-Amz-Signature=s&a=%20&b=2", mode).expect("query");
        assert_eq!(first, second);
    }
}

fn anonymous_context() -> AuthContext {
    AuthContext {
        mode: AuthMode::Anonymous,
        principal: RequestPrincipal::Anonymous,
        access_key_id: None,
        streaming_signing: None,
    }
}

fn signed_context(id: &str) -> AuthContext {
    AuthContext {
        mode: AuthMode::HeaderSigV4,
        principal: RequestPrincipal::AccessKey {
            access_key_id: AccessKeyId::parse(id).expect("access key"),
        },
        access_key_id: Some(AccessKeyId::parse(id).expect("access key")),
        streaming_signing: None,
    }
}

#[test]
fn anonymous_requests_are_authorized_only_where_they_are_allowed() {
    let bucket = BucketName::parse("public").expect("bucket");
    let other = BucketName::parse("private").expect("bucket");
    let refused = AuthState::new(&AuthConfig::builder().build()).expect("auth");
    let error = authorize(&refused, &anonymous_context(), &bucket, S3Action::GetObject)
        .expect_err("anonymous access is disabled");
    assert_eq!((error.status(), error.code()), (403, "AccessDenied"));

    let allowed = AuthState::new(&AuthConfig::builder().allow_anonymous(true).build());
    let allowed = allowed.expect("auth");
    assert!(authorize(&allowed, &anonymous_context(), &bucket, S3Action::GetObject).is_ok());

    let mut config = AuthConfig::builder().allow_anonymous(true).build();
    config.allowed_buckets.insert("public");
    let listed = AuthState::new(&config).expect("auth");
    assert!(authorize(&listed, &anonymous_context(), &bucket, S3Action::GetObject).is_ok());
    assert!(authorize(&listed, &anonymous_context(), &other, S3Action::GetObject).is_err());
    config.allow_anonymous = false;
    let disabled = AuthState::new(&config).expect("auth");
    assert!(authorize(&disabled, &anonymous_context(), &bucket, S3Action::GetObject).is_err());
}

#[test]
fn signed_requests_are_authorized_only_for_active_credentials() {
    let credential = |active: bool| AccessKeyConfig {
        access_key_id: "client".to_owned(),
        secret_key: "client-secret".to_owned(),
        session_token: None,
        active,
        allowed_buckets: TextSet::new(),
        allowed_actions: ActionSet::new(),
    };
    let bucket = BucketName::parse("client-bucket").expect("bucket");
    let asked = |active: bool, id: &str| {
        let state = AuthState::new(&AuthConfig {
            credentials: vec![credential(active)],
            ..AuthConfig::default()
        })
        .expect("auth");
        authorize(&state, &signed_context(id), &bucket, S3Action::PutObject)
    };
    assert!(asked(true, "client").is_ok());
    let error = asked(false, "client").expect_err("the credential is inactive");
    assert_eq!((error.status(), error.code()), (403, "AccessDenied"));
    assert!(asked(true, "stranger").is_err());
}
