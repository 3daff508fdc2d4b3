use s3_endpoint::collections::TextSet;
use s3_endpoint::config::{
    AccessKeyConfig, AccessKeyId, ActionSet, AuthConfig, AuthState, Config, ConfigError, S3Action,
    SecretKey, UploadLimits,
};
use s3_endpoint::s3::types::BucketName;

#[test]
fn auth_config_debug_redacts_secret_values() {
    let config = AuthConfig {
        secret_key: "super-secret".to_owned(),
        session_token: Some("session-secret".to_owned()),
        credentials: vec![AccessKeyConfig {
            access_key_id: "client".to_owned(),
            secret_key: "client-secret".to_owned(),
            session_token: Some("client-session".to_owned()),
            active: true,
            allowed_buckets: TextSet::new(),
            allowed_actions: ActionSet::new(),
        }],
        ..AuthConfig::default()
    };

    let debug = config.debug_text();

    assert!(debug.contains("secret_key: \"<redacted>\""));
    assert!(debug.contains("session_token: Some(\"<redacted>\")"));
    assert!(!debug.contains("super-secret"));
    assert!(!debug.contains("session-secret"));
    assert!(!debug.contains("client-secret"));
    assert!(!debug.contains("client-session"));
}

#[test]
fn secret_key_debug_redacts_value() {
    let secret = SecretKey::parse("super-secret").expect("secret");

    assert_eq!(secret.debug_text(), "<redacted>");
    assert!(!secret.debug_text().contains("super-secret"));
}

#[test]
fn access_key_id_validates_like_auth_config() {
    assert_eq!(
        AccessKeyId::parse("client")
            .expect("access key id")
            .as_str(),
        "client"
    );
    assert_eq!(
        AccessKeyId::parse("bad key"),
        Err(ConfigError::InvalidAuthConfig(
            "access_key_id must not contain whitespace or control characters"
        ))
    );
}

#[test]
fn default_auth_config_is_valid() {
    AuthConfig::default().validate().expect("valid auth config");
}

#[test]
fn config_builder_sets_embedded_server_options() {
    let limits = UploadLimits::builder()
        .max_object_size(1024)
        .max_part_size(512)
        .min_non_final_part_size(128)
        .max_concurrent_s3_requests(8)
        .max_active_object_writers(2)
        .max_active_multipart_part_writers(4)
        .max_active_aws_chunked_decoders(3)
        .build();
    let auth = AuthConfig::builder()
        .allow_anonymous(true)
        .primary_credentials("client", "secret")
        .session_token("token")
        .region("eu-west-1")
        .max_skew_seconds(60)
        .allow_bucket("media")
        .allow_action(S3Action::PutObject)
        .credential(
            AccessKeyConfig::builder("extra", "extra-secret")
                .allow_bucket("archive")
                .allow_action(S3Action::GetObject)
                .build(),
        )
        .build();

    let config = Config::builder("/tmp/s3-data")
        .auth(auth)
        .virtual_host_base_domain("s3.test")
        .upload_limits(limits)
        .build();

    assert_eq!(config.storage_root, "/tmp/s3-data");
    assert_eq!(config.virtual_host_base_domain.as_deref(), Some("s3.test"));
    assert!(config.auth.allow_anonymous);
    assert_eq!(config.auth.access_key_id, "client");
    assert_eq!(config.auth.secret_key, "secret");
    assert_eq!(config.auth.session_token.as_deref(), Some("token"));
    assert_eq!(config.auth.region, "eu-west-1");
    assert_eq!(config.auth.max_skew_seconds, 60);
    assert!(config.auth.allowed_buckets.contains("media"));
    assert!(config.auth.allowed_actions.contains(&S3Action::PutObject));
    assert_eq!(config.auth.credentials.len(), 1);
    assert_eq!(config.auth.credentials[0].access_key_id, "extra");
    assert!(
        config.auth.credentials[0]
            .allowed_buckets
            .contains("archive")
    );
    assert_eq!(config.upload_limits.max_object_size, 1024);
    assert_eq!(config.upload_limits.max_part_size, 512);
    assert_eq!(config.upload_limits.min_non_final_part_size, 128);
    assert_eq!(config.upload_limits.max_concurrent_s3_requests, 8);
    assert_eq!(config.upload_limits.max_active_object_writers, 2);
    assert_eq!(config.upload_limits.max_active_multipart_part_writers, 4);
    assert_eq!(config.upload_limits.max_active_aws_chunked_decoders, 3);
}

#[test]
fn upload_limit_presets_are_valid() {
    UploadLimits::default_s3_compatible()
        .validate()
        .expect("default limits");
    UploadLimits::local_development()
        .validate()
        .expect("local development limits");
}

#[test]
fn auth_config_rejects_empty_access_key_id() {
    let config = AuthConfig {
        access_key_id: String::new(),
        ..AuthConfig::default()
    };

    assert_eq!(
        config.validate(),
        Err(ConfigError::InvalidAuthConfig(
            "access_key_id must not be empty"
        ))
    );
}

#[test]
fn auth_config_rejects_access_key_id_whitespace_or_control_characters() {
    let config = AuthConfig {
        access_key_id: "bad key".to_owned(),
        ..AuthConfig::default()
    };

    assert_eq!(
        config.validate(),
        Err(ConfigError::InvalidAuthConfig(
            "access_key_id must not contain whitespace or control characters"
        ))
    );

    let config = AuthConfig {
        access_key_id: "bad\nkey".to_owned(),
        ..AuthConfig::default()
    };

    assert_eq!(
        config.validate(),
        Err(ConfigError::InvalidAuthConfig(
            "access_key_id must not contain whitespace or control characters"
        ))
    );
}

#[test]
fn auth_config_rejects_empty_secret_key() {
    let config = AuthConfig {
        secret_key: String::new(),
        ..AuthConfig::default()
    };

    assert_eq!(
        config.validate(),
        Err(ConfigError::InvalidAuthConfig(
            "secret_key must not be empty"
        ))
    );
}

#[test]
fn auth_config_rejects_secret_key_control_characters() {
    let config = AuthConfig {
        secret_key: "bad\nsecret".to_owned(),
        ..AuthConfig::default()
    };

    assert_eq!(
        config.validate(),
        Err(ConfigError::InvalidAuthConfig(
            "secret_key must not contain control characters"
        ))
    );
}

#[test]
fn auth_config_rejects_empty_session_token() {
    let config = AuthConfig {
        session_token: Some(String::new()),
        ..AuthConfig::default()
    };

    assert_eq!(
        config.validate(),
        Err(ConfigError::InvalidAuthConfig(
            "session_token must not be empty when configured"
        ))
    );
}

#[test]
fn auth_config_rejects_invalid_region() {
    for region in ["", "US-EAST-1", "-us-east-1", "us-east-1-", "us_east_1"] {
        let config = AuthConfig {
            region: region.to_owned(),
            ..AuthConfig::default()
        };

        assert_eq!(
            config.validate(),
            Err(ConfigError::InvalidAuthConfig(
                "region must be a non-empty lowercase AWS region identifier"
            ))
        );
    }
}

#[test]
fn auth_config_rejects_negative_max_skew() {
    let config = AuthConfig {
        max_skew_seconds: -1,
        ..AuthConfig::default()
    };

    assert_eq!(
        config.validate(),
        Err(ConfigError::InvalidAuthConfig(
            "max_skew_seconds must be greater than or equal to 0"
        ))
    );
}

#[test]
fn auth_config_rejects_invalid_allowed_bucket() {
    let config = AuthConfig {
        allowed_buckets: TextSet::from_list(&vec!["bad/bucket".to_owned()]),
        ..AuthConfig::default()
    };

    assert_eq!(
        config.validate(),
        Err(ConfigError::InvalidAuthConfig(
            "allowed_buckets must contain valid bucket names"
        ))
    );
}

#[test]
fn auth_config_empty_allow_lists_permit_everything() {
    let config = AuthConfig::default();
    let bucket = BucketName::parse("any-bucket").expect("bucket");

    assert!(config.permits(&bucket, S3Action::PutObject));
    assert!(config.permits(&bucket, S3Action::AbortMultipartUpload));
}

#[test]
fn auth_config_enforces_bucket_and_action_allow_lists() {
    let config = AuthConfig {
        allowed_buckets: TextSet::from_list(&vec!["allowed-bucket".to_owned()]),
        allowed_actions: ActionSet::from_list(&vec![S3Action::PutObject]),
        ..AuthConfig::default()
    };
    let allowed_bucket = BucketName::parse("allowed-bucket").expect("bucket");
    let denied_bucket = BucketName::parse("denied-bucket").expect("bucket");

    assert!(config.permits(&allowed_bucket, S3Action::PutObject));
    assert!(!config.permits(&denied_bucket, S3Action::PutObject));
    assert!(!config.permits(&allowed_bucket, S3Action::CreateMultipartUpload));
}

#[test]
fn auth_config_rejects_duplicate_credential_access_key_ids() {
    let config = AuthConfig {
        credentials: vec![AccessKeyConfig {
            access_key_id: "test".to_owned(),
            secret_key: "other-secret".to_owned(),
            session_token: None,
            active: true,
            allowed_buckets: TextSet::new(),
            allowed_actions: ActionSet::new(),
        }],
        ..AuthConfig::default()
    };

    assert_eq!(
        config.validate(),
        Err(ConfigError::InvalidAuthConfig(
            "credential access_key_id values must be unique"
        ))
    );
}

#[test]
fn auth_state_indexes_primary_and_additional_credentials() {
    let config = AuthConfig {
        credentials: vec![AccessKeyConfig {
            access_key_id: "client".to_owned(),
            secret_key: "client-secret".to_owned(),
            session_token: Some("client-session".to_owned()),
            active: false,
            allowed_buckets: TextSet::from_list(&vec!["client-bucket".to_owned()]),
            allowed_actions: ActionSet::from_list(&vec![S3Action::PutObject]),
        }],
        ..AuthConfig::default()
    };
    let state = AuthState::new(&config).expect("auth state");

    let primary = state.credential("test").expect("primary credential");
    assert_eq!(primary.access_key_id.as_str(), "test");
    assert!(primary.active);

    let client = state.credential("client").expect("client credential");
    assert_eq!(client.access_key_id.as_str(), "client");
    assert_eq!(client.secret_key.as_str(), "client-secret");
    assert_eq!(client.session_token, Some("client-session"));
    assert!(!client.active);
    let bucket = BucketName::parse("client-bucket").expect("bucket");
    assert!(state.permits_credential("client", &bucket, S3Action::PutObject));
    assert!(!state.permits_credential("client", &bucket, S3Action::CreateMultipartUpload));
}

#[test]
fn auth_state_debug_redacts_credential_values() {
    let config = AuthConfig {
        secret_key: "super-secret".to_owned(),
        session_token: Some("session-secret".to_owned()),
        credentials: vec![AccessKeyConfig {
            access_key_id: "client".to_owned(),
            secret_key: "client-secret".to_owned(),
            session_token: Some("client-session".to_owned()),
            active: true,
            allowed_buckets: TextSet::new(),
            allowed_actions: ActionSet::new(),
        }],
        ..AuthConfig::default()
    };
    let state = AuthState::new(&config).expect("auth state");

    let debug = state.debug_text();

    assert!(debug.contains("credential_count: 2"));
    assert!(!debug.contains("super-secret"));
    assert!(!debug.contains("session-secret"));
    assert!(!debug.contains("client-secret"));
    assert!(!debug.contains("client-session"));
}

#[test]
fn s3_action_parses_iam_and_cli_names() {
    assert_eq!(S3Action::from_str("s3:PutObject"), Ok(S3Action::PutObject));
    assert_eq!(S3Action::from_str("s3:GetObject"), Ok(S3Action::GetObject));
    assert_eq!(S3Action::from_str("get-object"), Ok(S3Action::GetObject));
    assert_eq!(
        S3Action::from_str("s3:HeadObject"),
        Ok(S3Action::HeadObject)
    );
    assert_eq!(S3Action::from_str("head-object"), Ok(S3Action::HeadObject));
    assert_eq!(
        S3Action::from_str("s3:DeleteObject"),
        Ok(S3Action::DeleteObject)
    );
    assert_eq!(
        S3Action::from_str("CreateMultipartUpload"),
        Ok(S3Action::CreateMultipartUpload)
    );
    assert_eq!(S3Action::from_str("upload-part"), Ok(S3Action::UploadPart));
    assert_eq!(
        S3Action::from_str("complete-multipart-upload"),
        Ok(S3Action::CompleteMultipartUpload)
    );
    assert_eq!(
        S3Action::from_str("abort-multipart-upload"),
        Ok(S3Action::AbortMultipartUpload)
    );
    assert_eq!(
        S3Action::from_str("list-multipart-upload-parts"),
        Ok(S3Action::ListMultipartUploadParts)
    );
    assert_eq!(S3Action::from_str("head-bucket"), Ok(S3Action::HeadBucket));
}

#[test]
fn s3_action_rejects_unsupported_actions() {
    assert_eq!(
        S3Action::from_str("s3:ListBucket"),
        Err(ConfigError::InvalidAuthConfig(
            "allowed_actions must contain supported S3 action names"
        ))
    );
}

#[test]
fn default_upload_limits_are_valid() {
    UploadLimits::default().validate().expect("valid limits");
}

#[test]
fn upload_limits_return_positive_validated_values() {
    let limits = UploadLimits {
        max_object_size: 10,
        max_part_size: 8,
        min_non_final_part_size: 4,
        ..Default::default()
    }
    .validated()
    .expect("validated limits");

    assert_eq!(limits.max_object_size.get(), 10);
    assert_eq!(limits.max_part_size.get(), 8);
    assert_eq!(limits.min_non_final_part_size.get(), 4);
    assert_eq!(limits.max_concurrent_s3_requests.get(), 256);
    assert_eq!(limits.max_active_object_writers.get(), 64);
    assert_eq!(limits.max_active_multipart_part_writers.get(), 128);
    assert_eq!(limits.max_active_aws_chunked_decoders.get(), 64);
}

#[test]
fn upload_limits_reject_zero_values() {
    let limits = UploadLimits {
        max_object_size: 0,
        ..UploadLimits::default()
    };
    assert_eq!(
        limits.validate(),
        Err(ConfigError::InvalidUploadLimit(
            "max_object_size must be greater than 0"
        ))
    );

    let limits = UploadLimits {
        max_part_size: 0,
        ..UploadLimits::default()
    };
    assert_eq!(
        limits.validate(),
        Err(ConfigError::InvalidUploadLimit(
            "max_part_size must be greater than 0"
        ))
    );

    let limits = UploadLimits {
        min_non_final_part_size: 0,
        ..UploadLimits::default()
    };
    assert_eq!(
        limits.validate(),
        Err(ConfigError::InvalidUploadLimit(
            "min_non_final_part_size must be greater than 0"
        ))
    );

    let limits = UploadLimits {
        max_concurrent_s3_requests: 0,
        ..UploadLimits::default()
    };
    assert_eq!(
        limits.validate(),
        Err(ConfigError::InvalidUploadLimit(
            "max_concurrent_s3_requests must be greater than 0"
        ))
    );

    let limits = UploadLimits {
        max_active_object_writers: 0,
        ..UploadLimits::default()
    };
    assert_eq!(
        limits.validate(),
        Err(ConfigError::InvalidUploadLimit(
            "max_active_object_writers must be greater than 0"
        ))
    );

    let limits = UploadLimits {
        max_active_multipart_part_writers: 0,
        ..UploadLimits::default()
    };
    assert_eq!(
        limits.validate(),
        Err(ConfigError::InvalidUploadLimit(
            "max_active_multipart_part_writers must be greater than 0"
        ))
    );

    let limits = UploadLimits {
        max_active_aws_chunked_decoders: 0,
        ..UploadLimits::default()
    };
    assert_eq!(
        limits.validate(),
        Err(ConfigError::InvalidUploadLimit(
            "max_active_aws_chunked_decoders must be greater than 0"
        ))
    );
}

#[test]
fn upload_limits_reject_min_part_size_larger_than_max_part_size() {
    let limits = UploadLimits {
        max_object_size: 100,
        max_part_size: 4,
        min_non_final_part_size: 5,
        ..Default::default()
    };

    assert_eq!(
        limits.validate(),
        Err(ConfigError::InvalidUploadLimit(
            "min_non_final_part_size must be less than or equal to max_part_size"
        ))
    );
}

#[test]
fn virtual_host_base_domain_can_be_cleared() {
    let config = Config::builder("/tmp/s3-data")
        .virtual_host_base_domain("s3.test")
        .without_virtual_host_base_domain()
        .build();

    assert_eq!(config.virtual_host_base_domain, None);
}
