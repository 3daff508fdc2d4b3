use s3_endpoint::config::{AccessKeyConfig, S3Action};
use s3_endpoint::credentials::{
    credentials_from_entries, default_active, parse_s3_action, CredentialFileEntry,
};
use s3_endpoint::init::{validate_health_path, AppInitError};
use s3_endpoint::storage::error::StoreError;

/// Reads the entries of a credentials file.
fn entries(json: &str) -> Vec<CredentialFileEntry> {
    let texts = |value: Option<&serde_json::Value>| -> Vec<String> {
        value
            .and_then(|list| list.as_array())
            .map(|list| {
                list.iter()
                    .map(|item| item.as_str().expect("text").to_owned())
                    .collect()
            })
            .unwrap_or_default()
    };
    let value: serde_json::Value = serde_json::from_str(json).expect("json");
    value
        .as_array()
        .expect("array")
        .iter()
        .map(|entry| CredentialFileEntry {
            access_key_id: entry["access_key_id"].as_str().expect("id").to_owned(),
            secret_key: entry["secret_key"].as_str().expect("secret").to_owned(),
            session_token: entry
                .get("session_token")
                .map(|token| token.as_str().expect("token").to_owned()),
            active: entry
                .get("active")
                .map(|active| active.as_bool().expect("flag"))
                .unwrap_or_else(default_active),
            allowed_buckets: texts(entry.get("allowed_buckets")),
            allowed_actions: texts(entry.get("allowed_actions")),
        })
        .collect()
}

fn parse_credentials_json(json: &str) -> Result<Vec<AccessKeyConfig>, String> {
    credentials_from_entries(entries(json))
}

#[test]
fn credentials_json_parses_additional_credentials() {
    let credentials = parse_credentials_json(
        r#"[
          {
            "access_key_id": "client-a",
            "secret_key": "client-secret",
            "session_token": "client-session",
            "allowed_buckets": ["bucket-a", "bucket-b"],
            "allowed_actions": ["s3:PutObject", "upload-part"]
          }
        ]"#,
    )
    .expect("parse credentials");

    assert_eq!(credentials.len(), 1);
    let credential = &credentials[0];
    assert_eq!(credential.access_key_id, "client-a");
    assert_eq!(credential.secret_key, "client-secret");
    assert_eq!(credential.session_token.as_deref(), Some("client-session"));
    assert!(credential.active);
    assert!(credential.allowed_buckets.contains("bucket-a"));
    assert!(credential.allowed_buckets.contains("bucket-b"));
    assert!(credential.allowed_actions.contains(&S3Action::PutObject));
    assert!(credential.allowed_actions.contains(&S3Action::UploadPart));
}

#[test]
fn credentials_json_allows_inactive_credentials() {
    let credentials = parse_credentials_json(
        r#"[
          {
            "access_key_id": "inactive-client",
            "secret_key": "inactive-secret",
            "active": false
          }
        ]"#,
    )
    .expect("parse credentials");

    assert_eq!(credentials.len(), 1);
    assert!(!credentials[0].active);
    assert!(credentials[0].allowed_buckets.is_empty());
    assert!(credentials[0].allowed_actions.is_empty());
}

#[test]
fn credentials_json_rejects_unsupported_actions() {
    let Err(error) = parse_credentials_json(
        r#"[
          {
            "access_key_id": "bad-client",
            "secret_key": "bad-secret",
            "allowed_actions": ["s3:ListBucket"]
          }
        ]"#,
    ) else {
        panic!("invalid action should fail");
    };

    assert!(error.contains("allowed_actions must contain supported S3 action names"));
}

#[test]
fn action_names_of_the_command_line_are_parsed() {
    assert_eq!(parse_s3_action("upload-part"), Ok(S3Action::UploadPart));
    assert_eq!(parse_s3_action("GetObject"), Ok(S3Action::GetObject));
    assert_eq!(
        parse_s3_action("s3:ListBucket"),
        Err("invalid auth configuration: allowed_actions must contain supported S3 action names"
            .to_owned())
    );
}

#[test]
fn health_paths_are_absolute_and_without_wildcards() {
    assert!(validate_health_path(None).is_ok());
    assert!(validate_health_path(Some("/ready")).is_ok());
    for path in ["", "/", "ready", "/re*dy"] {
        let Err(error) = validate_health_path(Some(path)) else {
            panic!("path should be refused");
        };
        assert_eq!(
            error.message(),
            "invalid router configuration: health path must start with '/' and must not contain wildcards"
        );
    }
    assert_eq!(
        AppInitError::Store(StoreError::InvalidPart).message(),
        "failed to initialize storage"
    );
}
