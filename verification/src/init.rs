//! What can go wrong when an endpoint is set up.
use crate::config::ConfigError;
use crate::storage::error::StoreError;
use crate::text::{chars_of, contains_char, opt_str};
use vstd::prelude::*;

verus! {

/// Errors returned while an endpoint is set up.
#[derive(Debug)]
pub enum AppInitError {
    /// Configuration or credential validation failed.
    Config(ConfigError),
    /// Storage initialization or cleanup failed.
    Store(StoreError),
    /// Router tuning configuration is invalid.
    RouterConfig(String),
}

/// What an error of the setup says.
pub open spec fn init_error_message(error: AppInitError) -> Seq<char> {
    match error {
        AppInitError::Config(_) => "invalid configuration"@,
        AppInitError::Store(_) => "failed to initialize storage"@,
        AppInitError::RouterConfig(text) => "invalid router configuration: "@ + text@,
    }
}

impl AppInitError {
    /// What the error says.
    pub fn message(&self) -> (message: String)
        ensures
            message@ == init_error_message(*self),
    {
        match self {
            AppInitError::Config(_) => "invalid configuration".to_owned(),
            AppInitError::Store(_) => "failed to initialize storage".to_owned(),
            AppInitError::RouterConfig(text) => "invalid router configuration: ".to_owned().concat(
                text.as_str(),
            ),
        }
    }
}

/// Whether a path can be served as a health check: it is absolute, not the root, and holds no
/// wildcard.
pub open spec fn is_health_path(path: Seq<char>) -> bool {
    path.len() > 1 && path[0] == '/' && !path.contains('*')
}

/// Tests the path of the health check, if there is one.
pub fn validate_health_path(path: Option<&str>) -> (result: Result<(), AppInitError>)
    ensures
        match result {
            Ok(()) => opt_str(path) is None || is_health_path(opt_str(path)->0),
            Err(error) => {
                &&& opt_str(path) is Some
                &&& !is_health_path(opt_str(path)->0)
                &&& error is RouterConfig
                &&& error->RouterConfig_0@
                    == "health path must start with '/' and must not contain wildcards"@
            },
        },
{
    let text = match path {
        None => {
            return Ok(());
        },
        Some(text) => text,
    };
    let chars = chars_of(text);
    if chars.len() > 1 && chars[0] == '/' && !contains_char(text, '*') {
        Ok(())
    } else {
        Err(
            AppInitError::RouterConfig(
                "health path must start with '/' and must not contain wildcards".to_owned(),
            ),
        )
    }
}

} // verus!
