//! Runtime configuration, credentials and allow-lists.
use crate::collections::{is_sorted, lemma_push_to_set, TextSet};
use crate::s3::types::{parse_bucket_name, BucketName};
use crate::text::{
    bool_str, bool_text, chars_of, contains_char, contains_control, decimal, decimal_text,
    has_control, join, joined, opt_str, opt_text, same, texts,
};
use vstd::prelude::*;

verus! {

// ---------------------------------------------------------------------------------------------
// Errors
// ---------------------------------------------------------------------------------------------
/// Configuration validation error.
#[derive(Clone, Copy, Debug, PartialEq, Eq)]
pub enum ConfigError {
    /// Upload limit validation failed.
    InvalidUploadLimit(&'static str),
    /// Auth configuration validation failed.
    InvalidAuthConfig(&'static str),
}

/// A [`ConfigError`] as a mathematical value.
pub enum ConfigErrorView {
    InvalidUploadLimit(Seq<char>),
    InvalidAuthConfig(Seq<char>),
}

impl View for ConfigError {
    type V = ConfigErrorView;

    open spec fn view(&self) -> ConfigErrorView {
        match self {
            ConfigError::InvalidUploadLimit(text) => ConfigErrorView::InvalidUploadLimit(text@),
            ConfigError::InvalidAuthConfig(text) => ConfigErrorView::InvalidAuthConfig(text@),
        }
    }
}

/// The message of a configuration error.
pub open spec fn config_error_message(error: ConfigErrorView) -> Seq<char> {
    match error {
        ConfigErrorView::InvalidUploadLimit(text) => "invalid upload limit: "@ + text,
        ConfigErrorView::InvalidAuthConfig(text) => "invalid auth configuration: "@ + text,
    }
}

impl ConfigError {
    /// The message shown to users.
    pub fn message(&self) -> (message: String)
        ensures
            message@ == config_error_message(self@),
    {
        match self {
            ConfigError::InvalidUploadLimit(text) => "invalid upload limit: ".to_owned().concat(
                text,
            ),
            ConfigError::InvalidAuthConfig(text) => "invalid auth configuration: ".to_owned().concat(
                text,
            ),
        }
    }
}

/// The error that a validation found, if any.
pub open spec fn check_error(result: Result<(), ConfigError>) -> Option<ConfigErrorView> {
    match result {
        Ok(_) => None,
        Err(error) => Some(error@),
    }
}

/// The first of two errors, in the order in which the checks are made.
pub open spec fn first_error(
    first: Option<ConfigErrorView>,
    second: Option<ConfigErrorView>,
) -> Option<ConfigErrorView> {
    match first {
        Some(error) => Some(error),
        None => second,
    }
}

// ---------------------------------------------------------------------------------------------
// Upload limits
// ---------------------------------------------------------------------------------------------
/// Upload size and concurrency limits.
#[derive(Clone, Copy, Debug, PartialEq, Eq)]
pub struct UploadLimits {
    /// Maximum decoded object size in bytes.
    pub max_object_size: u64,
    /// Maximum decoded multipart part size in bytes.
    pub max_part_size: u64,
    /// Minimum size for each non-final multipart part in bytes.
    pub min_non_final_part_size: u64,
    /// Maximum number of concurrent S3 requests admitted by the router.
    pub max_concurrent_s3_requests: usize,
    /// Maximum number of concurrent `PutObject` writers.
    pub max_active_object_writers: usize,
    /// Maximum number of concurrent multipart `UploadPart` writers.
    pub max_active_multipart_part_writers: usize,
    /// Maximum number of concurrent aws-chunked decoders.
    pub max_active_aws_chunked_decoders: usize,
}

/// The limits used unless others are configured: parts of 5 GiB at most and 5 MiB at least, and
/// objects as large as 10,000 parts of the largest size.
pub open spec fn default_limits() -> UploadLimits {
    UploadLimits {
        max_object_size: 53_687_091_200_000,
        max_part_size: 5_368_709_120,
        min_non_final_part_size: 5_242_880,
        max_concurrent_s3_requests: 256,
        max_active_object_writers: 64,
        max_active_multipart_part_writers: 128,
        max_active_aws_chunked_decoders: 64,
    }
}

/// Smaller limits for local development: objects of 1 GiB, parts of 512 MiB at most.
pub open spec fn development_limits() -> UploadLimits {
    UploadLimits {
        max_object_size: 1_073_741_824,
        max_part_size: 536_870_912,
        min_non_final_part_size: 5_242_880,
        max_concurrent_s3_requests: 64,
        max_active_object_writers: 16,
        max_active_multipart_part_writers: 32,
        max_active_aws_chunked_decoders: 16,
    }
}

/// The error of limits of which one is zero: the first in the order of the fields.
pub open spec fn zero_limit_error(limits: UploadLimits) -> Option<ConfigErrorView> {
    if limits.max_object_size == 0 {
        Some(ConfigErrorView::InvalidUploadLimit("max_object_size must be greater than 0"@))
    } else if limits.max_part_size == 0 {
        Some(ConfigErrorView::InvalidUploadLimit("max_part_size must be greater than 0"@))
    } else if limits.min_non_final_part_size == 0 {
        Some(ConfigErrorView::InvalidUploadLimit("min_non_final_part_size must be greater than 0"@))
    } else if limits.max_concurrent_s3_requests == 0 {
        Some(
            ConfigErrorView::InvalidUploadLimit(
                "max_concurrent_s3_requests must be greater than 0"@,
            ),
        )
    } else if limits.max_active_object_writers == 0 {
        Some(
            ConfigErrorView::InvalidUploadLimit(
                "max_active_object_writers must be greater than 0"@,
            ),
        )
    } else if limits.max_active_multipart_part_writers == 0 {
        Some(
            ConfigErrorView::InvalidUploadLimit(
                "max_active_multipart_part_writers must be greater than 0"@,
            ),
        )
    } else if limits.max_active_aws_chunked_decoders == 0 {
        Some(
            ConfigErrorView::InvalidUploadLimit(
                "max_active_aws_chunked_decoders must be greater than 0"@,
            ),
        )
    } else {
        None
    }
}

/// The error of limits that cannot be used.
pub open spec fn limits_error(limits: UploadLimits) -> Option<ConfigErrorView> {
    first_error(
        zero_limit_error(limits),
        if limits.min_non_final_part_size > limits.max_part_size {
            Some(
                ConfigErrorView::InvalidUploadLimit(
                    "min_non_final_part_size must be less than or equal to max_part_size"@,
                ),
            )
        } else {
            None
        },
    )
}

/// The presets can be used.
pub proof fn law_limit_presets_are_valid()
    ensures
        limits_error(default_limits()) is None,
        limits_error(development_limits()) is None,
{
}

impl Default for UploadLimits {
    fn default() -> (limits: Self)
        ensures
            limits == default_limits(),
    {
        UploadLimits {
            max_object_size: 53_687_091_200_000,
            max_part_size: 5_368_709_120,
            min_non_final_part_size: 5_242_880,
            max_concurrent_s3_requests: 256,
            max_active_object_writers: 64,
            max_active_multipart_part_writers: 128,
            max_active_aws_chunked_decoders: 64,
        }
    }
}

impl UploadLimits {
    /// Creates a fluent upload-limit builder using production-oriented defaults.
    pub fn builder() -> (builder: UploadLimitsBuilder)
        ensures
            builder@ == default_limits(),
    {
        UploadLimitsBuilder { limits: UploadLimits::default_s3_compatible() }
    }

    /// Returns the default S3-compatible upload limits.
    pub fn default_s3_compatible() -> (limits: Self)
        ensures
            limits == default_limits(),
    {
        UploadLimits::default()
    }

    /// Returns smaller limits intended for local development and tests.
    pub fn local_development() -> (limits: Self)
        ensures
            limits == development_limits(),
    {
        UploadLimits {
            max_object_size: 1_073_741_824,
            max_part_size: 536_870_912,
            min_non_final_part_size: 5_242_880,
            max_concurrent_s3_requests: 64,
            max_active_object_writers: 16,
            max_active_multipart_part_writers: 32,
            max_active_aws_chunked_decoders: 16,
        }
    }

    /// Validates all upload limits: none may be zero, and `min_non_final_part_size` may not exceed
    /// `max_part_size`.
    pub fn validate(&self) -> (result: Result<(), ConfigError>)
        ensures
            check_error(result) == limits_error(*self),
    {
        match self.validated() {
            Ok(limits) => {
                if limits.min_non_final_part_size.get() > limits.max_part_size.get() {
                    return Err(
                        ConfigError::InvalidUploadLimit(
                            "min_non_final_part_size must be less than or equal to max_part_size",
                        ),
                    );
                }
                Ok(())
            },
            Err(error) => Err(error),
        }
    }

    /// Converts raw numeric limits into non-zero validated limits.
    pub fn validated(&self) -> (result: Result<ValidatedUploadLimits, ConfigError>)
        ensures
            match result {
                Ok(limits) => zero_limit_error(*self) is None && limits@ == *self,
                Err(error) => zero_limit_error(*self) == Some(error@),
            },
    {
        let max_object_size = PositiveUploadLimit::new(
            self.max_object_size,
            "max_object_size must be greater than 0",
        )?;
        let max_part_size = PositiveUploadLimit::new(
            self.max_part_size,
            "max_part_size must be greater than 0",
        )?;
        let min_non_final_part_size = PositiveUploadLimit::new(
            self.min_non_final_part_size,
            "min_non_final_part_size must be greater than 0",
        )?;
        let max_concurrent_s3_requests = PositiveAdmissionLimit::new(
            self.max_concurrent_s3_requests,
            "max_concurrent_s3_requests must be greater than 0",
        )?;
        let max_active_object_writers = PositiveAdmissionLimit::new(
            self.max_active_object_writers,
            "max_active_object_writers must be greater than 0",
        )?;
        let max_active_multipart_part_writers = PositiveAdmissionLimit::new(
            self.max_active_multipart_part_writers,
            "max_active_multipart_part_writers must be greater than 0",
        )?;
        let max_active_aws_chunked_decoders = PositiveAdmissionLimit::new(
            self.max_active_aws_chunked_decoders,
            "max_active_aws_chunked_decoders must be greater than 0",
        )?;
        Ok(
            ValidatedUploadLimits {
                max_object_size,
                max_part_size,
                min_non_final_part_size,
                max_concurrent_s3_requests,
                max_active_object_writers,
                max_active_multipart_part_writers,
                max_active_aws_chunked_decoders,
            },
        )
    }
}

/// Fluent builder for [`UploadLimits`].
#[derive(Clone, Copy, Debug)]
pub struct UploadLimitsBuilder {
    limits: UploadLimits,
}

impl View for UploadLimitsBuilder {
    type V = UploadLimits;

    closed spec fn view(&self) -> UploadLimits {
        self.limits
    }
}

impl UploadLimitsBuilder {
    /// Sets the maximum decoded object size in bytes.
    pub fn max_object_size(self, value: u64) -> (builder: Self)
        ensures
            builder@ == (UploadLimits { max_object_size: value, ..self@ }),
    {
        UploadLimitsBuilder { limits: UploadLimits { max_object_size: value, ..self.limits } }
    }

    /// Sets the maximum decoded multipart part size in bytes.
    pub fn max_part_size(self, value: u64) -> (builder: Self)
        ensures
            builder@ == (UploadLimits { max_part_size: value, ..self@ }),
    {
        UploadLimitsBuilder { limits: UploadLimits { max_part_size: value, ..self.limits } }
    }

    /// Sets the minimum size for each non-final multipart part in bytes.
    pub fn min_non_final_part_size(self, value: u64) -> (builder: Self)
        ensures
            builder@ == (UploadLimits { min_non_final_part_size: value, ..self@ }),
    {
        UploadLimitsBuilder {
            limits: UploadLimits { min_non_final_part_size: value, ..self.limits },
        }
    }

    /// Sets the maximum number of concurrently admitted S3 requests.
    pub fn max_concurrent_s3_requests(self, value: usize) -> (builder: Self)
        ensures
            builder@ == (UploadLimits { max_concurrent_s3_requests: value, ..self@ }),
    {
        UploadLimitsBuilder {
            limits: UploadLimits { max_concurrent_s3_requests: value, ..self.limits },
        }
    }

    /// Sets the maximum number of active `PutObject` writers.
    pub fn max_active_object_writers(self, value: usize) -> (builder: Self)
        ensures
            builder@ == (UploadLimits { max_active_object_writers: value, ..self@ }),
    {
        UploadLimitsBuilder {
            limits: UploadLimits { max_active_object_writers: value, ..self.limits },
        }
    }

    /// Sets the maximum number of active multipart part writers.
    pub fn max_active_multipart_part_writers(self, value: usize) -> (builder: Self)
        ensures
            builder@ == (UploadLimits { max_active_multipart_part_writers: value, ..self@ }),
    {
        UploadLimitsBuilder {
            limits: UploadLimits { max_active_multipart_part_writers: value, ..self.limits },
        }
    }

    /// Sets the maximum number of active aws-chunked decoders.
    pub fn max_active_aws_chunked_decoders(self, value: usize) -> (builder: Self)
        ensures
            builder@ == (UploadLimits { max_active_aws_chunked_decoders: value, ..self@ }),
    {
        UploadLimitsBuilder {
            limits: UploadLimits { max_active_aws_chunked_decoders: value, ..self.limits },
        }
    }

    /// Returns the constructed upload limits.
    pub fn build(self) -> (limits: UploadLimits)
        ensures
            limits == self@,
    {
        self.limits
    }
}

/// Non-zero byte limit for upload sizes.
#[derive(Clone, Copy, Debug, PartialEq, Eq, PartialOrd, Ord, Hash)]
pub struct PositiveUploadLimit(u64);

impl View for PositiveUploadLimit {
    type V = u64;

    closed spec fn view(&self) -> u64 {
        self.0
    }
}

impl PositiveUploadLimit {
    #[verifier::type_invariant]
    spec fn inv(self) -> bool {
        self.0 > 0
    }

    pub(crate) fn new(value: u64, error: &'static str) -> (result: Result<Self, ConfigError>)
        ensures
            match result {
                Ok(limit) => value > 0 && limit@ == value,
                Err(e) => value == 0 && e == ConfigError::InvalidUploadLimit(error),
            },
    {
        if value == 0 {
            return Err(ConfigError::InvalidUploadLimit(error));
        }
        Ok(PositiveUploadLimit(value))
    }

    /// Returns the configured byte limit.
    pub fn get(self) -> (value: u64)
        ensures
            value == self@,
            value > 0,
    {
        proof {
            use_type_invariant(self);
        }
        self.0
    }
}

/// Non-zero limit for request or worker admission.
#[derive(Clone, Copy, Debug, PartialEq, Eq, PartialOrd, Ord, Hash)]
pub struct PositiveAdmissionLimit(usize);

impl View for PositiveAdmissionLimit {
    type V = usize;

    closed spec fn view(&self) -> usize {
        self.0
    }
}

impl PositiveAdmissionLimit {
    #[verifier::type_invariant]
    spec fn inv(self) -> bool {
        self.0 > 0
    }

    pub(crate) fn new(value: usize, error: &'static str) -> (result: Result<Self, ConfigError>)
        ensures
            match result {
                Ok(limit) => value > 0 && limit@ == value,
                Err(e) => value == 0 && e == ConfigError::InvalidUploadLimit(error),
            },
    {
        if value == 0 {
            return Err(ConfigError::InvalidUploadLimit(error));
        }
        Ok(PositiveAdmissionLimit(value))
    }

    /// Returns the configured admission limit.
    pub fn get(self) -> (value: usize)
        ensures
            value == self@,
            value > 0,
    {
        proof {
            use_type_invariant(self);
        }
        self.0
    }
}

/// Upload limits after zero-value validation.
#[derive(Clone, Copy, Debug, PartialEq, Eq)]
pub struct ValidatedUploadLimits {
    /// Maximum decoded object size in bytes.
    pub max_object_size: PositiveUploadLimit,
    /// Maximum decoded multipart part size in bytes.
    pub max_part_size: PositiveUploadLimit,
    /// Minimum size for each non-final multipart part in bytes.
    pub min_non_final_part_size: PositiveUploadLimit,
    /// Maximum number of concurrent S3 requests.
    pub max_concurrent_s3_requests: PositiveAdmissionLimit,
    /// Maximum number of concurrent `PutObject` writers.
    pub max_active_object_writers: PositiveAdmissionLimit,
    /// Maximum number of concurrent multipart `UploadPart` writers.
    pub max_active_multipart_part_writers: PositiveAdmissionLimit,
    /// Maximum number of concurrent aws-chunked decoders.
    pub max_active_aws_chunked_decoders: PositiveAdmissionLimit,
}

impl View for ValidatedUploadLimits {
    type V = UploadLimits;

    open spec fn view(&self) -> UploadLimits {
        UploadLimits {
            max_object_size: self.max_object_size@,
            max_part_size: self.max_part_size@,
            min_non_final_part_size: self.min_non_final_part_size@,
            max_concurrent_s3_requests: self.max_concurrent_s3_requests@,
            max_active_object_writers: self.max_active_object_writers@,
            max_active_multipart_part_writers: self.max_active_multipart_part_writers@,
            max_active_aws_chunked_decoders: self.max_active_aws_chunked_decoders@,
        }
    }
}

// ---------------------------------------------------------------------------------------------
// Actions
// ---------------------------------------------------------------------------------------------
/// Implemented S3 IAM-style actions used by the simple allow-list authorizer.
#[derive(Clone, Copy, Debug, PartialEq, Eq, PartialOrd, Ord, Hash, Structural)]
pub enum S3Action {
    /// `s3:PutObject`.
    PutObject,
    /// `s3:GetObject`.
    GetObject,
    /// `s3:HeadObject`.
    HeadObject,
    /// `s3:DeleteObject`.
    DeleteObject,
    /// `s3:CreateMultipartUpload`.
    CreateMultipartUpload,
    /// `s3:UploadPart`.
    UploadPart,
    /// `s3:CompleteMultipartUpload`.
    CompleteMultipartUpload,
    /// `s3:AbortMultipartUpload`.
    AbortMultipartUpload,
    /// `s3:ListMultipartUploadParts`.
    ListMultipartUploadParts,
    /// `s3:HeadBucket`.
    HeadBucket,
}

/// The canonical name of an action.
pub open spec fn action_name(action: S3Action) -> Seq<char> {
    match action {
        S3Action::PutObject => "s3:PutObject"@,
        S3Action::GetObject => "s3:GetObject"@,
        S3Action::HeadObject => "s3:HeadObject"@,
        S3Action::DeleteObject => "s3:DeleteObject"@,
        S3Action::CreateMultipartUpload => "s3:CreateMultipartUpload"@,
        S3Action::UploadPart => "s3:UploadPart"@,
        S3Action::CompleteMultipartUpload => "s3:CompleteMultipartUpload"@,
        S3Action::AbortMultipartUpload => "s3:AbortMultipartUpload"@,
        S3Action::ListMultipartUploadParts => "s3:ListMultipartUploadParts"@,
        S3Action::HeadBucket => "s3:HeadBucket"@,
    }
}

/// The name of an action without its service prefix.
pub open spec fn action_short_name(action: S3Action) -> Seq<char> {
    match action {
        S3Action::PutObject => "PutObject"@,
        S3Action::GetObject => "GetObject"@,
        S3Action::HeadObject => "HeadObject"@,
        S3Action::DeleteObject => "DeleteObject"@,
        S3Action::CreateMultipartUpload => "CreateMultipartUpload"@,
        S3Action::UploadPart => "UploadPart"@,
        S3Action::CompleteMultipartUpload => "CompleteMultipartUpload"@,
        S3Action::AbortMultipartUpload => "AbortMultipartUpload"@,
        S3Action::ListMultipartUploadParts => "ListMultipartUploadParts"@,
        S3Action::HeadBucket => "HeadBucket"@,
    }
}

/// The command-line name of an action.
pub open spec fn action_cli_name(action: S3Action) -> Seq<char> {
    match action {
        S3Action::PutObject => "put-object"@,
        S3Action::GetObject => "get-object"@,
        S3Action::HeadObject => "head-object"@,
        S3Action::DeleteObject => "delete-object"@,
        S3Action::CreateMultipartUpload => "create-multipart-upload"@,
        S3Action::UploadPart => "upload-part"@,
        S3Action::CompleteMultipartUpload => "complete-multipart-upload"@,
        S3Action::AbortMultipartUpload => "abort-multipart-upload"@,
        S3Action::ListMultipartUploadParts => "list-multipart-upload-parts"@,
        S3Action::HeadBucket => "head-bucket"@,
    }
}

/// Whether `text` names `action` in one of the three accepted ways.
pub open spec fn names_action(text: Seq<char>, action: S3Action) -> bool {
    text == action_name(action) || text == action_short_name(action) || text == action_cli_name(
        action,
    )
}

/// The position of an action in the order of actions.
pub open spec fn action_rank(action: S3Action) -> int {
    match action {
        S3Action::PutObject => 0,
        S3Action::GetObject => 1,
        S3Action::HeadObject => 2,
        S3Action::DeleteObject => 3,
        S3Action::CreateMultipartUpload => 4,
        S3Action::UploadPart => 5,
        S3Action::CompleteMultipartUpload => 6,
        S3Action::AbortMultipartUpload => 7,
        S3Action::ListMultipartUploadParts => 8,
        S3Action::HeadBucket => 9,
    }
}

fn rank_of(action: S3Action) -> (rank: u8)
    ensures
        rank == action_rank(action),
{
    match action {
        S3Action::PutObject => 0,
        S3Action::GetObject => 1,
        S3Action::HeadObject => 2,
        S3Action::DeleteObject => 3,
        S3Action::CreateMultipartUpload => 4,
        S3Action::UploadPart => 5,
        S3Action::CompleteMultipartUpload => 6,
        S3Action::AbortMultipartUpload => 7,
        S3Action::ListMultipartUploadParts => 8,
        S3Action::HeadBucket => 9,
    }
}

/// No text names two different actions, so each of the accepted names selects one action.
pub proof fn law_action_names_are_unambiguous(text: Seq<char>, a: S3Action, b: S3Action)
    requires
        names_action(text, a),
        names_action(text, b),
    ensures
        a == b,
{
    reveal_strlit("s3:PutObject");
    reveal_strlit("s3:GetObject");
    reveal_strlit("s3:HeadObject");
    reveal_strlit("s3:DeleteObject");
    reveal_strlit("s3:CreateMultipartUpload");
    reveal_strlit("s3:UploadPart");
    reveal_strlit("s3:CompleteMultipartUpload");
    reveal_strlit("s3:AbortMultipartUpload");
    reveal_strlit("s3:ListMultipartUploadParts");
    reveal_strlit("s3:HeadBucket");
    reveal_strlit("PutObject");
    reveal_strlit("GetObject");
    reveal_strlit("HeadObject");
    reveal_strlit("DeleteObject");
    reveal_strlit("CreateMultipartUpload");
    reveal_strlit("UploadPart");
    reveal_strlit("CompleteMultipartUpload");
    reveal_strlit("AbortMultipartUpload");
    reveal_strlit("ListMultipartUploadParts");
    reveal_strlit("HeadBucket");
    reveal_strlit("put-object");
    reveal_strlit("get-object");
    reveal_strlit("head-object");
    reveal_strlit("delete-object");
    reveal_strlit("create-multipart-upload");
    reveal_strlit("upload-part");
    reveal_strlit("complete-multipart-upload");
    reveal_strlit("abort-multipart-upload");
    reveal_strlit("list-multipart-upload-parts");
    reveal_strlit("head-bucket");
    // The length and a few characters tell all names apart.
    let key = (text.len(), text[0], text[3], text[5], text[7]);
    assert(key == (text.len(), text[0], text[3], text[5], text[7]));
}

impl S3Action {
    /// Returns the canonical IAM-style action string.
    pub fn as_str(self) -> (name: &'static str)
        ensures
            name@ == action_name(self),
    {
        match self {
            S3Action::PutObject => "s3:PutObject",
            S3Action::GetObject => "s3:GetObject",
            S3Action::HeadObject => "s3:HeadObject",
            S3Action::DeleteObject => "s3:DeleteObject",
            S3Action::CreateMultipartUpload => "s3:CreateMultipartUpload",
            S3Action::UploadPart => "s3:UploadPart",
            S3Action::CompleteMultipartUpload => "s3:CompleteMultipartUpload",
            S3Action::AbortMultipartUpload => "s3:AbortMultipartUpload",
            S3Action::ListMultipartUploadParts => "s3:ListMultipartUploadParts",
            S3Action::HeadBucket => "s3:HeadBucket",
        }
    }

    fn short_name(self) -> (name: &'static str)
        ensures
            name@ == action_short_name(self),
    {
        match self {
            S3Action::PutObject => "PutObject",
            S3Action::GetObject => "GetObject",
            S3Action::HeadObject => "HeadObject",
            S3Action::DeleteObject => "DeleteObject",
            S3Action::CreateMultipartUpload => "CreateMultipartUpload",
            S3Action::UploadPart => "UploadPart",
            S3Action::CompleteMultipartUpload => "CompleteMultipartUpload",
            S3Action::AbortMultipartUpload => "AbortMultipartUpload",
            S3Action::ListMultipartUploadParts => "ListMultipartUploadParts",
            S3Action::HeadBucket => "HeadBucket",
        }
    }

    fn cli_name(self) -> (name: &'static str)
        ensures
            name@ == action_cli_name(self),
    {
        match self {
            S3Action::PutObject => "put-object",
            S3Action::GetObject => "get-object",
            S3Action::HeadObject => "head-object",
            S3Action::DeleteObject => "delete-object",
            S3Action::CreateMultipartUpload => "create-multipart-upload",
            S3Action::UploadPart => "upload-part",
            S3Action::CompleteMultipartUpload => "complete-multipart-upload",
            S3Action::AbortMultipartUpload => "abort-multipart-upload",
            S3Action::ListMultipartUploadParts => "list-multipart-upload-parts",
            S3Action::HeadBucket => "head-bucket",
        }
    }

    fn is_named(self, value: &str) -> (result: bool)
        ensures
            result == names_action(value@, self),
    {
        same(value, self.as_str()) || same(value, self.short_name()) || same(value, self.cli_name())
    }

    /// Parses a canonical, short or command-line action name.
    pub fn from_str(value: &str) -> (result: Result<Self, ConfigError>)
        ensures
            match result {
                Ok(action) => names_action(value@, action),
                Err(error) => (forall|a: S3Action| !names_action(value@, a)) && error@
                    == ConfigErrorView::InvalidAuthConfig(
                    "allowed_actions must contain supported S3 action names"@,
                ),
            },
    {
        if S3Action::PutObject.is_named(value) {
            return Ok(S3Action::PutObject);
        }
        if S3Action::GetObject.is_named(value) {
            return Ok(S3Action::GetObject);
        }
        if S3Action::HeadObject.is_named(value) {
            return Ok(S3Action::HeadObject);
        }
        if S3Action::DeleteObject.is_named(value) {
            return Ok(S3Action::DeleteObject);
        }
        if S3Action::CreateMultipartUpload.is_named(value) {
            return Ok(S3Action::CreateMultipartUpload);
        }
        if S3Action::UploadPart.is_named(value) {
            return Ok(S3Action::UploadPart);
        }
        if S3Action::CompleteMultipartUpload.is_named(value) {
            return Ok(S3Action::CompleteMultipartUpload);
        }
        if S3Action::AbortMultipartUpload.is_named(value) {
            return Ok(S3Action::AbortMultipartUpload);
        }
        if S3Action::ListMultipartUploadParts.is_named(value) {
            return Ok(S3Action::ListMultipartUploadParts);
        }
        if S3Action::HeadBucket.is_named(value) {
            return Ok(S3Action::HeadBucket);
        }
        assert forall|a: S3Action| !names_action(value@, a) by {
            match a {
                S3Action::PutObject => {},
                S3Action::GetObject => {},
                S3Action::HeadObject => {},
                S3Action::DeleteObject => {},
                S3Action::CreateMultipartUpload => {},
                S3Action::UploadPart => {},
                S3Action::CompleteMultipartUpload => {},
                S3Action::AbortMultipartUpload => {},
                S3Action::ListMultipartUploadParts => {},
                S3Action::HeadBucket => {},
            }
        }
        Err(
            ConfigError::InvalidAuthConfig("allowed_actions must contain supported S3 action names"),
        )
    }
}

/// Whether a list of actions is in ascending order, so that nothing occurs twice.
pub open spec fn actions_sorted(s: Seq<S3Action>) -> bool {
    forall|i: int, j: int|
        0 <= i < j < s.len() ==> action_rank(#[trigger] s[i]) < action_rank(#[trigger] s[j])
}

/// A set of actions, kept in order.
#[derive(Debug, PartialEq, Eq)]
pub struct ActionSet {
    items: Vec<S3Action>,
}

impl View for ActionSet {
    type V = Seq<S3Action>;

    closed spec fn view(&self) -> Seq<S3Action> {
        self.items@
    }
}

fn clone_actions(list: &Vec<S3Action>) -> (copy: Vec<S3Action>)
    ensures
        copy@ == list@,
{
    let mut copy: Vec<S3Action> = Vec::new();
    let mut i: usize = 0;
    while i < list.len()
        invariant
            i <= list@.len(),
            copy@ == list@.take(i as int),
        decreases list.len() - i,
    {
        copy.push(list[i]);
        i += 1;
    }
    assert(list@.take(i as int) =~= list@);
    copy
}

impl Clone for ActionSet {
    fn clone(&self) -> (copy: Self)
        ensures
            copy@ == self@,
    {
        proof {
            use_type_invariant(self);
        }
        ActionSet { items: clone_actions(&self.items) }
    }
}

impl ActionSet {
    #[verifier::type_invariant]
    spec fn inv(self) -> bool {
        actions_sorted(self.items@)
    }

    /// The empty set.
    pub fn new() -> (set: Self)
        ensures
            set@ == Seq::<S3Action>::empty(),
    {
        ActionSet { items: Vec::new() }
    }

    /// The number of members.
    pub fn len(&self) -> (length: usize)
        ensures
            length == self@.len(),
            actions_sorted(self@),
    {
        proof {
            use_type_invariant(self);
        }
        self.items.len()
    }

    /// Whether the set has no member.
    pub fn is_empty(&self) -> (result: bool)
        ensures
            result == (self@.len() == 0),
    {
        self.items.len() == 0
    }

    /// The member at `index` in ascending order.
    pub fn get(&self, index: usize) -> (action: S3Action)
        requires
            index < self@.len(),
        ensures
            action == self@[index as int],
    {
        self.items[index]
    }

    /// Whether `action` is a member.
    pub fn contains(&self, action: &S3Action) -> (result: bool)
        ensures
            result == self@.contains(*action),
    {
        let mut i: usize = 0;
        while i < self.items.len()
            invariant
                i <= self.items@.len(),
                forall|j: int| 0 <= j < i ==> #[trigger] self.items@[j] != *action,
            decreases self.items.len() - i,
        {
            if self.items[i] == *action {
                assert(self.items@[i as int] == *action);
                return true;
            }
            i += 1;
        }
        false
    }

    /// Adds a member.
    pub fn insert(&mut self, action: S3Action)
        ensures
            actions_sorted(final(self)@),
            final(self)@.to_set() == old(self)@.to_set().insert(action),
    {
        proof {
            use_type_invariant(&*self);
        }
        let ghost before = self.items@;
        let mut at: usize = 0;
        while at < self.items.len() && rank_of(self.items[at]) < rank_of(action)
            invariant
                at <= self.items@.len(),
                before == self.items@,
                forall|j: int|
                    0 <= j < at ==> action_rank(#[trigger] before[j]) < action_rank(action),
            decreases self.items.len() - at,
        {
            at += 1;
        }
        if at < self.items.len() && self.items[at] == action {
            proof {
                assert(before[at as int] == action);
                assert(before.to_set().insert(action) =~= before.to_set());
            }
            return;
        }
        let mut items: Vec<S3Action> = clone_actions(&self.items);
        items.insert(at, action);
        proof {
            let after = before.insert(at as int, action);
            assert(items@ == after);
            assert forall|i: int, j: int| 0 <= i < j < after.len() implies action_rank(
                #[trigger] after[i],
            ) < action_rank(#[trigger] after[j]) by {
                let a = if i < at {
                    i
                } else {
                    i - 1
                };
                let b = if j < at {
                    j
                } else {
                    j - 1
                };
                if at < before.len() {
                    assert(action_rank(before[at as int]) > action_rank(action));
                }
                if i == at {
                    assert(after[j] == before[b]);
                    if b > at {
                        assert(action_rank(before[at as int]) < action_rank(before[b]));
                    }
                } else if j == at {
                    assert(after[i] == before[a]);
                } else {
                    assert(after[i] == before[a] && after[j] == before[b]);
                }
            }
            assert forall|x: S3Action| after.to_set().contains(x) == before.to_set().insert(
                action,
            ).contains(x) by {
                if before.contains(x) {
                    let k = choose|k: int| 0 <= k < before.len() && before[k] == x;
                    if k < at {
                        assert(after[k] == x);
                    } else {
                        assert(after[k + 1] == x);
                    }
                }
                if x == action {
                    assert(after[at as int] == x);
                }
                if after.contains(x) {
                    let k = choose|k: int| 0 <= k < after.len() && after[k] == x;
                    if k < at {
                        assert(before[k] == x);
                    } else if k > at {
                        assert(before[k - 1] == x);
                    }
                }
            }
            assert(after.to_set() =~= before.to_set().insert(action));
        }
        *self = ActionSet { items };
    }

    /// The set of the members of a list.
    pub fn from_list(list: &Vec<S3Action>) -> (set: Self)
        ensures
            actions_sorted(set@),
            set@.to_set() == list@.to_set(),
    {
        let mut set = ActionSet::new();
        let mut i: usize = 0;
        assert(set@.to_set() =~= list@.take(0).to_set());
        while i < list.len()
            invariant
                i <= list@.len(),
                actions_sorted(set@),
                set@.to_set() == list@.take(i as int).to_set(),
            decreases list.len() - i,
        {
            proof {
                assert(list@.take(i + 1) =~= list@.take(i as int).push(list@[i as int]));
                lemma_push_to_set(list@.take(i as int), list@[i as int]);
            }
            set.insert(list[i]);
            i += 1;
        }
        assert(list@.take(i as int) =~= list@);
        set
    }
}

// ---------------------------------------------------------------------------------------------
// Field validation
// ---------------------------------------------------------------------------------------------
/// The error of a text that is no access key ID.
pub open spec fn access_key_id_error(value: Seq<char>) -> Option<ConfigErrorView> {
    if value.len() == 0 {
        Some(ConfigErrorView::InvalidAuthConfig("access_key_id must not be empty"@))
    } else if has_control(value) || value.contains(' ') {
        Some(
            ConfigErrorView::InvalidAuthConfig(
                "access_key_id must not contain whitespace or control characters"@,
            ),
        )
    } else {
        None
    }
}

/// The error of a text that is no secret key.
pub open spec fn secret_key_error(value: Seq<char>) -> Option<ConfigErrorView> {
    if value.len() == 0 {
        Some(ConfigErrorView::InvalidAuthConfig("secret_key must not be empty"@))
    } else if has_control(value) {
        Some(ConfigErrorView::InvalidAuthConfig("secret_key must not contain control characters"@))
    } else {
        None
    }
}

/// The error of an optional text that is no session token.
pub open spec fn session_token_error(value: Option<Seq<char>>) -> Option<ConfigErrorView> {
    if value is Some && value->0.len() == 0 {
        Some(ConfigErrorView::InvalidAuthConfig("session_token must not be empty when configured"@))
    } else {
        None
    }
}

/// Whether `c` is a lowercase ASCII letter or a digit.
pub open spec fn is_region_edge(c: char) -> bool {
    'a' <= c <= 'z' || '0' <= c <= '9'
}

/// Whether `region` is made of lowercase letters, digits and hyphens, with no hyphen at either end.
pub open spec fn is_region(region: Seq<char>) -> bool {
    &&& region.len() > 0
    &&& is_region_edge(region[0])
    &&& is_region_edge(region.last())
    &&& forall|i: int|
        0 <= i < region.len() ==> is_region_edge(#[trigger] region[i]) || region[i] == '-'
}

/// Tests for a region name.
pub fn is_valid_region(region: &str) -> (result: bool)
    ensures
        result == is_region(region@),
{
    let chars = chars_of(region);
    if chars.len() == 0 {
        return false;
    }
    let mut i: usize = 0;
    let mut edge: bool = false;
    while i < chars.len()
        invariant
            i <= chars@.len(),
            chars@ == region@,
            i > 0 ==> is_region_edge(region@[0]),
            i > 0 ==> edge == is_region_edge(region@[i - 1]),
            forall|j: int| 0 <= j < i ==> is_region_edge(#[trigger] region@[j]) || region@[j] == '-',
        decreases chars.len() - i,
    {
        let c: char = chars[i];
        edge = (c >= 'a' && c <= 'z') || (c >= '0' && c <= '9');
        if !edge && (i == 0 || c != '-') {
            assert(!is_region_edge(region@[i as int]));
            return false;
        }
        i += 1;
    }
    edge
}

/// Checks an access key ID.
pub fn validate_access_key_id(value: &str) -> (result: Result<(), ConfigError>)
    ensures
        check_error(result) == access_key_id_error(value@),
{
    if value.is_empty() {
        return Err(ConfigError::InvalidAuthConfig("access_key_id must not be empty"));
    }
    if contains_control(value) || contains_char(value, ' ') {
        return Err(
            ConfigError::InvalidAuthConfig(
                "access_key_id must not contain whitespace or control characters",
            ),
        );
    }
    Ok(())
}

/// Checks a secret key.
pub fn validate_secret_key(value: &str) -> (result: Result<(), ConfigError>)
    ensures
        check_error(result) == secret_key_error(value@),
{
    if value.is_empty() {
        return Err(ConfigError::InvalidAuthConfig("secret_key must not be empty"));
    }
    if contains_control(value) {
        return Err(
            ConfigError::InvalidAuthConfig("secret_key must not contain control characters"),
        );
    }
    Ok(())
}

/// Checks an optional session token.
pub fn validate_session_token(value: Option<&str>) -> (result: Result<(), ConfigError>)
    ensures
        check_error(result) == session_token_error(opt_str(value)),
{
    match value {
        Some(token) => {
            if token.is_empty() {
                return Err(
                    ConfigError::InvalidAuthConfig(
                        "session_token must not be empty when configured",
                    ),
                );
            }
            Ok(())
        },
        None => Ok(()),
    }
}

/// The error of a bucket allow-list of which some entry is no bucket name.
pub open spec fn bucket_list_error(buckets: Seq<Seq<char>>) -> Option<ConfigErrorView> {
    if exists|i: int| 0 <= i < buckets.len() && parse_bucket_name(#[trigger] buckets[i]) is Err {
        Some(ConfigErrorView::InvalidAuthConfig("allowed_buckets must contain valid bucket names"@))
    } else {
        None
    }
}

fn validate_buckets(buckets: &TextSet) -> (result: Result<(), ConfigError>)
    ensures
        check_error(result) == bucket_list_error(buckets@),
{
    let mut i: usize = 0;
    while i < buckets.len()
        invariant
            i <= buckets@.len(),
            forall|j: int| 0 <= j < i ==> parse_bucket_name(#[trigger] buckets@[j]) is Ok,
        decreases buckets@.len() - i,
    {
        if BucketName::parse(buckets.get(i)).is_err() {
            assert(parse_bucket_name(buckets@[i as int]) is Err);
            return Err(
                ConfigError::InvalidAuthConfig("allowed_buckets must contain valid bucket names"),
            );
        }
        i += 1;
    }
    Ok(())
}

// ---------------------------------------------------------------------------------------------
// Keys
// ---------------------------------------------------------------------------------------------
/// Validated access key identifier.
#[derive(Debug, PartialEq, Eq, PartialOrd, Ord, Hash)]
pub struct AccessKeyId(String);

impl View for AccessKeyId {
    type V = Seq<char>;

    closed spec fn view(&self) -> Seq<char> {
        self.0@
    }
}

impl Clone for AccessKeyId {
    fn clone(&self) -> (copy: Self)
        ensures
            copy@ == self@,
    {
        proof {
            use_type_invariant(self);
        }
        AccessKeyId(self.0.clone())
    }
}

impl AccessKeyId {
    #[verifier::type_invariant]
    spec fn inv(self) -> bool {
        access_key_id_error(self.0@) is None
    }

    /// Parses an access key ID: not empty, without white space and control characters.
    pub fn parse(value: &str) -> (result: Result<Self, ConfigError>)
        ensures
            match result {
                Ok(id) => access_key_id_error(value@) is None && id@ == value@,
                Err(error) => access_key_id_error(value@) == Some(error@),
            },
    {
        match validate_access_key_id(value) {
            Ok(()) => Ok(AccessKeyId(value.to_owned())),
            Err(error) => Err(error),
        }
    }

    /// Returns the access key ID as a string slice.
    pub fn as_str(&self) -> (text: &str)
        ensures
            text@ == self@,
            access_key_id_error(self@) is None,
    {
        proof {
            use_type_invariant(self);
        }
        self.0.as_str()
    }
}

/// Secret key value. It has no `Debug` form but the redacted one of [`SecretKey::debug_text`].
#[derive(PartialEq, Eq)]
pub struct SecretKey(String);

impl View for SecretKey {
    type V = Seq<char>;

    closed spec fn view(&self) -> Seq<char> {
        self.0@
    }
}

impl Clone for SecretKey {
    fn clone(&self) -> (copy: Self)
        ensures
            copy@ == self@,
    {
        proof {
            use_type_invariant(self);
        }
        SecretKey(self.0.clone())
    }
}

impl SecretKey {
    #[verifier::type_invariant]
    spec fn inv(self) -> bool {
        secret_key_error(self.0@) is None
    }

    /// Parses a secret key: not empty, without control characters.
    pub fn parse(value: &str) -> (result: Result<Self, ConfigError>)
        ensures
            match result {
                Ok(key) => secret_key_error(value@) is None && key@ == value@,
                Err(error) => secret_key_error(value@) == Some(error@),
            },
    {
        match validate_secret_key(value) {
            Ok(()) => Ok(SecretKey(value.to_owned())),
            Err(error) => Err(error),
        }
    }

    /// Returns the secret itself.
    pub fn as_str(&self) -> (text: &str)
        ensures
            text@ == self@,
    {
        self.0.as_str()
    }

    /// The form shown in diagnostics, which is the same for every secret.
    pub fn debug_text(&self) -> (text: String)
        ensures
            text@ == "<redacted>"@,
    {
        "<redacted>".to_owned()
    }
}

// ---------------------------------------------------------------------------------------------
// Credentials
// ---------------------------------------------------------------------------------------------
/// Additional access key entry.
pub struct AccessKeyConfig {
    /// Access key ID.
    pub access_key_id: String,
    /// Secret key. This value is redacted from diagnostics.
    pub secret_key: String,
    /// Optional session token. This value is redacted from diagnostics.
    pub session_token: Option<String>,
    /// Whether this credential can authenticate requests.
    pub active: bool,
    /// Optional bucket allow-list. Empty permits all buckets for this credential.
    pub allowed_buckets: TextSet,
    /// Optional action allow-list. Empty permits all implemented actions for this credential.
    pub allowed_actions: ActionSet,
}

/// A credential as a mathematical value.
#[verifier::ext_equal]
pub struct CredentialView {
    pub access_key_id: Seq<char>,
    pub secret_key: Seq<char>,
    pub session_token: Option<Seq<char>>,
    pub active: bool,
    pub allowed_buckets: Seq<Seq<char>>,
    pub allowed_actions: Seq<S3Action>,
}

impl View for AccessKeyConfig {
    type V = CredentialView;

    open spec fn view(&self) -> CredentialView {
        CredentialView {
            access_key_id: self.access_key_id@,
            secret_key: self.secret_key@,
            session_token: opt_text(self.session_token),
            active: self.active,
            allowed_buckets: self.allowed_buckets@,
            allowed_actions: self.allowed_actions@,
        }
    }
}

/// The contents of a list of credentials.
pub open spec fn credential_views(list: Seq<AccessKeyConfig>) -> Seq<CredentialView> {
    list.map_values(|c: AccessKeyConfig| c@)
}

/// The error of a credential that cannot be used.
pub open spec fn credential_error(c: CredentialView) -> Option<ConfigErrorView> {
    first_error(
        access_key_id_error(c.access_key_id),
        first_error(
            secret_key_error(c.secret_key),
            first_error(session_token_error(c.session_token), bucket_list_error(c.allowed_buckets)),
        ),
    )
}

/// Whether allow-lists let an action on a bucket pass. An empty list lets everything pass.
pub open spec fn lists_permit(
    buckets: Seq<Seq<char>>,
    actions: Seq<S3Action>,
    bucket: Seq<char>,
    action: S3Action,
) -> bool {
    (buckets.len() == 0 || buckets.contains(bucket)) && (actions.len() == 0 || actions.contains(
        action,
    ))
}

fn permitted(
    buckets: &TextSet,
    actions: &ActionSet,
    bucket: &BucketName,
    action: S3Action,
) -> (result: bool)
    ensures
        result == lists_permit(buckets@, actions@, bucket@, action),
{
    (buckets.is_empty() || buckets.contains(bucket.as_str())) && (actions.is_empty()
        || actions.contains(&action))
}

fn clone_opt(text: &Option<String>) -> (copy: Option<String>)
    ensures
        opt_text(copy) == opt_text(*text),
{
    match text {
        Some(t) => Some(t.clone()),
        None => None,
    }
}

impl Clone for AccessKeyConfig {
    fn clone(&self) -> (copy: Self)
        ensures
            copy@ == self@,
    {
        AccessKeyConfig {
            access_key_id: self.access_key_id.clone(),
            secret_key: self.secret_key.clone(),
            session_token: clone_opt(&self.session_token),
            active: self.active,
            allowed_buckets: self.allowed_buckets.clone(),
            allowed_actions: self.allowed_actions.clone(),
        }
    }
}

impl AccessKeyConfig {
    /// Creates a fluent additional access-key builder.
    pub fn builder(access_key_id: &str, secret_key: &str) -> (builder: AccessKeyConfigBuilder)
        ensures
            builder@ == (CredentialView {
                access_key_id: access_key_id@,
                secret_key: secret_key@,
                session_token: None,
                active: true,
                allowed_buckets: Seq::empty(),
                allowed_actions: Seq::empty(),
            }),
    {
        AccessKeyConfigBuilder {
            config: AccessKeyConfig {
                access_key_id: access_key_id.to_owned(),
                secret_key: secret_key.to_owned(),
                session_token: None,
                active: true,
                allowed_buckets: TextSet::new(),
                allowed_actions: ActionSet::new(),
            },
        }
    }

    /// Validates the fields of the credential.
    pub fn validate(&self) -> (result: Result<(), ConfigError>)
        ensures
            check_error(result) == credential_error(self@),
    {
        match validate_access_key_id(self.access_key_id.as_str()) {
            Ok(()) => {},
            Err(error) => {
                return Err(error);
            },
        }
        match validate_secret_key(self.secret_key.as_str()) {
            Ok(()) => {},
            Err(error) => {
                return Err(error);
            },
        }
        match validate_session_token(opt_as_str(&self.session_token)) {
            Ok(()) => {},
            Err(error) => {
                return Err(error);
            },
        }
        validate_buckets(&self.allowed_buckets)
    }
}

fn opt_as_str<'a>(text: &'a Option<String>) -> (result: Option<&'a str>)
    ensures
        opt_str(result) == opt_text(*text),
{
    match text {
        Some(t) => Some(t.as_str()),
        None => None,
    }
}

/// Fluent builder for [`AccessKeyConfig`].
pub struct AccessKeyConfigBuilder {
    config: AccessKeyConfig,
}

impl View for AccessKeyConfigBuilder {
    type V = CredentialView;

    closed spec fn view(&self) -> CredentialView {
        self.config@
    }
}

impl AccessKeyConfigBuilder {
    /// Sets the optional session token.
    pub fn session_token(self, session_token: &str) -> (builder: Self)
        ensures
            builder@ == (CredentialView { session_token: Some(session_token@), ..self@ }),
    {
        let mut config = self.config;
        config.session_token = Some(session_token.to_owned());
        AccessKeyConfigBuilder { config }
    }

    /// Clears the optional session token.
    pub fn without_session_token(self) -> (builder: Self)
        ensures
            builder@ == (CredentialView { session_token: None, ..self@ }),
    {
        let mut config = self.config;
        config.session_token = None;
        AccessKeyConfigBuilder { config }
    }

    /// Sets whether this credential can authenticate requests.
    pub fn active(self, active: bool) -> (builder: Self)
        ensures
            builder@ == (CredentialView { active, ..self@ }),
    {
        let mut config = self.config;
        config.active = active;
        AccessKeyConfigBuilder { config }
    }

    /// Replaces the bucket allow-list.
    pub fn allowed_buckets(self, buckets: &Vec<String>) -> (builder: Self)
        ensures
            is_sorted(builder@.allowed_buckets),
            builder@.allowed_buckets.to_set() == texts(buckets@).to_set(),
            builder@ == (CredentialView { allowed_buckets: builder@.allowed_buckets, ..self@ }),
    {
        let mut config = self.config;
        config.allowed_buckets = TextSet::from_list(buckets);
        AccessKeyConfigBuilder { config }
    }

    /// Adds one bucket to the allow-list.
    pub fn allow_bucket(self, bucket: &str) -> (builder: Self)
        ensures
            is_sorted(builder@.allowed_buckets),
            builder@.allowed_buckets.to_set() == self@.allowed_buckets.to_set().insert(bucket@),
            builder@ == (CredentialView { allowed_buckets: builder@.allowed_buckets, ..self@ }),
    {
        let mut config = self.config;
        config.allowed_buckets.insert(bucket);
        AccessKeyConfigBuilder { config }
    }

    /// Replaces the action allow-list.
    pub fn allowed_actions(self, actions: &Vec<S3Action>) -> (builder: Self)
        ensures
            actions_sorted(builder@.allowed_actions),
            builder@.allowed_actions.to_set() == actions@.to_set(),
            builder@ == (CredentialView { allowed_actions: builder@.allowed_actions, ..self@ }),
    {
        let mut config = self.config;
        config.allowed_actions = ActionSet::from_list(actions);
        AccessKeyConfigBuilder { config }
    }

    /// Adds one action to the allow-list.
    pub fn allow_action(self, action: S3Action) -> (builder: Self)
        ensures
            actions_sorted(builder@.allowed_actions),
            builder@.allowed_actions.to_set() == self@.allowed_actions.to_set().insert(action),
            builder@ == (CredentialView { allowed_actions: builder@.allowed_actions, ..self@ }),
    {
        let mut config = self.config;
        config.allowed_actions.insert(action);
        AccessKeyConfigBuilder { config }
    }

    /// Returns the constructed access-key configuration.
    pub fn build(self) -> (config: AccessKeyConfig)
        ensures
            config@ == self@,
    {
        self.config
    }
}

// ---------------------------------------------------------------------------------------------
// Authentication configuration
// ---------------------------------------------------------------------------------------------
/// Authentication, credential, and allow-list configuration.
pub struct AuthConfig {
    /// Whether unsigned anonymous requests are allowed.
    pub allow_anonymous: bool,
    /// Primary access key ID.
    pub access_key_id: String,
    /// Primary secret key. This value is redacted from diagnostics.
    pub secret_key: String,
    /// Optional primary session token. This value is redacted from diagnostics.
    pub session_token: Option<String>,
    /// SigV4 signing region.
    pub region: String,
    /// Maximum accepted SigV4 timestamp skew in seconds.
    pub max_skew_seconds: i64,
    /// Optional bucket allow-list. Empty means all buckets are allowed.
    pub allowed_buckets: TextSet,
    /// Optional action allow-list. Empty means all implemented actions are allowed.
    pub allowed_actions: ActionSet,
    /// Additional access keys.
    pub credentials: Vec<AccessKeyConfig>,
}

/// An [`AuthConfig`] as a mathematical value.
#[verifier::ext_equal]
pub struct AuthConfigView {
    pub allow_anonymous: bool,
    pub access_key_id: Seq<char>,
    pub secret_key: Seq<char>,
    pub session_token: Option<Seq<char>>,
    pub region: Seq<char>,
    pub max_skew_seconds: i64,
    pub allowed_buckets: Seq<Seq<char>>,
    pub allowed_actions: Seq<S3Action>,
    pub credentials: Seq<CredentialView>,
}

impl View for AuthConfig {
    type V = AuthConfigView;

    open spec fn view(&self) -> AuthConfigView {
        AuthConfigView {
            allow_anonymous: self.allow_anonymous,
            access_key_id: self.access_key_id@,
            secret_key: self.secret_key@,
            session_token: opt_text(self.session_token),
            region: self.region@,
            max_skew_seconds: self.max_skew_seconds,
            allowed_buckets: self.allowed_buckets@,
            allowed_actions: self.allowed_actions@,
            credentials: credential_views(self.credentials@),
        }
    }
}

/// The configuration used unless another is given.
pub open spec fn default_auth() -> AuthConfigView {
    AuthConfigView {
        allow_anonymous: false,
        access_key_id: "test"@,
        secret_key: "testsecret"@,
        session_token: None,
        region: "us-east-1"@,
        max_skew_seconds: 900,
        allowed_buckets: Seq::empty(),
        allowed_actions: Seq::empty(),
        credentials: Seq::empty(),
    }
}

/// Whether the access key ID of the credential at `i` is that of the primary credential or of an
/// earlier additional one.
pub open spec fn is_repeated_id(c: AuthConfigView, i: int) -> bool {
    c.credentials[i].access_key_id == c.access_key_id || exists|j: int|
        0 <= j < i && (#[trigger] c.credentials[j]).access_key_id == c.credentials[i].access_key_id
}

/// The error of the additional credentials from position `i` on.
pub open spec fn credentials_error(c: AuthConfigView, i: int) -> Option<ConfigErrorView>
    decreases c.credentials.len() - i,
{
    if i < 0 || i >= c.credentials.len() {
        None
    } else {
        first_error(
            credential_error(c.credentials[i]),
            if is_repeated_id(c, i) {
                Some(
                    ConfigErrorView::InvalidAuthConfig(
                        "credential access_key_id values must be unique"@,
                    ),
                )
            } else {
                credentials_error(c, i + 1)
            },
        )
    }
}

/// The error of a configuration that cannot be used.
pub open spec fn auth_error(c: AuthConfigView) -> Option<ConfigErrorView> {
    first_error(
        access_key_id_error(c.access_key_id),
        first_error(
            secret_key_error(c.secret_key),
            first_error(
                session_token_error(c.session_token),
                if !is_region(c.region) {
                    Some(
                        ConfigErrorView::InvalidAuthConfig(
                            "region must be a non-empty lowercase AWS region identifier"@,
                        ),
                    )
                } else if c.max_skew_seconds < 0 {
                    Some(
                        ConfigErrorView::InvalidAuthConfig(
                            "max_skew_seconds must be greater than or equal to 0"@,
                        ),
                    )
                } else {
                    first_error(bucket_list_error(c.allowed_buckets), credentials_error(c, 0))
                },
            ),
        ),
    )
}

/// The default configuration can be used.
pub proof fn law_default_auth_is_valid()
    ensures
        auth_error(default_auth()) is None,
{
    reveal_strlit("test");
    reveal_strlit("testsecret");
    reveal_strlit("us-east-1");
    assert(!has_control("test"@));
    assert(!"test"@.contains(' '));
    assert(!has_control("testsecret"@));
    let region = "us-east-1"@;
    assert(region.last() == '1');
}

impl Default for AuthConfig {
    fn default() -> (config: Self)
        ensures
            config@ == default_auth(),
    {
        let credentials: Vec<AccessKeyConfig> = Vec::new();
        assert(credential_views(credentials@) =~= Seq::empty());
        AuthConfig {
            allow_anonymous: false,
            access_key_id: "test".to_owned(),
            secret_key: "testsecret".to_owned(),
            session_token: None,
            region: "us-east-1".to_owned(),
            max_skew_seconds: 900,
            allowed_buckets: TextSet::new(),
            allowed_actions: ActionSet::new(),
            credentials,
        }
    }
}

impl AuthConfig {
    /// Creates a fluent authentication configuration builder.
    pub fn builder() -> (builder: AuthConfigBuilder)
        ensures
            builder@ == default_auth(),
    {
        AuthConfigBuilder { config: AuthConfig::default() }
    }

    fn repeats_id(&self, index: usize) -> (result: bool)
        requires
            index < self.credentials@.len(),
        ensures
            result == is_repeated_id(self@, index as int),
    {
        let id = self.credentials[index].access_key_id.as_str();
        if same(id, self.access_key_id.as_str()) {
            return true;
        }
        let mut j: usize = 0;
        while j < index
            invariant
                j <= index < self.credentials@.len(),
                id@ == self@.credentials[index as int].access_key_id,
                forall|k: int|
                    0 <= k < j ==> (#[trigger] self@.credentials[k]).access_key_id != id@,
            decreases index - j,
        {
            if same(self.credentials[j].access_key_id.as_str(), id) {
                assert(self@.credentials[j as int].access_key_id == id@);
                return true;
            }
            assert(self@.credentials[j as int].access_key_id
                == self.credentials@[j as int].access_key_id@);
            j += 1;
        }
        false
    }

    fn validate_credentials(&self) -> (result: Result<(), ConfigError>)
        ensures
            check_error(result) == credentials_error(self@, 0),
    {
        let mut i: usize = 0;
        while i < self.credentials.len()
            invariant
                i <= self.credentials@.len(),
                credentials_error(self@, 0) == credentials_error(self@, i as int),
            decreases self.credentials.len() - i,
        {
            match self.credentials[i].validate() {
                Ok(()) => {},
                Err(error) => {
                    return Err(error);
                },
            }
            if self.repeats_id(i) {
                return Err(
                    ConfigError::InvalidAuthConfig("credential access_key_id values must be unique"),
                );
            }
            i += 1;
        }
        Ok(())
    }

    /// Validates primary and additional credential configuration.
    ///
    /// Credential strings must be well formed, the region must be a region name, the skew must not
    /// be negative, allow-lists must hold bucket names, and access key IDs must not repeat.
    pub fn validate(&self) -> (result: Result<(), ConfigError>)
        ensures
            check_error(result) == auth_error(self@),
    {
        match validate_access_key_id(self.access_key_id.as_str()) {
            Ok(()) => {},
            Err(error) => {
                return Err(error);
            },
        }
        match validate_secret_key(self.secret_key.as_str()) {
            Ok(()) => {},
            Err(error) => {
                return Err(error);
            },
        }
        match validate_session_token(opt_as_str(&self.session_token)) {
            Ok(()) => {},
            Err(error) => {
                return Err(error);
            },
        }
        if !is_valid_region(self.region.as_str()) {
            return Err(
                ConfigError::InvalidAuthConfig(
                    "region must be a non-empty lowercase AWS region identifier",
                ),
            );
        }
        if self.max_skew_seconds < 0 {
            return Err(
                ConfigError::InvalidAuthConfig(
                    "max_skew_seconds must be greater than or equal to 0",
                ),
            );
        }
        match validate_buckets(&self.allowed_buckets) {
            Ok(()) => {},
            Err(error) => {
                return Err(error);
            },
        }
        self.validate_credentials()
    }

    /// Returns whether the anonymous/global allow-lists permit an action on a bucket.
    pub fn permits(&self, bucket: &BucketName, action: S3Action) -> (result: bool)
        ensures
            result == lists_permit(
                self@.allowed_buckets,
                self@.allowed_actions,
                bucket@,
                action,
            ),
    {
        permitted(&self.allowed_buckets, &self.allowed_actions, bucket, action)
    }
}

/// Fluent builder for [`AuthConfig`].
pub struct AuthConfigBuilder {
    config: AuthConfig,
}

impl View for AuthConfigBuilder {
    type V = AuthConfigView;

    closed spec fn view(&self) -> AuthConfigView {
        self.config@
    }
}

impl AuthConfigBuilder {
    /// Sets whether unsigned anonymous requests are accepted.
    pub fn allow_anonymous(self, allow_anonymous: bool) -> (builder: Self)
        ensures
            builder@ == (AuthConfigView { allow_anonymous, ..self@ }),
    {
        let mut config = self.config;
        config.allow_anonymous = allow_anonymous;
        AuthConfigBuilder { config }
    }

    /// Sets the primary access key ID.
    pub fn access_key_id(self, access_key_id: &str) -> (builder: Self)
        ensures
            builder@ == (AuthConfigView { access_key_id: access_key_id@, ..self@ }),
    {
        let mut config = self.config;
        config.access_key_id = access_key_id.to_owned();
        AuthConfigBuilder { config }
    }

    /// Sets the primary secret key.
    pub fn secret_key(self, secret_key: &str) -> (builder: Self)
        ensures
            builder@ == (AuthConfigView { secret_key: secret_key@, ..self@ }),
    {
        let mut config = self.config;
        config.secret_key = secret_key.to_owned();
        AuthConfigBuilder { config }
    }

    /// Sets both primary credential fields.
    pub fn primary_credentials(self, access_key_id: &str, secret_key: &str) -> (builder: Self)
        ensures
            builder@ == (AuthConfigView {
                access_key_id: access_key_id@,
                secret_key: secret_key@,
                ..self@
            }),
    {
        let mut config = self.config;
        config.access_key_id = access_key_id.to_owned();
        config.secret_key = secret_key.to_owned();
        AuthConfigBuilder { config }
    }

    /// Sets the optional primary session token.
    pub fn session_token(self, session_token: &str) -> (builder: Self)
        ensures
            builder@ == (AuthConfigView { session_token: Some(session_token@), ..self@ }),
    {
        let mut config = self.config;
        config.session_token = Some(session_token.to_owned());
        AuthConfigBuilder { config }
    }

    /// Clears the primary session token.
    pub fn without_session_token(self) -> (builder: Self)
        ensures
            builder@ == (AuthConfigView { session_token: None, ..self@ }),
    {
        let mut config = self.config;
        config.session_token = None;
        AuthConfigBuilder { config }
    }

    /// Sets the SigV4 signing region.
    pub fn region(self, region: &str) -> (builder: Self)
        ensures
            builder@ == (AuthConfigView { region: region@, ..self@ }),
    {
        let mut config = self.config;
        config.region = region.to_owned();
        AuthConfigBuilder { config }
    }

    /// Sets the maximum accepted SigV4 timestamp skew in seconds.
    pub fn max_skew_seconds(self, seconds: i64) -> (builder: Self)
        ensures
            builder@ == (AuthConfigView { max_skew_seconds: seconds, ..self@ }),
    {
        let mut config = self.config;
        config.max_skew_seconds = seconds;
        AuthConfigBuilder { config }
    }

    /// Replaces the global bucket allow-list.
    pub fn allowed_buckets(self, buckets: &Vec<String>) -> (builder: Self)
        ensures
            is_sorted(builder@.allowed_buckets),
            builder@.allowed_buckets.to_set() == texts(buckets@).to_set(),
            builder@ == (AuthConfigView { allowed_buckets: builder@.allowed_buckets, ..self@ }),
    {
        let mut config = self.config;
        config.allowed_buckets = TextSet::from_list(buckets);
        AuthConfigBuilder { config }
    }

    /// Adds one bucket to the global allow-list.
    pub fn allow_bucket(self, bucket: &str) -> (builder: Self)
        ensures
            is_sorted(builder@.allowed_buckets),
            builder@.allowed_buckets.to_set() == self@.allowed_buckets.to_set().insert(bucket@),
            builder@ == (AuthConfigView { allowed_buckets: builder@.allowed_buckets, ..self@ }),
    {
        let mut config = self.config;
        config.allowed_buckets.insert(bucket);
        AuthConfigBuilder { config }
    }

    /// Replaces the global action allow-list.
    pub fn allowed_actions(self, actions: &Vec<S3Action>) -> (builder: Self)
        ensures
            actions_sorted(builder@.allowed_actions),
            builder@.allowed_actions.to_set() == actions@.to_set(),
            builder@ == (AuthConfigView { allowed_actions: builder@.allowed_actions, ..self@ }),
    {
        let mut config = self.config;
        config.allowed_actions = ActionSet::from_list(actions);
        AuthConfigBuilder { config }
    }

    /// Adds one action to the global allow-list.
    pub fn allow_action(self, action: S3Action) -> (builder: Self)
        ensures
            actions_sorted(builder@.allowed_actions),
            builder@.allowed_actions.to_set() == self@.allowed_actions.to_set().insert(action),
            builder@ == (AuthConfigView { allowed_actions: builder@.allowed_actions, ..self@ }),
    {
        let mut config = self.config;
        config.allowed_actions.insert(action);
        AuthConfigBuilder { config }
    }

    /// Replaces the additional credential entries.
    pub fn credentials(self, credentials: Vec<AccessKeyConfig>) -> (builder: Self)
        ensures
            builder@ == (AuthConfigView {
                credentials: credential_views(credentials@),
                ..self@
            }),
    {
        let mut config = self.config;
        config.credentials = credentials;
        AuthConfigBuilder { config }
    }

    /// Adds one additional credential entry.
    pub fn credential(self, credential: AccessKeyConfig) -> (builder: Self)
        ensures
            builder@ == (AuthConfigView {
                credentials: self@.credentials.push(credential@),
                ..self@
            }),
    {
        let mut config = self.config;
        config.credentials.push(credential);
        assert(credential_views(config.credentials@) =~= credential_views(
            self.config.credentials@,
        ).push(credential@));
        AuthConfigBuilder { config }
    }

    /// Returns the constructed authentication configuration.
    pub fn build(self) -> (config: AuthConfig)
        ensures
            config@ == self@,
    {
        self.config
    }
}

// ---------------------------------------------------------------------------------------------
// Runtime configuration
// ---------------------------------------------------------------------------------------------
/// Runtime configuration for the S3 endpoint.
pub struct Config {
    /// Root directory used for object data, metadata, multipart sessions, and temp files.
    pub storage_root: String,
    /// Authentication and authorization configuration.
    pub auth: AuthConfig,
    /// Optional base domain for virtual-hosted-style bucket addressing.
    pub virtual_host_base_domain: Option<String>,
    /// Upload size and concurrency limits.
    pub upload_limits: UploadLimits,
}

/// A [`Config`] as a mathematical value.
pub struct ConfigView {
    pub storage_root: Seq<char>,
    pub auth: AuthConfigView,
    pub virtual_host_base_domain: Option<Seq<char>>,
    pub upload_limits: UploadLimits,
}

impl View for Config {
    type V = ConfigView;

    open spec fn view(&self) -> ConfigView {
        ConfigView {
            storage_root: self.storage_root@,
            auth: self.auth@,
            virtual_host_base_domain: opt_text(self.virtual_host_base_domain),
            upload_limits: self.upload_limits,
        }
    }
}

/// The configuration of a storage root with everything else left at its default.
pub open spec fn default_config(storage_root: Seq<char>) -> ConfigView {
    ConfigView {
        storage_root,
        auth: default_auth(),
        virtual_host_base_domain: None,
        upload_limits: default_limits(),
    }
}

impl Config {
    /// Creates a configuration with default auth and upload limits for a storage root.
    pub fn new(storage_root: String) -> (config: Self)
        ensures
            config@ == default_config(storage_root@),
    {
        Config {
            storage_root,
            auth: AuthConfig::default(),
            virtual_host_base_domain: None,
            upload_limits: UploadLimits::default(),
        }
    }

    /// Validates upload-limit and auth settings, the limits first.
    pub fn validate(&self) -> (result: Result<(), ConfigError>)
        ensures
            check_error(result) == first_error(
                limits_error(self@.upload_limits),
                auth_error(self@.auth),
            ),
    {
        match self.upload_limits.validate() {
            Ok(()) => self.auth.validate(),
            Err(error) => Err(error),
        }
    }

    /// Creates a fluent configuration builder for a storage root.
    pub fn builder(storage_root: &str) -> (builder: ConfigBuilder)
        ensures
            builder@ == default_config(storage_root@),
    {
        ConfigBuilder { config: Config::new(storage_root.to_owned()) }
    }
}

/// Fluent builder for [`Config`].
pub struct ConfigBuilder {
    config: Config,
}

impl View for ConfigBuilder {
    type V = ConfigView;

    closed spec fn view(&self) -> ConfigView {
        self.config@
    }
}

impl ConfigBuilder {
    /// Replaces the authentication configuration.
    pub fn auth(self, auth: AuthConfig) -> (builder: Self)
        ensures
            builder@ == (ConfigView { auth: auth@, ..self@ }),
    {
        let mut config = self.config;
        config.auth = auth;
        ConfigBuilder { config }
    }

    /// Sets whether unsigned anonymous requests are accepted.
    pub fn allow_anonymous(self, allow_anonymous: bool) -> (builder: Self)
        ensures
            builder@ == (ConfigView {
                auth: AuthConfigView { allow_anonymous, ..self@.auth },
                ..self@
            }),
    {
        let mut config = self.config;
        config.auth.allow_anonymous = allow_anonymous;
        ConfigBuilder { config }
    }

    /// Sets the SigV4 signing region.
    pub fn region(self, region: &str) -> (builder: Self)
        ensures
            builder@ == (ConfigView {
                auth: AuthConfigView { region: region@, ..self@.auth },
                ..self@
            }),
    {
        let mut config = self.config;
        config.auth.region = region.to_owned();
        ConfigBuilder { config }
    }

    /// Sets the optional virtual-hosted-style base domain.
    pub fn virtual_host_base_domain(self, domain: &str) -> (builder: Self)
        ensures
            builder@ == (ConfigView { virtual_host_base_domain: Some(domain@), ..self@ }),
    {
        let mut config = self.config;
        config.virtual_host_base_domain = Some(domain.to_owned());
        ConfigBuilder { config }
    }

    /// Clears virtual-hosted-style addressing support.
    pub fn without_virtual_host_base_domain(self) -> (builder: Self)
        ensures
            builder@ == (ConfigView { virtual_host_base_domain: None, ..self@ }),
    {
        let mut config = self.config;
        config.virtual_host_base_domain = None;
        ConfigBuilder { config }
    }

    /// Replaces upload size and concurrency limits.
    pub fn upload_limits(self, upload_limits: UploadLimits) -> (builder: Self)
        ensures
            builder@ == (ConfigView { upload_limits, ..self@ }),
    {
        let mut config = self.config;
        config.upload_limits = upload_limits;
        ConfigBuilder { config }
    }

    /// Returns the constructed configuration.
    pub fn build(self) -> (config: Config)
        ensures
            config@ == self@,
    {
        self.config
    }
}

// ---------------------------------------------------------------------------------------------
// Request-time authentication state
// ---------------------------------------------------------------------------------------------
/// A credential as it is stored for request-time lookup.
pub struct StoredAccessKey {
    access_key_id: AccessKeyId,
    secret_key: SecretKey,
    session_token: Option<String>,
    active: bool,
    allowed_buckets: TextSet,
    allowed_actions: ActionSet,
}

impl View for StoredAccessKey {
    type V = CredentialView;

    closed spec fn view(&self) -> CredentialView {
        CredentialView {
            access_key_id: self.access_key_id@,
            secret_key: self.secret_key@,
            session_token: opt_text(self.session_token),
            active: self.active,
            allowed_buckets: self.allowed_buckets@,
            allowed_actions: self.allowed_actions@,
        }
    }
}

impl Clone for StoredAccessKey {
    fn clone(&self) -> (copy: Self)
        ensures
            copy@ == self@,
    {
        StoredAccessKey {
            access_key_id: self.access_key_id.clone(),
            secret_key: self.secret_key.clone(),
            session_token: clone_opt(&self.session_token),
            active: self.active,
            allowed_buckets: self.allowed_buckets.clone(),
            allowed_actions: self.allowed_actions.clone(),
        }
    }
}

impl StoredAccessKey {
    fn from_config(config: &AccessKeyConfig) -> (result: Result<Self, ConfigError>)
        ensures
            credential_error(config@) is None ==> result is Ok && result->Ok_0@ == config@,
    {
        let access_key_id = match AccessKeyId::parse(config.access_key_id.as_str()) {
            Ok(id) => id,
            Err(error) => {
                return Err(error);
            },
        };
        let secret_key = match SecretKey::parse(config.secret_key.as_str()) {
            Ok(key) => key,
            Err(error) => {
                return Err(error);
            },
        };
        Ok(
            StoredAccessKey {
                access_key_id,
                secret_key,
                session_token: clone_opt(&config.session_token),
                active: config.active,
                allowed_buckets: config.allowed_buckets.clone(),
                allowed_actions: config.allowed_actions.clone(),
            },
        )
    }

    /// The credential as handed to authentication.
    pub fn as_configured(&self) -> (configured: ConfiguredAccessKey<'_>)
        ensures
            configured@ == self@,
    {
        ConfiguredAccessKey {
            access_key_id: self.access_key_id.clone(),
            secret_key: self.secret_key.clone(),
            session_token: opt_as_str(&self.session_token),
            active: self.active,
            allowed_buckets: &self.allowed_buckets,
            allowed_actions: &self.allowed_actions,
        }
    }
}

/// A credential found for a request.
pub struct ConfiguredAccessKey<'a> {
    /// Access key ID.
    pub access_key_id: AccessKeyId,
    /// Secret key.
    pub secret_key: SecretKey,
    /// Session token that requests must carry, if one is configured.
    pub session_token: Option<&'a str>,
    /// Whether this credential can authenticate requests.
    pub active: bool,
    /// Bucket allow-list.
    pub allowed_buckets: &'a TextSet,
    /// Action allow-list.
    pub allowed_actions: &'a ActionSet,
}

impl<'a> View for ConfiguredAccessKey<'a> {
    type V = CredentialView;

    open spec fn view(&self) -> CredentialView {
        CredentialView {
            access_key_id: self.access_key_id@,
            secret_key: self.secret_key@,
            session_token: opt_str(self.session_token),
            active: self.active,
            allowed_buckets: self.allowed_buckets@,
            allowed_actions: self.allowed_actions@,
        }
    }
}

/// The contents of a list of stored credentials.
pub open spec fn stored_views(list: Seq<StoredAccessKey>) -> Seq<CredentialView> {
    list.map_values(|c: StoredAccessKey| c@)
}

/// The first credential with the given access key ID.
pub open spec fn find_credential(list: Seq<CredentialView>, id: Seq<char>) -> Option<CredentialView>
    decreases list.len(),
{
    if list.len() == 0 {
        None
    } else if list[0].access_key_id == id {
        Some(list[0])
    } else {
        find_credential(list.drop_first(), id)
    }
}

/// Whether the credential with the given access key ID may perform an action on a bucket.
pub open spec fn credential_permits(
    list: Seq<CredentialView>,
    id: Seq<char>,
    bucket: Seq<char>,
    action: S3Action,
) -> bool {
    match find_credential(list, id) {
        Some(c) => lists_permit(c.allowed_buckets, c.allowed_actions, bucket, action),
        None => false,
    }
}

/// Validated authentication state indexed for request-time lookup.
pub struct AuthState {
    allow_anonymous: bool,
    region: String,
    max_skew_seconds: i64,
    anonymous_allowed_buckets: TextSet,
    credentials: Vec<StoredAccessKey>,
}

/// An [`AuthState`] as a mathematical value.
#[verifier::ext_equal]
pub struct AuthStateView {
    pub allow_anonymous: bool,
    pub region: Seq<char>,
    pub max_skew_seconds: i64,
    pub anonymous_allowed_buckets: Seq<Seq<char>>,
    pub credentials: Seq<CredentialView>,
}

impl View for AuthState {
    type V = AuthStateView;

    closed spec fn view(&self) -> AuthStateView {
        AuthStateView {
            allow_anonymous: self.allow_anonymous,
            region: self.region@,
            max_skew_seconds: self.max_skew_seconds,
            anonymous_allowed_buckets: self.anonymous_allowed_buckets@,
            credentials: stored_views(self.credentials@),
        }
    }
}

/// The primary credential of a configuration. It is always active.
pub open spec fn primary_credential(c: AuthConfigView) -> CredentialView {
    CredentialView {
        access_key_id: c.access_key_id,
        secret_key: c.secret_key,
        session_token: c.session_token,
        active: true,
        allowed_buckets: c.allowed_buckets,
        allowed_actions: c.allowed_actions,
    }
}

/// The state that a configuration stands for: the primary credential and then the additional ones.
pub open spec fn auth_state_of(c: AuthConfigView) -> AuthStateView {
    AuthStateView {
        allow_anonymous: c.allow_anonymous,
        region: c.region,
        max_skew_seconds: c.max_skew_seconds,
        anonymous_allowed_buckets: c.allowed_buckets,
        credentials: seq![primary_credential(c)] + c.credentials,
    }
}

/// Whether a state can come from a configuration: its region and skew are valid.
pub open spec fn auth_state_is_valid(s: AuthStateView) -> bool {
    is_region(s.region) && s.max_skew_seconds >= 0
}

/// In a usable configuration every credential is usable and no access key ID repeats.
pub proof fn lemma_credentials_error(c: AuthConfigView, from: int)
    requires
        0 <= from <= c.credentials.len(),
        credentials_error(c, from) is None,
    ensures
        forall|i: int|
            from <= i < c.credentials.len() ==> credential_error(#[trigger] c.credentials[i]) is None
                && !is_repeated_id(c, i),
    decreases c.credentials.len() - from,
{
    if from < c.credentials.len() {
        lemma_credentials_error(c, from + 1);
    }
}

/// The lookup finds the credential at a position before which its ID does not occur.
proof fn lemma_find_credential(list: Seq<CredentialView>, i: int)
    requires
        0 <= i < list.len(),
        forall|j: int|
            0 <= j < i ==> (#[trigger] list[j]).access_key_id != list[i].access_key_id,
    ensures
        find_credential(list, list[i].access_key_id) == Some(list[i]),
    decreases i,
{
    if i > 0 {
        let rest = list.drop_first();
        assert(list[0].access_key_id != list[i].access_key_id);
        assert(rest[i - 1] == list[i]);
        assert forall|j: int| 0 <= j < i - 1 implies (#[trigger] rest[j]).access_key_id != rest[i
            - 1].access_key_id by {
            assert(rest[j] == list[j + 1]);
        }
        lemma_find_credential(rest, i - 1);
    }
}

/// A state built from a usable configuration finds the primary credential and every additional
/// credential under its own access key ID.
pub proof fn law_every_credential_is_found(c: AuthConfigView, i: int)
    requires
        auth_error(c) is None,
        0 <= i < auth_state_of(c).credentials.len(),
    ensures
        find_credential(
            auth_state_of(c).credentials,
            auth_state_of(c).credentials[i].access_key_id,
        ) == Some(auth_state_of(c).credentials[i]),
{
    let list = auth_state_of(c).credentials;
    lemma_credentials_error(c, 0);
    assert forall|j: int| 0 <= j < i implies (#[trigger] list[j]).access_key_id
        != list[i].access_key_id by {
        assert(list[i] == c.credentials[i - 1]);
        assert(!is_repeated_id(c, i - 1));
        if j > 0 {
            assert(list[j] == c.credentials[j - 1]);
        }
    }
    lemma_find_credential(list, i);
}

/// An access key ID that belongs to no credential is found nowhere.
pub proof fn law_unknown_credential_is_not_found(list: Seq<CredentialView>, id: Seq<char>)
    requires
        forall|i: int| 0 <= i < list.len() ==> (#[trigger] list[i]).access_key_id != id,
    ensures
        find_credential(list, id) is None,
    decreases list.len(),
{
    if list.len() > 0 {
        assert(list[0].access_key_id != id);
        assert forall|i: int| 0 <= i < list.drop_first().len() implies (
        #[trigger] list.drop_first()[i]).access_key_id != id by {
            assert(list.drop_first()[i] == list[i + 1]);
        }
        law_unknown_credential_is_not_found(list.drop_first(), id);
    }
}

/// Empty allow-lists let every action on every bucket pass.
pub proof fn law_empty_lists_permit_everything(bucket: Seq<char>, action: S3Action)
    ensures
        lists_permit(Seq::empty(), Seq::empty(), bucket, action),
{
}

impl AuthState {
    #[verifier::type_invariant]
    spec fn inv(self) -> bool {
        auth_state_is_valid(self@)
    }

    /// Builds request-time auth state from configuration.
    ///
    /// A configuration that fails validation is refused.
    pub fn new(config: &AuthConfig) -> (result: Result<Self, ConfigError>)
        ensures
            match result {
                Ok(state) => auth_error(config@) is None && state@ == auth_state_of(config@),
                Err(error) => auth_error(config@) == Some(error@),
            },
    {
        match config.validate() {
            Ok(()) => {},
            Err(error) => {
                return Err(error);
            },
        }
        let primary = AccessKeyConfig {
            access_key_id: config.access_key_id.clone(),
            secret_key: config.secret_key.clone(),
            session_token: clone_opt(&config.session_token),
            active: true,
            allowed_buckets: config.allowed_buckets.clone(),
            allowed_actions: config.allowed_actions.clone(),
        };
        let mut credentials: Vec<StoredAccessKey> = Vec::new();
        let stored = match StoredAccessKey::from_config(&primary) {
            Ok(stored) => stored,
            Err(error) => {
                assert(false);
                return Err(error);
            },
        };
        credentials.push(stored);
        let ghost all = auth_state_of(config@).credentials;
        assert(stored_views(credentials@) =~= all.take(1));
        let mut i: usize = 0;
        while i < config.credentials.len()
            invariant
                i <= config.credentials@.len(),
                auth_error(config@) is None,
                all == auth_state_of(config@).credentials,
                stored_views(credentials@) == all.take(i + 1),
            decreases config.credentials.len() - i,
        {
            proof {
                lemma_credentials_error(config@, 0);
                assert(config@.credentials[i as int] == config.credentials@[i as int]@);
            }
            let stored = match StoredAccessKey::from_config(&config.credentials[i]) {
                Ok(stored) => stored,
                Err(error) => {
                    assert(false);
                    return Err(error);
                },
            };
            assert(stored_views(credentials@.push(stored)) =~= stored_views(credentials@).push(
                stored@,
            ));
            assert(all.take(i + 2) =~= all.take(i + 1).push(stored@));
            credentials.push(stored);
            i += 1;
        }
        assert(all.take(i + 1) =~= all);
        Ok(
            AuthState {
                allow_anonymous: config.allow_anonymous,
                region: config.region.clone(),
                max_skew_seconds: config.max_skew_seconds,
                anonymous_allowed_buckets: config.allowed_buckets.clone(),
                credentials,
            },
        )
    }

    /// Whether unsigned anonymous requests are accepted.
    pub fn allow_anonymous(&self) -> (result: bool)
        ensures
            result == self@.allow_anonymous,
    {
        self.allow_anonymous
    }

    /// The SigV4 signing region.
    pub fn region(&self) -> (region: &str)
        ensures
            region@ == self@.region,
            is_region(region@),
    {
        proof {
            use_type_invariant(self);
        }
        self.region.as_str()
    }

    /// The maximum accepted timestamp skew in seconds.
    pub fn max_skew_seconds(&self) -> (seconds: i64)
        ensures
            seconds == self@.max_skew_seconds,
            seconds >= 0,
    {
        proof {
            use_type_invariant(self);
        }
        self.max_skew_seconds
    }

    /// Whether anonymous requests may reach a bucket.
    pub fn permits_anonymous_bucket(&self, bucket: &BucketName) -> (result: bool)
        ensures
            result == (self@.anonymous_allowed_buckets.len() == 0
                || self@.anonymous_allowed_buckets.contains(bucket@)),
    {
        self.anonymous_allowed_buckets.is_empty() || self.anonymous_allowed_buckets.contains(
            bucket.as_str(),
        )
    }

    /// The credential with the given access key ID.
    pub fn credential(&self, access_key_id: &str) -> (result: Option<ConfiguredAccessKey<'_>>)
        ensures
            match result {
                Some(credential) => find_credential(self@.credentials, access_key_id@) == Some(
                    credential@,
                ),
                None => find_credential(self@.credentials, access_key_id@) is None,
            },
    {
        let ghost all = self@.credentials;
        let mut i: usize = 0;
        assert(all.skip(0) =~= all);
        while i < self.credentials.len()
            invariant
                i <= self.credentials@.len(),
                all == stored_views(self.credentials@),
                find_credential(all, access_key_id@) == find_credential(
                    all.skip(i as int),
                    access_key_id@,
                ),
            decreases self.credentials.len() - i,
        {
            assert(all.skip(i as int)[0] == self.credentials@[i as int]@);
            assert(all.skip(i as int).drop_first() =~= all.skip(i + 1));
            if same(self.credentials[i].access_key_id.as_str(), access_key_id) {
                return Some(self.credentials[i].as_configured());
            }
            i += 1;
        }
        None
    }

    /// Whether a credential may perform an action on a bucket.
    pub fn permits_credential(
        &self,
        access_key_id: &str,
        bucket: &BucketName,
        action: S3Action,
    ) -> (result: bool)
        ensures
            result == credential_permits(self@.credentials, access_key_id@, bucket@, action),
    {
        match self.credential(access_key_id) {
            Some(credential) => permitted(
                credential.allowed_buckets,
                credential.allowed_actions,
                bucket,
                action,
            ),
            None => false,
        }
    }
}

// ---------------------------------------------------------------------------------------------
// Diagnostics
// ---------------------------------------------------------------------------------------------
/// The quoted and escaped form that `Debug` gives a string.
pub uninterp spec fn quoted_text(text: Seq<char>) -> Seq<char>;

/// Formats a string with its `Debug` impl.
#[verifier::external_body]
fn quote(text: &str) -> (quoted: String)
    ensures
        quoted@ == quoted_text(text@),
{
    format!("{:?}", text)
}

/// The decimal form of a signed number.
pub open spec fn signed_decimal(value: int) -> Seq<char> {
    if value < 0 {
        "-"@ + decimal((-value) as nat)
    } else {
        decimal(value as nat)
    }
}

/// Writes a signed number in decimal.
pub fn signed_decimal_text(value: i64) -> (text: String)
    ensures
        text@ == signed_decimal(value as int),
{
    if value < 0 {
        let magnitude: u64 = (-(value as i128)) as u64;
        "-".to_owned().concat(decimal_text(magnitude).as_str())
    } else {
        decimal_text(value as u64)
    }
}

/// The form of a secret in diagnostics, which shows only whether there is one.
pub open spec fn redacted_option(token: Option<Seq<char>>) -> Seq<char> {
    if token is Some {
        "Some(\"<redacted>\")"@
    } else {
        "None"@
    }
}

fn redacted_option_str(token: &Option<String>) -> (text: &'static str)
    ensures
        text@ == redacted_option(opt_text(*token)),
{
    match token {
        Some(_) => "Some(\"<redacted>\")",
        None => "None",
    }
}

/// The form of a set of strings in diagnostics.
pub open spec fn text_set_debug(items: Seq<Seq<char>>) -> Seq<char> {
    "{"@ + join(items.map_values(|t: Seq<char>| quoted_text(t)), ", "@) + "}"@
}

fn text_set_debug_text(set: &TextSet) -> (text: String)
    ensures
        text@ == text_set_debug(set@),
{
    let mut parts: Vec<String> = Vec::new();
    let mut i: usize = 0;
    let ghost all = set@.map_values(|t: Seq<char>| quoted_text(t));
    while i < set.len()
        invariant
            i <= set@.len(),
            all == set@.map_values(|t: Seq<char>| quoted_text(t)),
            texts(parts@) == all.take(i as int),
        decreases set@.len() - i,
    {
        let part = quote(set.get(i));
        assert(texts(parts@.push(part)) =~= texts(parts@).push(part@));
        assert(all.take(i + 1) =~= all.take(i as int).push(part@));
        parts.push(part);
        i += 1;
    }
    assert(all.take(i as int) =~= all);
    let mut text = "{".to_owned();
    text.append(joined(&parts, ", ").as_str());
    text.append("}");
    text
}

/// The form of a set of actions in diagnostics.
pub open spec fn action_set_debug(items: Seq<S3Action>) -> Seq<char> {
    "{"@ + join(items.map_values(|a: S3Action| action_short_name(a)), ", "@) + "}"@
}

fn action_set_debug_text(set: &ActionSet) -> (text: String)
    ensures
        text@ == action_set_debug(set@),
{
    let mut parts: Vec<String> = Vec::new();
    let mut i: usize = 0;
    let ghost all = set@.map_values(|a: S3Action| action_short_name(a));
    while i < set.len()
        invariant
            i <= set@.len(),
            all == set@.map_values(|a: S3Action| action_short_name(a)),
            texts(parts@) == all.take(i as int),
        decreases set@.len() - i,
    {
        let part = set.get(i).short_name().to_owned();
        assert(texts(parts@.push(part)) =~= texts(parts@).push(part@));
        assert(all.take(i + 1) =~= all.take(i as int).push(part@));
        parts.push(part);
        i += 1;
    }
    assert(all.take(i as int) =~= all);
    let mut text = "{".to_owned();
    text.append(joined(&parts, ", ").as_str());
    text.append("}");
    text
}

/// The form of a credential in diagnostics.
pub open spec fn credential_debug(c: CredentialView) -> Seq<char> {
    "AccessKeyConfig { access_key_id: "@ + quoted_text(c.access_key_id)
        + ", secret_key: \"<redacted>\", session_token: "@ + redacted_option(c.session_token)
        + ", active: "@ + bool_text(c.active) + ", allowed_buckets: "@ + text_set_debug(
        c.allowed_buckets,
    ) + ", allowed_actions: "@ + action_set_debug(c.allowed_actions) + " }"@
}

/// The form of an authentication configuration in diagnostics.
pub open spec fn auth_config_debug(c: AuthConfigView) -> Seq<char> {
    "AuthConfig { allow_anonymous: "@ + bool_text(c.allow_anonymous) + ", access_key_id: "@
        + quoted_text(c.access_key_id) + ", secret_key: \"<redacted>\", session_token: "@
        + redacted_option(c.session_token) + ", region: "@ + quoted_text(c.region)
        + ", max_skew_seconds: "@ + signed_decimal(c.max_skew_seconds as int)
        + ", allowed_buckets: "@ + text_set_debug(c.allowed_buckets) + ", allowed_actions: "@
        + action_set_debug(c.allowed_actions) + ", credentials: ["@ + join(
        c.credentials.map_values(|k: CredentialView| credential_debug(k)),
        ", "@,
    ) + "] }"@
}

/// The form of an authentication state in diagnostics.
pub open spec fn auth_state_debug(s: AuthStateView) -> Seq<char> {
    "AuthState { allow_anonymous: "@ + bool_text(s.allow_anonymous) + ", region: "@ + quoted_text(
        s.region,
    ) + ", max_skew_seconds: "@ + signed_decimal(s.max_skew_seconds as int)
        + ", anonymous_allowed_buckets: "@ + text_set_debug(s.anonymous_allowed_buckets)
        + ", credential_count: "@ + decimal(s.credentials.len()) + " }"@
}

/// A credential without its secrets: only whether there is a session token remains.
pub open spec fn without_secrets(c: CredentialView) -> CredentialView {
    CredentialView {
        secret_key: Seq::empty(),
        session_token: if c.session_token is Some {
            Some(Seq::empty())
        } else {
            None
        },
        ..c
    }
}

/// A configuration without its secrets.
pub open spec fn config_without_secrets(c: AuthConfigView) -> AuthConfigView {
    AuthConfigView {
        secret_key: Seq::empty(),
        session_token: if c.session_token is Some {
            Some(Seq::empty())
        } else {
            None
        },
        credentials: c.credentials.map_values(|k: CredentialView| without_secrets(k)),
        ..c
    }
}

/// Diagnostics of a configuration show the same text whatever its secrets are.
pub proof fn law_diagnostics_hide_secrets(c: AuthConfigView)
    ensures
        auth_config_debug(c) == auth_config_debug(config_without_secrets(c)),
{
    let d = config_without_secrets(c);
    assert(c.credentials.map_values(|k: CredentialView| credential_debug(k))
        =~= d.credentials.map_values(|k: CredentialView| credential_debug(k)));
}

impl AccessKeyConfig {
    /// The form shown in diagnostics, with secrets redacted.
    pub fn debug_text(&self) -> (text: String)
        ensures
            text@ == credential_debug(self@),
    {
        let mut text = "AccessKeyConfig { access_key_id: ".to_owned();
        text.append(quote(self.access_key_id.as_str()).as_str());
        text.append(", secret_key: \"<redacted>\", session_token: ");
        text.append(redacted_option_str(&self.session_token));
        text.append(", active: ");
        text.append(bool_str(self.active));
        text.append(", allowed_buckets: ");
        text.append(text_set_debug_text(&self.allowed_buckets).as_str());
        text.append(", allowed_actions: ");
        text.append(action_set_debug_text(&self.allowed_actions).as_str());
        text.append(" }");
        text
    }
}

impl AuthConfig {
    fn credentials_debug_text(&self) -> (text: String)
        ensures
            text@ == join(
                self@.credentials.map_values(|k: CredentialView| credential_debug(k)),
                ", "@,
            ),
    {
        let mut parts: Vec<String> = Vec::new();
        let mut i: usize = 0;
        let ghost all = self@.credentials.map_values(|k: CredentialView| credential_debug(k));
        while i < self.credentials.len()
            invariant
                i <= self.credentials@.len(),
                all == self@.credentials.map_values(|k: CredentialView| credential_debug(k)),
                texts(parts@) == all.take(i as int),
            decreases self.credentials.len() - i,
        {
            let part = self.credentials[i].debug_text();
            assert(texts(parts@.push(part)) =~= texts(parts@).push(part@));
            assert(all.take(i + 1) =~= all.take(i as int).push(part@));
            parts.push(part);
            i += 1;
        }
        assert(all.take(i as int) =~= all);
        joined(&parts, ", ")
    }

    /// The form shown in diagnostics, with secrets redacted.
    pub fn debug_text(&self) -> (text: String)
        ensures
            text@ == auth_config_debug(self@),
    {
        let mut text = "AuthConfig { allow_anonymous: ".to_owned();
        text.append(bool_str(self.allow_anonymous));
        text.append(", access_key_id: ");
        text.append(quote(self.access_key_id.as_str()).as_str());
        text.append(", secret_key: \"<redacted>\", session_token: ");
        text.append(redacted_option_str(&self.session_token));
        text.append(", region: ");
        text.append(quote(self.region.as_str()).as_str());
        text.append(", max_skew_seconds: ");
        text.append(signed_decimal_text(self.max_skew_seconds).as_str());
        text.append(", allowed_buckets: ");
        text.append(text_set_debug_text(&self.allowed_buckets).as_str());
        text.append(", allowed_actions: ");
        text.append(action_set_debug_text(&self.allowed_actions).as_str());
        text.append(", credentials: [");
        text.append(self.credentials_debug_text().as_str());
        text.append("] }");
        text
    }
}

impl AuthConfigBuilder {
    /// The form shown in diagnostics, with secrets redacted.
    pub fn debug_text(&self) -> (text: String)
        ensures
            text@ == "AuthConfigBuilder { config: "@ + auth_config_debug(self@) + " }"@,
    {
        let mut text = "AuthConfigBuilder { config: ".to_owned();
        text.append(self.config.debug_text().as_str());
        text.append(" }");
        text
    }
}

impl AccessKeyConfigBuilder {
    /// The form shown in diagnostics, with secrets redacted.
    pub fn debug_text(&self) -> (text: String)
        ensures
            text@ == "AccessKeyConfigBuilder { config: "@ + credential_debug(self@) + " }"@,
    {
        let mut text = "AccessKeyConfigBuilder { config: ".to_owned();
        text.append(self.config.debug_text().as_str());
        text.append(" }");
        text
    }
}

impl AuthState {
    /// The form shown in diagnostics, which counts the credentials and shows none.
    pub fn debug_text(&self) -> (text: String)
        ensures
            text@ == auth_state_debug(self@),
    {
        let mut text = "AuthState { allow_anonymous: ".to_owned();
        text.append(bool_str(self.allow_anonymous));
        text.append(", region: ");
        text.append(quote(self.region.as_str()).as_str());
        text.append(", max_skew_seconds: ");
        text.append(signed_decimal_text(self.max_skew_seconds).as_str());
        text.append(", anonymous_allowed_buckets: ");
        text.append(text_set_debug_text(&self.anonymous_allowed_buckets).as_str());
        text.append(", credential_count: ");
        text.append(decimal_text(self.credentials.len() as u64).as_str());
        text.append(" }");
        text
    }
}

} // verus!
