//! Validated S3 scalar types used after request parsing.
use crate::config::S3Action;
use crate::encoding::{is_canonical_uuid, parse_uuid, random_uuid};
use crate::text::{
    chars_of, contains_char, contains_control, decimal, decimal_text, has_control, hex_bytes,
    hex_decode, is_lower_hex, parse_number, parse_unsigned, same,
};
use std::cmp::Ordering;
use vstd::prelude::*;
use vstd::std_specs::cmp::PartialOrdSpec;

verus! {

/// Error returned when parsing S3 domain newtypes fails.
#[derive(Clone, Copy, Debug, PartialEq, Eq, Structural)]
pub enum DomainError {
    /// Bucket name was empty.
    EmptyBucketName,
    /// Bucket name contained path separators or control characters.
    InvalidBucketName,
    /// Object key was empty.
    EmptyObjectKey,
    /// Object key contained control characters.
    InvalidObjectKey,
    /// Part number was outside the S3 range 1..=10000.
    InvalidPartNumber,
    /// Content length was not an unsigned decimal integer.
    InvalidContentLength,
    /// ETag was empty or contained control characters.
    InvalidETag,
    /// Request ID was empty or contained control characters.
    InvalidRequestId,
    /// Upload ID was not a canonical lowercase UUID.
    InvalidUploadId,
    /// Payload hash mode was not supported.
    InvalidPayloadHashMode,
}

/// The message of a [`DomainError`].
pub open spec fn domain_error_message(error: DomainError) -> Seq<char> {
    match error {
        DomainError::EmptyBucketName => "bucket name must not be empty"@,
        DomainError::InvalidBucketName => "bucket name contains invalid characters"@,
        DomainError::EmptyObjectKey => "object key must not be empty"@,
        DomainError::InvalidObjectKey => "object key contains invalid characters"@,
        DomainError::InvalidPartNumber => "part number must be in the range 1..=10000"@,
        DomainError::InvalidContentLength => "content length must be an integer"@,
        DomainError::InvalidETag => "ETag contains invalid characters"@,
        DomainError::InvalidRequestId => "request ID contains invalid characters"@,
        DomainError::InvalidUploadId => "upload ID must be a canonical lowercase UUID"@,
        DomainError::InvalidPayloadHashMode => "payload hash mode is invalid"@,
    }
}

impl DomainError {
    /// The message shown to users.
    pub fn message(&self) -> (message: &'static str)
        ensures
            message@ == domain_error_message(*self),
    {
        match self {
            DomainError::EmptyBucketName => "bucket name must not be empty",
            DomainError::InvalidBucketName => "bucket name contains invalid characters",
            DomainError::EmptyObjectKey => "object key must not be empty",
            DomainError::InvalidObjectKey => "object key contains invalid characters",
            DomainError::InvalidPartNumber => "part number must be in the range 1..=10000",
            DomainError::InvalidContentLength => "content length must be an integer",
            DomainError::InvalidETag => "ETag contains invalid characters",
            DomainError::InvalidRequestId => "request ID contains invalid characters",
            DomainError::InvalidUploadId => "upload ID must be a canonical lowercase UUID",
            DomainError::InvalidPayloadHashMode => "payload hash mode is invalid",
        }
    }
}

// ---------------------------------------------------------------------------------------------
// Bucket names
// ---------------------------------------------------------------------------------------------
/// The bucket name that `value` is, or why it is none: it must not be empty and must hold no path
/// separator and no control character.
pub open spec fn parse_bucket_name(value: Seq<char>) -> Result<Seq<char>, DomainError> {
    if value.len() == 0 {
        Err(DomainError::EmptyBucketName)
    } else if value.contains('/') || value.contains('\\') || has_control(value) {
        Err(DomainError::InvalidBucketName)
    } else {
        Ok(value)
    }
}

/// Validated S3 bucket name used after request-target parsing.
#[derive(Debug, PartialEq, Eq, PartialOrd, Ord, Hash)]
pub struct BucketName(String);

impl View for BucketName {
    type V = Seq<char>;

    closed spec fn view(&self) -> Seq<char> {
        self.0@
    }
}

impl Clone for BucketName {
    fn clone(&self) -> (copy: Self)
        ensures
            copy@ == self@,
    {
        proof {
            use_type_invariant(self);
        }
        BucketName(self.0.clone())
    }
}

impl BucketName {
    #[verifier::type_invariant]
    spec fn is_valid(self) -> bool {
        parse_bucket_name(self.0@) is Ok
    }

    /// Parses a bucket name from request input.
    ///
    /// Validation is narrower than the rules for creating buckets: this endpoint receives existing
    /// bucket identifiers and mainly has to keep out path traversal and malformed storage keys.
    pub fn parse(value: &str) -> (result: Result<Self, DomainError>)
        ensures
            match result {
                Ok(name) => parse_bucket_name(value@) == Ok::<Seq<char>, DomainError>(name@),
                Err(error) => parse_bucket_name(value@) == Err::<Seq<char>, DomainError>(error),
            },
    {
        if value.is_empty() {
            return Err(DomainError::EmptyBucketName);
        }
        if contains_char(value, '/') || contains_char(value, '\\') || contains_control(value) {
            return Err(DomainError::InvalidBucketName);
        }
        Ok(BucketName(value.to_owned()))
    }

    /// Returns the validated bucket name as a string slice.
    pub fn as_str(&self) -> (text: &str)
        ensures
            text@ == self@,
            parse_bucket_name(self@) == Ok::<Seq<char>, DomainError>(self@),
    {
        proof {
            use_type_invariant(self);
        }
        self.0.as_str()
    }
}

// ---------------------------------------------------------------------------------------------
// Object keys
// ---------------------------------------------------------------------------------------------
/// The object key that `value` is, or why it is none: it must not be empty and must hold no
/// control character. Slashes are allowed.
pub open spec fn parse_object_key(value: Seq<char>) -> Result<Seq<char>, DomainError> {
    if value.len() == 0 {
        Err(DomainError::EmptyObjectKey)
    } else if has_control(value) {
        Err(DomainError::InvalidObjectKey)
    } else {
        Ok(value)
    }
}

/// Validated S3 object key used after request-target parsing.
#[derive(Debug, PartialEq, Eq, PartialOrd, Ord, Hash)]
pub struct ObjectKey(String);

impl View for ObjectKey {
    type V = Seq<char>;

    closed spec fn view(&self) -> Seq<char> {
        self.0@
    }
}

impl Clone for ObjectKey {
    fn clone(&self) -> (copy: Self)
        ensures
            copy@ == self@,
    {
        proof {
            use_type_invariant(self);
        }
        ObjectKey(self.0.clone())
    }
}

impl ObjectKey {
    #[verifier::type_invariant]
    spec fn is_valid(self) -> bool {
        parse_object_key(self.0@) is Ok
    }

    /// Parses an object key from request input.
    ///
    /// Slash characters are valid in object keys and are preserved.
    pub fn parse(value: &str) -> (result: Result<Self, DomainError>)
        ensures
            match result {
                Ok(key) => parse_object_key(value@) == Ok::<Seq<char>, DomainError>(key@),
                Err(error) => parse_object_key(value@) == Err::<Seq<char>, DomainError>(error),
            },
    {
        if value.is_empty() {
            return Err(DomainError::EmptyObjectKey);
        }
        if contains_control(value) {
            return Err(DomainError::InvalidObjectKey);
        }
        Ok(ObjectKey(value.to_owned()))
    }

    /// Returns the validated object key as a string slice.
    pub fn as_str(&self) -> (text: &str)
        ensures
            text@ == self@,
            parse_object_key(self@) == Ok::<Seq<char>, DomainError>(self@),
    {
        proof {
            use_type_invariant(self);
        }
        self.0.as_str()
    }
}

// ---------------------------------------------------------------------------------------------
// Entity tags
// ---------------------------------------------------------------------------------------------
/// The entity tag of an object stored in one piece: its MD5 digest in quotes.
pub open spec fn md5_etag(hex_md5: Seq<char>) -> Seq<char> {
    "\""@ + hex_md5 + "\""@
}

/// The entity tag of an object assembled from parts: the digest, a hyphen and the number of parts,
/// in quotes.
pub open spec fn multipart_etag(hex_md5: Seq<char>, part_count: nat) -> Seq<char> {
    "\""@ + hex_md5 + "-"@ + decimal(part_count) + "\""@
}

/// Entity tag value returned by object and part operations.
#[derive(Debug, PartialEq, Eq, PartialOrd, Ord, Hash)]
pub struct ETag(String);

impl View for ETag {
    type V = Seq<char>;

    closed spec fn view(&self) -> Seq<char> {
        self.0@
    }
}

impl Clone for ETag {
    fn clone(&self) -> (copy: Self)
        ensures
            copy@ == self@,
    {
        ETag(self.0.clone())
    }
}

impl ETag {
    /// Parses an ETag from request or persisted metadata.
    ///
    /// The value must not be empty and must hold no control character.
    pub fn parse(value: &str) -> (result: Result<Self, DomainError>)
        ensures
            match result {
                Ok(tag) => value@.len() > 0 && !has_control(value@) && tag@ == value@,
                Err(error) => (value@.len() == 0 || has_control(value@)) && error
                    == DomainError::InvalidETag,
            },
    {
        if value.is_empty() || contains_control(value) {
            return Err(DomainError::InvalidETag);
        }
        Ok(ETag(value.to_owned()))
    }

    /// Builds a single-part object ETag from a lowercase hexadecimal MD5 digest.
    ///
    /// Only the S3 quote formatting is applied; the digest is taken as it is.
    pub fn from_hex_md5(hex_md5: &str) -> (tag: Self)
        ensures
            tag@ == md5_etag(hex_md5@),
    {
        let mut text = String::new();
        text.append("\"");
        text.append(hex_md5);
        text.append("\"");
        assert(Seq::<char>::empty() + "\""@ =~= "\""@);
        ETag(text)
    }

    /// Builds a multipart object ETag from the multipart MD5 digest and part count.
    pub fn from_multipart_md5(hex_md5: &str, part_count: usize) -> (tag: Self)
        ensures
            tag@ == multipart_etag(hex_md5@, part_count as nat),
    {
        let mut text = String::new();
        text.append("\"");
        text.append(hex_md5);
        text.append("-");
        let count = decimal_text(part_count as u64);
        text.append(count.as_str());
        text.append("\"");
        assert(Seq::<char>::empty() + "\""@ =~= "\""@);
        ETag(text)
    }

    /// Returns the formatted ETag as a string slice.
    pub fn as_str(&self) -> (text: &str)
        ensures
            text@ == self@,
    {
        self.0.as_str()
    }
}

// ---------------------------------------------------------------------------------------------
// Request identifiers
// ---------------------------------------------------------------------------------------------
/// Per-response request identifier surfaced in S3 XML errors and response headers.
#[derive(Debug, PartialEq, Eq, PartialOrd, Ord, Hash)]
pub struct RequestId(String);

/// Whether `value` can be a request identifier: it is not empty and holds no control character.
pub open spec fn is_request_id(value: Seq<char>) -> bool {
    value.len() > 0 && !has_control(value)
}

impl View for RequestId {
    type V = Seq<char>;

    closed spec fn view(&self) -> Seq<char> {
        self.0@
    }
}

impl Clone for RequestId {
    fn clone(&self) -> (copy: Self)
        ensures
            copy@ == self@,
    {
        proof {
            use_type_invariant(self);
        }
        RequestId(self.0.clone())
    }
}

impl RequestId {
    #[verifier::type_invariant]
    spec fn is_valid(self) -> bool {
        is_request_id(self.0@)
    }

    /// Creates a new random request identifier, a UUID in canonical form.
    pub fn new() -> (id: Self)
        ensures
            is_canonical_uuid(id@),
    {
        let text = random_uuid();
        proof {
            lemma_uuid_has_no_control(text@);
        }
        RequestId(text)
    }

    /// Parses a request identifier from trusted external input.
    pub fn parse(value: &str) -> (result: Result<Self, DomainError>)
        ensures
            match result {
                Ok(id) => is_request_id(value@) && id@ == value@,
                Err(error) => !is_request_id(value@) && error == DomainError::InvalidRequestId,
            },
    {
        if value.is_empty() || contains_control(value) {
            return Err(DomainError::InvalidRequestId);
        }
        Ok(RequestId(value.to_owned()))
    }

    /// Returns the request identifier as a string slice.
    pub fn as_str(&self) -> (text: &str)
        ensures
            text@ == self@,
            is_request_id(self@),
    {
        proof {
            use_type_invariant(self);
        }
        self.0.as_str()
    }
}

/// A UUID in canonical form is not empty and holds no control character.
pub proof fn lemma_uuid_has_no_control(s: Seq<char>)
    requires
        is_canonical_uuid(s),
    ensures
        is_request_id(s),
{
    assert forall|i: int| 0 <= i < s.len() implies !crate::text::is_control(#[trigger] s[i]) by {
        assert(s[i] == '-' || is_lower_hex(s[i]));
    }
}

// ---------------------------------------------------------------------------------------------
// Upload identifiers
// ---------------------------------------------------------------------------------------------
/// Multipart upload identifier.
#[derive(Debug, PartialEq, Eq, PartialOrd, Ord, Hash)]
pub struct UploadId(String);

impl View for UploadId {
    type V = Seq<char>;

    closed spec fn view(&self) -> Seq<char> {
        self.0@
    }
}

impl Clone for UploadId {
    fn clone(&self) -> (copy: Self)
        ensures
            copy@ == self@,
    {
        proof {
            use_type_invariant(self);
        }
        UploadId(self.0.clone())
    }
}

impl UploadId {
    #[verifier::type_invariant]
    spec fn is_valid(self) -> bool {
        is_canonical_uuid(self.0@)
    }

    /// Creates a new random upload ID.
    pub fn new() -> (id: Self)
        ensures
            is_canonical_uuid(id@),
    {
        UploadId(random_uuid())
    }

    /// Parses a canonical UUID upload ID.
    ///
    /// Values that are no UUID are refused, and so are UUIDs that are not in the canonical
    /// hyphenated lowercase form.
    pub fn parse(value: &str) -> (result: Result<Self, DomainError>)
        ensures
            match result {
                Ok(id) => is_canonical_uuid(value@) && id@ == value@,
                Err(error) => !is_canonical_uuid(value@) && error == DomainError::InvalidUploadId,
            },
    {
        match parse_uuid(value) {
            Some(canonical) => {
                if same(canonical.as_str(), value) {
                    Ok(UploadId(canonical))
                } else {
                    Err(DomainError::InvalidUploadId)
                }
            },
            None => Err(DomainError::InvalidUploadId),
        }
    }

    /// Returns the upload ID as a string slice.
    pub fn as_str(&self) -> (text: &str)
        ensures
            text@ == self@,
            is_canonical_uuid(self@),
    {
        proof {
            use_type_invariant(self);
        }
        self.0.as_str()
    }
}

// ---------------------------------------------------------------------------------------------
// Numbers
// ---------------------------------------------------------------------------------------------
/// Parsed HTTP Content-Length value.
#[derive(Clone, Copy, Debug, PartialEq, Eq, PartialOrd, Ord, Hash)]
pub struct ContentLength(u64);

impl View for ContentLength {
    type V = nat;

    closed spec fn view(&self) -> nat {
        self.0 as nat
    }
}

impl ContentLength {
    /// Wraps a known-valid content length.
    pub fn new(value: u64) -> (length: Self)
        ensures
            length@ == value,
    {
        ContentLength(value)
    }

    /// Returns the length in bytes.
    pub fn get(self) -> (value: u64)
        ensures
            value == self@,
    {
        self.0
    }

    /// Parses an unsigned decimal integer.
    pub fn from_str(value: &str) -> (result: Result<Self, DomainError>)
        ensures
            match result {
                Ok(length) => parse_unsigned(value@, 10, u64::MAX as nat) == Some(length@),
                Err(error) => parse_unsigned(value@, 10, u64::MAX as nat) is None && error
                    == DomainError::InvalidContentLength,
            },
    {
        match parse_number(value, 10, u64::MAX) {
            Some(number) => Ok(ContentLength(number)),
            None => Err(DomainError::InvalidContentLength),
        }
    }

    /// The length in decimal.
    pub fn to_text(self) -> (text: String)
        ensures
            text@ == decimal(self@),
    {
        decimal_text(self.0)
    }
}

/// The largest part number of a multipart upload.
pub const MAX_PART_NUMBER: u16 = 10_000;

/// Whether `value` is a part number.
pub open spec fn is_part_number(value: int) -> bool {
    1 <= value <= MAX_PART_NUMBER
}

/// Multipart upload part number in the S3 range 1..=10000.
#[derive(Clone, Copy, Debug, PartialEq, Eq, Ord, Hash)]
pub struct PartNumber(u16);

impl View for PartNumber {
    type V = nat;

    closed spec fn view(&self) -> nat {
        self.0 as nat
    }
}

impl PartialOrd for PartNumber {
    fn partial_cmp(&self, other: &PartNumber) -> (result: Option<Ordering>) {
        if self.0 < other.0 {
            Some(Ordering::Less)
        } else if self.0 == other.0 {
            Some(Ordering::Equal)
        } else {
            Some(Ordering::Greater)
        }
    }
}

impl vstd::std_specs::cmp::PartialOrdSpecImpl for PartNumber {
    open spec fn obeys_partial_cmp_spec() -> bool {
        true
    }

    /// Part numbers are ordered as their values are.
    open spec fn partial_cmp_spec(&self, other: &PartNumber) -> Option<Ordering> {
        if self@ < other@ {
            Some(Ordering::Less)
        } else if self@ == other@ {
            Some(Ordering::Equal)
        } else {
            Some(Ordering::Greater)
        }
    }
}

impl PartNumber {
    #[verifier::type_invariant]
    spec fn is_valid(self) -> bool {
        is_part_number(self.0 as int)
    }

    /// Parses a multipart part number.
    ///
    /// Zero and values greater than 10,000 are refused.
    pub fn parse(value: u16) -> (result: Result<Self, DomainError>)
        ensures
            match result {
                Ok(number) => is_part_number(value as int) && number@ == value,
                Err(error) => !is_part_number(value as int) && error
                    == DomainError::InvalidPartNumber,
            },
    {
        if value == 0 || value > MAX_PART_NUMBER {
            return Err(DomainError::InvalidPartNumber);
        }
        Ok(PartNumber(value))
    }

    /// Returns the part number as an integer.
    pub fn get(self) -> (value: u16)
        ensures
            value == self@,
            is_part_number(self@ as int),
    {
        proof {
            use_type_invariant(self);
        }
        self.0
    }

    /// Parses a part number written in decimal.
    pub fn from_str(value: &str) -> (result: Result<Self, DomainError>)
        ensures
            match result {
                Ok(number) => parse_part_number(value@) == Some(number@),
                Err(error) => parse_part_number(value@) is None && error
                    == DomainError::InvalidPartNumber,
            },
    {
        match parse_number(value, 10, u16::MAX as u64) {
            Some(number) => PartNumber::parse(number as u16),
            None => Err(DomainError::InvalidPartNumber),
        }
    }

    /// The part number in decimal.
    pub fn to_text(self) -> (text: String)
        ensures
            text@ == decimal(self@),
    {
        decimal_text(self.0 as u64)
    }
}

/// Part numbers are ordered as their values are: one comes before another by `<` exactly where its
/// value is smaller, and they compare as equal exactly where their values are equal.
pub proof fn law_part_numbers_are_ordered_by_value(a: PartNumber, b: PartNumber)
    ensures
        PartNumber::obeys_partial_cmp_spec(),
        a.partial_cmp_spec(&b) == Some(Ordering::Less) <==> a@ < b@,
        a.partial_cmp_spec(&b) == Some(Ordering::Equal) <==> a@ == b@,
        a.partial_cmp_spec(&b) == Some(Ordering::Greater) <==> a@ > b@,
{
}

/// The part number that `value` writes in decimal.
pub open spec fn parse_part_number(value: Seq<char>) -> Option<nat> {
    match parse_unsigned(value, 10, u16::MAX as nat) {
        Some(n) => if is_part_number(n as int) {
            Some(n)
        } else {
            None
        },
        None => None,
    }
}

// ---------------------------------------------------------------------------------------------
// Operations
// ---------------------------------------------------------------------------------------------
/// Implemented S3 operation selected by method, target shape, and query string.
#[derive(Debug, PartialEq, Eq)]
pub enum S3Operation {
    /// PutObject.
    PutObject,
    /// CreateMultipartUpload.
    CreateMultipartUpload,
    /// UploadPart.
    UploadPart {
        /// Multipart upload ID.
        upload_id: UploadId,
        /// Multipart part number.
        part_number: PartNumber,
    },
    /// CompleteMultipartUpload.
    CompleteMultipartUpload {
        /// Multipart upload ID.
        upload_id: UploadId,
    },
    /// AbortMultipartUpload.
    AbortMultipartUpload {
        /// Multipart upload ID.
        upload_id: UploadId,
    },
    /// ListParts.
    ListParts {
        /// Multipart upload ID.
        upload_id: UploadId,
    },
    /// HeadBucket.
    HeadBucket,
    /// HeadObject.
    HeadObject,
    /// GetObject.
    GetObject,
    /// DeleteObject.
    DeleteObject,
}

/// An [`S3Operation`] with its identifiers as plain values.
pub enum OperationView {
    PutObject,
    CreateMultipartUpload,
    UploadPart { upload_id: Seq<char>, part_number: nat },
    CompleteMultipartUpload { upload_id: Seq<char> },
    AbortMultipartUpload { upload_id: Seq<char> },
    ListParts { upload_id: Seq<char> },
    HeadBucket,
    HeadObject,
    GetObject,
    DeleteObject,
}

impl View for S3Operation {
    type V = OperationView;

    open spec fn view(&self) -> OperationView {
        match self {
            S3Operation::PutObject => OperationView::PutObject,
            S3Operation::CreateMultipartUpload => OperationView::CreateMultipartUpload,
            S3Operation::UploadPart { upload_id, part_number } => OperationView::UploadPart {
                upload_id: upload_id@,
                part_number: part_number@,
            },
            S3Operation::CompleteMultipartUpload {
                upload_id,
            } => OperationView::CompleteMultipartUpload { upload_id: upload_id@ },
            S3Operation::AbortMultipartUpload { upload_id } => OperationView::AbortMultipartUpload {
                upload_id: upload_id@,
            },
            S3Operation::ListParts { upload_id } => OperationView::ListParts {
                upload_id: upload_id@,
            },
            S3Operation::HeadBucket => OperationView::HeadBucket,
            S3Operation::HeadObject => OperationView::HeadObject,
            S3Operation::GetObject => OperationView::GetObject,
            S3Operation::DeleteObject => OperationView::DeleteObject,
        }
    }
}

/// The name of an operation.
pub open spec fn operation_name(operation: OperationView) -> Seq<char> {
    match operation {
        OperationView::PutObject => "PutObject"@,
        OperationView::CreateMultipartUpload => "CreateMultipartUpload"@,
        OperationView::UploadPart { .. } => "UploadPart"@,
        OperationView::CompleteMultipartUpload { .. } => "CompleteMultipartUpload"@,
        OperationView::AbortMultipartUpload { .. } => "AbortMultipartUpload"@,
        OperationView::ListParts { .. } => "ListParts"@,
        OperationView::HeadBucket => "HeadBucket"@,
        OperationView::HeadObject => "HeadObject"@,
        OperationView::GetObject => "GetObject"@,
        OperationView::DeleteObject => "DeleteObject"@,
    }
}

/// The action that authorization checks for an operation.
pub open spec fn operation_action(operation: OperationView) -> S3Action {
    match operation {
        OperationView::PutObject => S3Action::PutObject,
        OperationView::CreateMultipartUpload => S3Action::CreateMultipartUpload,
        OperationView::UploadPart { .. } => S3Action::UploadPart,
        OperationView::CompleteMultipartUpload { .. } => S3Action::CompleteMultipartUpload,
        OperationView::AbortMultipartUpload { .. } => S3Action::AbortMultipartUpload,
        OperationView::ListParts { .. } => S3Action::ListMultipartUploadParts,
        OperationView::HeadBucket => S3Action::HeadBucket,
        OperationView::HeadObject => S3Action::HeadObject,
        OperationView::GetObject => S3Action::GetObject,
        OperationView::DeleteObject => S3Action::DeleteObject,
    }
}

impl Clone for S3Operation {
    fn clone(&self) -> (copy: Self)
        ensures
            copy@ == self@,
    {
        match self {
            S3Operation::PutObject => S3Operation::PutObject,
            S3Operation::CreateMultipartUpload => S3Operation::CreateMultipartUpload,
            S3Operation::UploadPart { upload_id, part_number } => S3Operation::UploadPart {
                upload_id: upload_id.clone(),
                part_number: *part_number,
            },
            S3Operation::CompleteMultipartUpload {
                upload_id,
            } => S3Operation::CompleteMultipartUpload { upload_id: upload_id.clone() },
            S3Operation::AbortMultipartUpload { upload_id } => S3Operation::AbortMultipartUpload {
                upload_id: upload_id.clone(),
            },
            S3Operation::ListParts { upload_id } => S3Operation::ListParts {
                upload_id: upload_id.clone(),
            },
            S3Operation::HeadBucket => S3Operation::HeadBucket,
            S3Operation::HeadObject => S3Operation::HeadObject,
            S3Operation::GetObject => S3Operation::GetObject,
            S3Operation::DeleteObject => S3Operation::DeleteObject,
        }
    }
}

impl S3Operation {
    /// Returns the S3 operation name used for tracing and diagnostics.
    pub fn name(&self) -> (name: &'static str)
        ensures
            name@ == operation_name(self@),
    {
        match self {
            S3Operation::PutObject => "PutObject",
            S3Operation::CreateMultipartUpload => "CreateMultipartUpload",
            S3Operation::UploadPart { .. } => "UploadPart",
            S3Operation::CompleteMultipartUpload { .. } => "CompleteMultipartUpload",
            S3Operation::AbortMultipartUpload { .. } => "AbortMultipartUpload",
            S3Operation::ListParts { .. } => "ListParts",
            S3Operation::HeadBucket => "HeadBucket",
            S3Operation::HeadObject => "HeadObject",
            S3Operation::GetObject => "GetObject",
            S3Operation::DeleteObject => "DeleteObject",
        }
    }

    /// Returns the IAM-style action used by authorization policies.
    pub fn action(&self) -> (action: S3Action)
        ensures
            action == operation_action(self@),
    {
        match self {
            S3Operation::PutObject => S3Action::PutObject,
            S3Operation::CreateMultipartUpload => S3Action::CreateMultipartUpload,
            S3Operation::UploadPart { .. } => S3Action::UploadPart,
            S3Operation::CompleteMultipartUpload { .. } => S3Action::CompleteMultipartUpload,
            S3Operation::AbortMultipartUpload { .. } => S3Action::AbortMultipartUpload,
            S3Operation::ListParts { .. } => S3Action::ListMultipartUploadParts,
            S3Operation::HeadBucket => S3Action::HeadBucket,
            S3Operation::HeadObject => S3Action::HeadObject,
            S3Operation::GetObject => S3Action::GetObject,
            S3Operation::DeleteObject => S3Action::DeleteObject,
        }
    }
}

// ---------------------------------------------------------------------------------------------
// Payload hash modes
// ---------------------------------------------------------------------------------------------
/// Parsed `x-amz-content-sha256` payload hash mode.
#[derive(Debug, PartialEq, Eq)]
pub enum PayloadHashMode {
    /// Header is absent.
    Missing,
    /// Literal `UNSIGNED-PAYLOAD`.
    UnsignedPayload,
    /// Fixed lowercase SHA256 hex digest.
    FixedSha256 {
        /// Original lowercase hex value.
        hex: String,
        /// Decoded digest bytes.
        digest: Vec<u8>,
    },
    /// Literal `STREAMING-AWS4-HMAC-SHA256-PAYLOAD`.
    StreamingSignedPayload,
    /// Literal `STREAMING-AWS4-HMAC-SHA256-PAYLOAD-TRAILER`.
    StreamingSignedPayloadTrailer,
    /// Literal `STREAMING-UNSIGNED-PAYLOAD-TRAILER`.
    StreamingUnsignedPayloadTrailer,
}

/// A [`PayloadHashMode`] as a mathematical value.
pub enum PayloadHashModeView {
    Missing,
    UnsignedPayload,
    FixedSha256 { hex: Seq<char>, digest: Seq<u8> },
    StreamingSignedPayload,
    StreamingSignedPayloadTrailer,
    StreamingUnsignedPayloadTrailer,
}

impl View for PayloadHashMode {
    type V = PayloadHashModeView;

    open spec fn view(&self) -> PayloadHashModeView {
        match self {
            PayloadHashMode::Missing => PayloadHashModeView::Missing,
            PayloadHashMode::UnsignedPayload => PayloadHashModeView::UnsignedPayload,
            PayloadHashMode::FixedSha256 { hex, digest } => PayloadHashModeView::FixedSha256 {
                hex: hex@,
                digest: digest@,
            },
            PayloadHashMode::StreamingSignedPayload => PayloadHashModeView::StreamingSignedPayload,
            PayloadHashMode::StreamingSignedPayloadTrailer => {
                PayloadHashModeView::StreamingSignedPayloadTrailer
            },
            PayloadHashMode::StreamingUnsignedPayloadTrailer => {
                PayloadHashModeView::StreamingUnsignedPayloadTrailer
            },
        }
    }
}

/// Whether `value` is a SHA-256 digest in lowercase hexadecimal.
pub open spec fn is_sha256_hex(value: Seq<char>) -> bool {
    value.len() == 64 && forall|i: int| 0 <= i < value.len() ==> is_lower_hex(#[trigger] value[i])
}

/// The payload hash mode that a header value, or its absence, selects.
pub open spec fn parse_payload_hash_mode(value: Option<Seq<char>>) -> Option<PayloadHashModeView> {
    match value {
        None => Some(PayloadHashModeView::Missing),
        Some(v) => if v == "UNSIGNED-PAYLOAD"@ {
            Some(PayloadHashModeView::UnsignedPayload)
        } else if v == "STREAMING-AWS4-HMAC-SHA256-PAYLOAD"@ {
            Some(PayloadHashModeView::StreamingSignedPayload)
        } else if v == "STREAMING-AWS4-HMAC-SHA256-PAYLOAD-TRAILER"@ {
            Some(PayloadHashModeView::StreamingSignedPayloadTrailer)
        } else if v == "STREAMING-UNSIGNED-PAYLOAD-TRAILER"@ {
            Some(PayloadHashModeView::StreamingUnsignedPayloadTrailer)
        } else if is_sha256_hex(v) {
            Some(PayloadHashModeView::FixedSha256 { hex: v, digest: hex_bytes(v)->0 })
        } else {
            None
        },
    }
}

/// The text that stands for a payload hash mode in a canonical request.
pub open spec fn payload_hash_value(mode: PayloadHashModeView) -> Option<Seq<char>> {
    match mode {
        PayloadHashModeView::Missing => None,
        PayloadHashModeView::UnsignedPayload => Some("UNSIGNED-PAYLOAD"@),
        PayloadHashModeView::FixedSha256 { hex, .. } => Some(hex),
        PayloadHashModeView::StreamingSignedPayload => Some("STREAMING-AWS4-HMAC-SHA256-PAYLOAD"@),
        PayloadHashModeView::StreamingSignedPayloadTrailer => Some(
            "STREAMING-AWS4-HMAC-SHA256-PAYLOAD-TRAILER"@,
        ),
        PayloadHashModeView::StreamingUnsignedPayloadTrailer => Some(
            "STREAMING-UNSIGNED-PAYLOAD-TRAILER"@,
        ),
    }
}

/// Every supported payload hash value is the canonical value of the mode it selects.
pub proof fn law_payload_hash_mode_round_trip(value: Option<Seq<char>>)
    ensures
        parse_payload_hash_mode(value) is Some ==> payload_hash_value(
            parse_payload_hash_mode(value)->0,
        ) == value,
{
}

/// Tests for a SHA-256 digest in lowercase hexadecimal.
pub fn is_lowercase_sha256_hex(value: &str) -> (result: bool)
    ensures
        result == is_sha256_hex(value@),
{
    let chars = chars_of(value);
    if chars.len() != 64 {
        return false;
    }
    let mut i: usize = 0;
    while i < chars.len()
        invariant
            i <= chars@.len(),
            chars@ == value@,
            forall|j: int| 0 <= j < i ==> is_lower_hex(#[trigger] value@[j]),
        decreases chars.len() - i,
    {
        let c: char = chars[i];
        if !((c >= '0' && c <= '9') || (c >= 'a' && c <= 'f')) {
            assert(!is_lower_hex(value@[i as int]));
            return false;
        }
        i += 1;
    }
    true
}

impl PayloadHashMode {
    /// Parses a payload hash header value.
    ///
    /// A value that is not one of the S3 payload hash modes implemented by this endpoint is
    /// refused.
    pub fn parse(value: Option<&str>) -> (result: Result<Self, DomainError>)
        ensures
            match result {
                Ok(mode) => parse_payload_hash_mode(crate::text::opt_str(value)) == Some(mode@),
                Err(error) => parse_payload_hash_mode(crate::text::opt_str(value)) is None && error
                    == DomainError::InvalidPayloadHashMode,
            },
    {
        let value = match value {
            Some(value) => value,
            None => {
                return Ok(PayloadHashMode::Missing);
            },
        };
        if same(value, "UNSIGNED-PAYLOAD") {
            return Ok(PayloadHashMode::UnsignedPayload);
        }
        if same(value, "STREAMING-AWS4-HMAC-SHA256-PAYLOAD") {
            return Ok(PayloadHashMode::StreamingSignedPayload);
        }
        if same(value, "STREAMING-AWS4-HMAC-SHA256-PAYLOAD-TRAILER") {
            return Ok(PayloadHashMode::StreamingSignedPayloadTrailer);
        }
        if same(value, "STREAMING-UNSIGNED-PAYLOAD-TRAILER") {
            return Ok(PayloadHashMode::StreamingUnsignedPayloadTrailer);
        }
        if !is_lowercase_sha256_hex(value) {
            return Err(DomainError::InvalidPayloadHashMode);
        }
        match hex_decode(value) {
            Some(digest) => Ok(PayloadHashMode::FixedSha256 { hex: value.to_owned(), digest }),
            None => {
                assert(crate::text::all_digits(value@, 16)) by {
                    assert forall|i: int| 0 <= i < value@.len() implies crate::text::digit_value(
                        #[trigger] value@[i],
                    ) < 16 by {
                        assert(is_lower_hex(value@[i]));
                    }
                }
                Err(DomainError::InvalidPayloadHashMode)
            },
        }
    }

    /// Returns the literal value used in SigV4 canonical requests, if present.
    pub fn canonical_value(&self) -> (value: Option<&str>)
        ensures
            crate::text::opt_str(value) == payload_hash_value(self@),
    {
        match self {
            PayloadHashMode::Missing => None,
            PayloadHashMode::UnsignedPayload => Some("UNSIGNED-PAYLOAD"),
            PayloadHashMode::FixedSha256 { hex, .. } => Some(hex.as_str()),
            PayloadHashMode::StreamingSignedPayload => Some("STREAMING-AWS4-HMAC-SHA256-PAYLOAD"),
            PayloadHashMode::StreamingSignedPayloadTrailer => Some(
                "STREAMING-AWS4-HMAC-SHA256-PAYLOAD-TRAILER",
            ),
            PayloadHashMode::StreamingUnsignedPayloadTrailer => Some(
                "STREAMING-UNSIGNED-PAYLOAD-TRAILER",
            ),
        }
    }
}

// ---------------------------------------------------------------------------------------------
// Targets
// ---------------------------------------------------------------------------------------------
/// Resolved object request target.
#[derive(Debug, PartialEq, Eq)]
pub struct S3Target {
    /// Bucket component of the target.
    pub bucket: BucketName,
    /// Object-key component of the target.
    pub key: ObjectKey,
    /// Whether the target was resolved from virtual-hosted-style addressing.
    pub virtual_hosted: bool,
}

/// An [`S3Target`] as a mathematical value.
pub struct TargetView {
    pub bucket: Seq<char>,
    pub key: Seq<char>,
    pub virtual_hosted: bool,
}

impl View for S3Target {
    type V = TargetView;

    open spec fn view(&self) -> TargetView {
        TargetView { bucket: self.bucket@, key: self.key@, virtual_hosted: self.virtual_hosted }
    }
}

impl Clone for S3Target {
    fn clone(&self) -> (copy: Self)
        ensures
            copy@ == self@,
    {
        S3Target {
            bucket: self.bucket.clone(),
            key: self.key.clone(),
            virtual_hosted: self.virtual_hosted,
        }
    }
}

} // verus!
