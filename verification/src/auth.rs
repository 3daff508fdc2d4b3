//! Request authentication with SigV4 signatures, and authorization by allow-lists.
use crate::body::payload::{payload_hash_mode, payload_mode};
use crate::collections::{
    is_sorted, lemma_sorted_texts, lemma_text_less_irreflexive, lemma_text_less_total,
    lemma_text_less_transitive, mapping, pairs, sorted_texts, TextMap, TextSet,
};
use crate::config::{
    action_name, credential_permits, find_credential, AccessKeyId, AuthState, AuthStateView,
    ConfiguredAccessKey, CredentialView, S3Action,
};
use crate::encoding::{
    constant_time_same, is_escape, percent_decode_text, percent_decoded, percent_decoded_text,
};
use crate::error::{
    access_denied, authorization_header_malformed, request_time_too_skewed,
    signature_does_not_match, ErrorView, S3Error,
};
use crate::hashing::{hmac_sha256, hmac_sha256_tag, sha256, sha256_digest};
use crate::hooks::{PrincipalView, RequestPrincipal};
use crate::http::{
    field_text, first_text, has_field, method_text, sent_query, value_text, values, HeaderMap,
    Method, RequestUri, UriView,
};
use crate::s3::types::{is_lowercase_sha256_hex, is_sha256_hex, payload_hash_value, BucketName};
use crate::text::{
    chars_of, comes_before, digit_value, ends_with, first_index, has_prefix, hex_encode, hex_text,
    is_digit, join, joined, opt_str, parse_number, parse_unsigned, raw_pair, read_pair, result_view,
    same, split, split_all, split_at_first, split_once, split_words, starts_with, strip_prefix,
    text_less, texts, trim, trimmed, without_prefix, words,
};
use crate::time::{
    is_after, naive_time, nanos_between, parse_naive_time, plus_seconds, Instant, NANOS_PER_SECOND,
};
use vstd::prelude::*;
use vstd::relations::{sorted_by, total_ordering};
use vstd::utf8::{encode_utf8, is_ascii_chars, is_ascii_chars_encode_utf8};

verus! {

// ---------------------------------------------------------------------------------------------
// Errors
// ---------------------------------------------------------------------------------------------
/// Why a request could not be authenticated.
#[derive(Debug, PartialEq, Eq)]
pub enum AuthError {
    UnsupportedAlgorithm,
    MalformedAuthorization,
    MissingAuthorizationField(&'static str),
    DuplicateAuthorizationField(String),
    InvalidCredentialScope,
    UnknownAccessKey,
    InactiveAccessKey,
    RegionMismatch,
    CredentialDateMismatch,
    InvalidTimestamp,
    RequestTimeTooSkewed,
    ExpiredPresignedUrl,
    InvalidSessionToken,
    MissingSignedHeader(String),
    InvalidSignedHeaders,
    MissingPresignedField(&'static str),
    DuplicatePresignedField(String),
    InvalidExpires,
    InvalidQueryEncoding,
    InvalidHeaderValue(String),
    InvalidPayloadHashMode,
    DuplicateHeader(String),
    SignatureMismatch,
    InvalidSignature,
}

/// An [`AuthError`] as a mathematical value.
#[verifier::ext_equal]
pub enum AuthErrorView {
    UnsupportedAlgorithm,
    MalformedAuthorization,
    MissingAuthorizationField(Seq<char>),
    DuplicateAuthorizationField(Seq<char>),
    InvalidCredentialScope,
    UnknownAccessKey,
    InactiveAccessKey,
    RegionMismatch,
    CredentialDateMismatch,
    InvalidTimestamp,
    RequestTimeTooSkewed,
    ExpiredPresignedUrl,
    InvalidSessionToken,
    MissingSignedHeader(Seq<char>),
    InvalidSignedHeaders,
    MissingPresignedField(Seq<char>),
    DuplicatePresignedField(Seq<char>),
    InvalidExpires,
    InvalidQueryEncoding,
    InvalidHeaderValue(Seq<char>),
    InvalidPayloadHashMode,
    DuplicateHeader(Seq<char>),
    SignatureMismatch,
    InvalidSignature,
}

impl View for AuthError {
    type V = AuthErrorView;

    open spec fn view(&self) -> AuthErrorView {
        match self {
            AuthError::UnsupportedAlgorithm => AuthErrorView::UnsupportedAlgorithm,
            AuthError::MalformedAuthorization => AuthErrorView::MalformedAuthorization,
            AuthError::MissingAuthorizationField(name) => {
                AuthErrorView::MissingAuthorizationField(name@)
            },
            AuthError::DuplicateAuthorizationField(name) => {
                AuthErrorView::DuplicateAuthorizationField(name@)
            },
            AuthError::InvalidCredentialScope => AuthErrorView::InvalidCredentialScope,
            AuthError::UnknownAccessKey => AuthErrorView::UnknownAccessKey,
            AuthError::InactiveAccessKey => AuthErrorView::InactiveAccessKey,
            AuthError::RegionMismatch => AuthErrorView::RegionMismatch,
            AuthError::CredentialDateMismatch => AuthErrorView::CredentialDateMismatch,
            AuthError::InvalidTimestamp => AuthErrorView::InvalidTimestamp,
            AuthError::RequestTimeTooSkewed => AuthErrorView::RequestTimeTooSkewed,
            AuthError::ExpiredPresignedUrl => AuthErrorView::ExpiredPresignedUrl,
            AuthError::InvalidSessionToken => AuthErrorView::InvalidSessionToken,
            AuthError::MissingSignedHeader(name) => AuthErrorView::MissingSignedHeader(name@),
            AuthError::InvalidSignedHeaders => AuthErrorView::InvalidSignedHeaders,
            AuthError::MissingPresignedField(name) => AuthErrorView::MissingPresignedField(name@),
            AuthError::DuplicatePresignedField(name) => {
                AuthErrorView::DuplicatePresignedField(name@)
            },
            AuthError::InvalidExpires => AuthErrorView::InvalidExpires,
            AuthError::InvalidQueryEncoding => AuthErrorView::InvalidQueryEncoding,
            AuthError::InvalidHeaderValue(name) => AuthErrorView::InvalidHeaderValue(name@),
            AuthError::InvalidPayloadHashMode => AuthErrorView::InvalidPayloadHashMode,
            AuthError::DuplicateHeader(name) => AuthErrorView::DuplicateHeader(name@),
            AuthError::SignatureMismatch => AuthErrorView::SignatureMismatch,
            AuthError::InvalidSignature => AuthErrorView::InvalidSignature,
        }
    }
}

/// The message of an authentication error.
pub open spec fn auth_error_message(error: AuthErrorView) -> Seq<char> {
    match error {
        AuthErrorView::UnsupportedAlgorithm => "unsupported authorization algorithm"@,
        AuthErrorView::MalformedAuthorization => "malformed authorization header"@,
        AuthErrorView::MissingAuthorizationField(name) => "authorization header is missing "@
            + name,
        AuthErrorView::DuplicateAuthorizationField(name) => "authorization header field "@ + name
            + " must not appear more than once"@,
        AuthErrorView::InvalidCredentialScope => "invalid credential scope"@,
        AuthErrorView::UnknownAccessKey => "unknown access key"@,
        AuthErrorView::InactiveAccessKey => "inactive access key"@,
        AuthErrorView::RegionMismatch => "credential region is not configured"@,
        AuthErrorView::CredentialDateMismatch => "credential date does not match x-amz-date"@,
        AuthErrorView::InvalidTimestamp => "request timestamp is invalid"@,
        AuthErrorView::RequestTimeTooSkewed => "request time is too skewed"@,
        AuthErrorView::ExpiredPresignedUrl => "presigned URL has expired"@,
        AuthErrorView::InvalidSessionToken => "session token is missing or invalid"@,
        AuthErrorView::MissingSignedHeader(name) => "missing signed header "@ + name,
        AuthErrorView::InvalidSignedHeaders => "signed headers are invalid"@,
        AuthErrorView::MissingPresignedField(name) => "presigned URL is missing "@ + name,
        AuthErrorView::DuplicatePresignedField(name) => "presigned URL field "@ + name
            + " must not appear more than once"@,
        AuthErrorView::InvalidExpires => "presigned URL expiration is invalid"@,
        AuthErrorView::InvalidQueryEncoding => {
            "query string contains invalid percent-encoded UTF-8"@
        },
        AuthErrorView::InvalidHeaderValue(name) => "invalid signed header value for "@ + name,
        AuthErrorView::InvalidPayloadHashMode => "unsupported x-amz-content-sha256 payload mode"@,
        AuthErrorView::DuplicateHeader(name) => name + " must not appear more than once"@,
        AuthErrorView::SignatureMismatch => "signature mismatch"@,
        AuthErrorView::InvalidSignature => "signature must be lowercase 64-character hex"@,
    }
}

impl AuthError {
    /// The message shown to users.
    pub fn message(&self) -> (message: String)
        ensures
            message@ == auth_error_message(self@),
    {
        match self {
            AuthError::UnsupportedAlgorithm => "unsupported authorization algorithm".to_owned(),
            AuthError::MalformedAuthorization => "malformed authorization header".to_owned(),
            AuthError::MissingAuthorizationField(name) => {
                "authorization header is missing ".to_owned().concat(name)
            },
            AuthError::DuplicateAuthorizationField(name) => {
                "authorization header field ".to_owned().concat(name.as_str()).concat(
                    " must not appear more than once",
                )
            },
            AuthError::InvalidCredentialScope => "invalid credential scope".to_owned(),
            AuthError::UnknownAccessKey => "unknown access key".to_owned(),
            AuthError::InactiveAccessKey => "inactive access key".to_owned(),
            AuthError::RegionMismatch => "credential region is not configured".to_owned(),
            AuthError::CredentialDateMismatch => {
                "credential date does not match x-amz-date".to_owned()
            },
            AuthError::InvalidTimestamp => "request timestamp is invalid".to_owned(),
            AuthError::RequestTimeTooSkewed => "request time is too skewed".to_owned(),
            AuthError::ExpiredPresignedUrl => "presigned URL has expired".to_owned(),
            AuthError::InvalidSessionToken => "session token is missing or invalid".to_owned(),
            AuthError::MissingSignedHeader(name) => {
                "missing signed header ".to_owned().concat(name.as_str())
            },
            AuthError::InvalidSignedHeaders => "signed headers are invalid".to_owned(),
            AuthError::MissingPresignedField(name) => {
                "presigned URL is missing ".to_owned().concat(name)
            },
            AuthError::DuplicatePresignedField(name) => {
                "presigned URL field ".to_owned().concat(name.as_str()).concat(
                    " must not appear more than once",
                )
            },
            AuthError::InvalidExpires => "presigned URL expiration is invalid".to_owned(),
            AuthError::InvalidQueryEncoding => {
                "query string contains invalid percent-encoded UTF-8".to_owned()
            },
            AuthError::InvalidHeaderValue(name) => {
                "invalid signed header value for ".to_owned().concat(name.as_str())
            },
            AuthError::InvalidPayloadHashMode => {
                "unsupported x-amz-content-sha256 payload mode".to_owned()
            },
            AuthError::DuplicateHeader(name) => {
                name.clone().concat(" must not appear more than once")
            },
            AuthError::SignatureMismatch => "signature mismatch".to_owned(),
            AuthError::InvalidSignature => "signature must be lowercase 64-character hex".to_owned(),
        }
    }
}

/// The S3 error that an authentication error is answered with.
pub open spec fn auth_error_response(error: AuthErrorView) -> ErrorView {
    match error {
        AuthErrorView::SignatureMismatch => signature_does_not_match(),
        AuthErrorView::RequestTimeTooSkewed => request_time_too_skewed(),
        AuthErrorView::ExpiredPresignedUrl => access_denied("Request has expired"@),
        AuthErrorView::InvalidCredentialScope => {
            authorization_header_malformed(auth_error_message(error))
        },
        AuthErrorView::RegionMismatch => authorization_header_malformed(auth_error_message(error)),
        AuthErrorView::CredentialDateMismatch => {
            authorization_header_malformed(auth_error_message(error))
        },
        _ => access_denied(auth_error_message(error)),
    }
}

/// Maps an authentication error to the S3 error it is answered with.
pub fn map_auth_error(error: AuthError) -> (response: S3Error)
    ensures
        response@ == auth_error_response(error@),
{
    let message = error.message();
    match error {
        AuthError::SignatureMismatch => S3Error::signature_does_not_match(),
        AuthError::RequestTimeTooSkewed => S3Error::request_time_too_skewed(),
        AuthError::ExpiredPresignedUrl => S3Error::access_denied("Request has expired"),
        AuthError::InvalidCredentialScope => {
            S3Error::authorization_header_malformed(message.as_str())
        },
        AuthError::RegionMismatch => S3Error::authorization_header_malformed(message.as_str()),
        AuthError::CredentialDateMismatch => {
            S3Error::authorization_header_malformed(message.as_str())
        },
        _ => S3Error::access_denied(message.as_str()),
    }
}

/// The error of a check that has no result of its own.
pub open spec fn auth_failure(result: Result<(), AuthError>) -> Option<AuthErrorView> {
    match result {
        Ok(_) => None,
        Err(error) => Some(error@),
    }
}

// ---------------------------------------------------------------------------------------------
// URI encoding
// ---------------------------------------------------------------------------------------------
/// Whether a byte stands for itself in an encoded URI.
pub open spec fn is_unreserved(byte: u8) -> bool {
    ||| 0x41 <= byte <= 0x5a
    ||| 0x61 <= byte <= 0x7a
    ||| 0x30 <= byte <= 0x39
    ||| byte == 0x2d
    ||| byte == 0x2e
    ||| byte == 0x5f
    ||| byte == 0x7e
}

/// The uppercase hexadecimal digit of a value below sixteen.
pub open spec fn upper_hex_digit(value: nat) -> char {
    if value < 10 {
        ('0' as u32 + value) as char
    } else {
        ('A' as u32 + value - 10) as char
    }
}

/// The encoded form of one byte.
pub open spec fn encoded_byte(byte: u8, preserve_slash: bool) -> Seq<char> {
    if is_unreserved(byte) || (byte == 0x2f && preserve_slash) {
        seq![byte as char]
    } else {
        seq!['%', upper_hex_digit(byte as nat / 16), upper_hex_digit(byte as nat % 16)]
    }
}

/// The encoded form of bytes: everything but unreserved characters, and slashes where they are
/// preserved, is percent-encoded.
pub open spec fn uri_encoded(bytes: Seq<u8>, preserve_slash: bool) -> Seq<char>
    decreases bytes.len(),
{
    if bytes.len() == 0 {
        Seq::empty()
    } else {
        uri_encoded(bytes.drop_last(), preserve_slash) + encoded_byte(bytes.last(), preserve_slash)
    }
}

fn upper_hex(value: u8) -> (digit: char)
    requires
        value < 16,
    ensures
        digit == upper_hex_digit(value as nat),
{
    if value < 10 {
        (48 + value) as char
    } else {
        (55 + value) as char
    }
}

/// Percent-encodes bytes as SigV4 canonical requests do.
pub fn aws_uri_encode(bytes: &[u8], preserve_slash: bool) -> (encoded: String)
    ensures
        encoded@ == uri_encoded(bytes@, preserve_slash),
{
    let mut encoded = String::new();
    let mut i: usize = 0;
    while i < bytes.len()
        invariant
            i <= bytes@.len(),
            encoded@ == uri_encoded(bytes@.take(i as int), preserve_slash),
        decreases bytes.len() - i,
    {
        let byte: u8 = bytes[i];
        let ghost before = encoded@;
        proof {
            assert(bytes@.take(i + 1).drop_last() =~= bytes@.take(i as int));
            assert(bytes@.take(i + 1).last() == byte);
        }
        if (byte >= 0x41 && byte <= 0x5a) || (byte >= 0x61 && byte <= 0x7a) || (byte >= 0x30
            && byte <= 0x39) || byte == 0x2d || byte == 0x2e || byte == 0x5f || byte == 0x7e || (
        byte == 0x2f && preserve_slash) {
            encoded.push(byte as char);
            assert(encoded@ =~= before + encoded_byte(byte, preserve_slash));
        } else {
            encoded.push('%');
            encoded.push(upper_hex(byte / 16));
            encoded.push(upper_hex(byte % 16));
            assert(encoded@ =~= before + encoded_byte(byte, preserve_slash));
        }
        i += 1;
    }
    assert(bytes@.take(i as int) =~= bytes@);
    encoded
}

/// The canonical form of a request path.
pub open spec fn canonical_path(path: Seq<char>) -> Seq<char> {
    uri_encoded(encode_utf8(path), true)
}

/// Encodes a request path for a canonical request.
pub fn canonical_uri(path: &str) -> (encoded: String)
    ensures
        encoded@ == canonical_path(path@),
{
    aws_uri_encode(path.as_bytes(), true)
}

// ---------------------------------------------------------------------------------------------
// Queries
// ---------------------------------------------------------------------------------------------
/// Which query parameters take part in a canonical query.
#[derive(Clone, Copy, Debug, PartialEq, Eq, Structural)]
pub enum CanonicalQueryMode {
    /// All of them.
    IncludeAll,
    /// All but the signature of a presigned URL.
    ExcludePresignedSignature,
}

/// The encoded parameters of the pieces of a query, in the order in which they were sent; nothing
/// where a name, or a value that takes part, is not percent-encoded UTF-8.
pub open spec fn canonical_parameters(
    pieces: Seq<Seq<char>>,
    mode: CanonicalQueryMode,
) -> Option<Seq<(Seq<char>, Seq<char>)>>
    decreases pieces.len(),
{
    if pieces.len() == 0 {
        Some(Seq::empty())
    } else {
        match canonical_parameters(pieces.drop_last(), mode) {
            None => None,
            Some(list) => {
                let raw = raw_pair(pieces.last());
                match percent_decoded_text(raw.0) {
                    None => None,
                    Some(name) => if mode == CanonicalQueryMode::ExcludePresignedSignature && name
                        == "X-Amz-Signature"@ {
                        Some(list)
                    } else {
                        match percent_decoded_text(raw.1) {
                            None => None,
                            Some(value) => Some(
                                list.push(
                                    (
                                        uri_encoded(encode_utf8(name), false),
                                        uri_encoded(encode_utf8(value), false),
                                    ),
                                ),
                            ),
                        }
                    },
                }
            },
        }
    }
}

/// Whether one parameter may stand before another: ordered by name and then by value.
pub open spec fn parameter_le(a: (Seq<char>, Seq<char>), b: (Seq<char>, Seq<char>)) -> bool {
    text_less(a.0, b.0) || (a.0 == b.0 && !text_less(b.1, a.1))
}

/// Parameters in canonical order.
pub open spec fn sorted_parameters(list: Seq<(Seq<char>, Seq<char>)>) -> Seq<
    (Seq<char>, Seq<char>),
> {
    list.sort_by(|a: (Seq<char>, Seq<char>), b: (Seq<char>, Seq<char>)| parameter_le(a, b))
}

/// A parameter as it is written in a canonical query.
pub open spec fn parameter_text(p: (Seq<char>, Seq<char>)) -> Seq<char> {
    p.0 + "="@ + p.1
}

/// The canonical form of a query.
pub open spec fn canonical_query_text(query: Seq<char>, mode: CanonicalQueryMode) -> Result<
    Seq<char>,
    AuthErrorView,
> {
    if query.len() == 0 {
        Ok(Seq::empty())
    } else {
        match canonical_parameters(split(query, '&'), mode) {
            None => Err(AuthErrorView::InvalidQueryEncoding),
            Some(list) => Ok(
                join(
                    sorted_parameters(list).map_values(
                        |p: (Seq<char>, Seq<char>)| parameter_text(p),
                    ),
                    "&"@,
                ),
            ),
        }
    }
}

/// The order of parameters is total.
pub proof fn lemma_parameter_order()
    ensures
        total_ordering(
            |a: (Seq<char>, Seq<char>), b: (Seq<char>, Seq<char>)| parameter_le(a, b),
        ),
{
    let leq = |a: (Seq<char>, Seq<char>), b: (Seq<char>, Seq<char>)| parameter_le(a, b);
    assert forall|x: (Seq<char>, Seq<char>)| #[trigger] leq(x, x) by {
        lemma_text_less_irreflexive(x.1);
    }
    assert forall|x: (Seq<char>, Seq<char>), y: (Seq<char>, Seq<char>)| #[trigger]
        leq(x, y) && #[trigger] leq(y, x) implies x == y by {
        if x.0 == y.0 {
            lemma_text_less_total(x.1, y.1);
            lemma_text_less_irreflexive(x.0);
        } else {
            lemma_text_less_transitive(x.0, y.0, x.0);
            lemma_text_less_irreflexive(x.0);
        }
    }
    assert forall|x: (Seq<char>, Seq<char>), y: (Seq<char>, Seq<char>), z: (Seq<char>, Seq<char>)|
        #[trigger] leq(x, y) && #[trigger] leq(y, z) implies leq(x, z) by {
        if text_less(x.0, y.0) {
            if text_less(y.0, z.0) {
                lemma_text_less_transitive(x.0, y.0, z.0);
            }
        } else if !text_less(y.0, z.0) {
            if text_less(z.1, x.1) {
                lemma_text_less_total(x.1, y.1);
                if x.1 != y.1 {
                    lemma_text_less_transitive(z.1, x.1, y.1);
                }
            }
        }
    }
    assert forall|x: (Seq<char>, Seq<char>), y: (Seq<char>, Seq<char>)| #[trigger]
        leq(x, y) || #[trigger] leq(y, x) by {
        lemma_text_less_total(x.0, y.0);
        if x.0 == y.0 {
            lemma_text_less_total(x.1, y.1);
            if text_less(x.1, y.1) && text_less(y.1, x.1) {
                lemma_text_less_transitive(x.1, y.1, x.1);
                lemma_text_less_irreflexive(x.1);
            }
        }
    }
}

fn parameter_before(a: &(String, String), b: &(String, String)) -> (result: bool)
    ensures
        result == parameter_le((a.0@, a.1@), (b.0@, b.1@)),
{
    comes_before(a.0.as_str(), b.0.as_str()) || (same(a.0.as_str(), b.0.as_str())
        && !comes_before(b.1.as_str(), a.1.as_str()))
}

/// Puts a parameter into a sorted list, after all that may stand before it.
fn insert_parameter(list: &mut Vec<(String, String)>, parameter: (String, String))
    requires
        sorted_by(
            pairs(old(list)@),
            |a: (Seq<char>, Seq<char>), b: (Seq<char>, Seq<char>)| parameter_le(a, b),
        ),
    ensures
        sorted_by(
            pairs(final(list)@),
            |a: (Seq<char>, Seq<char>), b: (Seq<char>, Seq<char>)| parameter_le(a, b),
        ),
        pairs(final(list)@).to_multiset() == pairs(old(list)@).to_multiset().insert(
            (parameter.0@, parameter.1@),
        ),
{
    let ghost leq = |a: (Seq<char>, Seq<char>), b: (Seq<char>, Seq<char>)| parameter_le(a, b);
    let ghost before = pairs(list@);
    let ghost x = (parameter.0@, parameter.1@);
    let mut at: usize = 0;
    while at < list.len() && parameter_before(&list[at], &parameter)
        invariant
            at <= list@.len(),
            before == pairs(list@),
            x == (parameter.0@, parameter.1@),
            forall|j: int| 0 <= j < at ==> parameter_le(#[trigger] before[j], x),
        decreases list.len() - at,
    {
        assert(before[at as int] == (list@[at as int].0@, list@[at as int].1@));
        at += 1;
    }
    proof {
        lemma_parameter_order();
        if at < before.len() {
            assert(before[at as int] == (list@[at as int].0@, list@[at as int].1@));
            assert(!parameter_le(before[at as int], x));
            assert(leq(x, before[at as int]) || leq(before[at as int], x));
            assert(parameter_le(x, before[at as int]));
        }
    }
    list.insert(at, parameter);
    proof {
        let after = before.insert(at as int, x);
        assert(pairs(list@) =~= after);
        assert forall|i: int, j: int| 0 <= i < j < after.len() implies #[trigger] leq(
            after[i],
            after[j],
        ) by {
            let a = if i < at {
                i
            } else {
                i - 1
            };
            let b = if j < at {
                j
            } else {
                j - 1
            };
            if i == at {
                assert(after[j] == before[b]);
                if b > at {
                    assert(leq(before[at as int], before[b]));
                    assert(leq(x, before[at as int]));
                    assert(leq(x, before[b]));
                }
            } else if j == at {
                assert(after[i] == before[a]);
            } else {
                assert(after[i] == before[a] && after[j] == before[b]);
                assert(leq(before[a], before[b]));
            }
        }
        vstd::seq_lib::to_multiset_insert(before, at as int, x);
    }
}

/// The canonical form of a query, for a canonical request.
pub fn canonical_query(query: &str, mode: CanonicalQueryMode) -> (result: Result<String, AuthError>)
    ensures
        result_view(result) == canonical_query_text(query@, mode),
{
    if query.is_empty() {
        let empty = String::new();
        return Ok(empty);
    }
    let pieces = split_all(query, '&');
    let ghost all = split(query@, '&');
    let ghost leq = |a: (Seq<char>, Seq<char>), b: (Seq<char>, Seq<char>)| parameter_le(a, b);
    let mut sorted: Vec<(String, String)> = Vec::new();
    let ghost mut sent: Seq<(Seq<char>, Seq<char>)> = Seq::empty();
    let mut i: usize = 0;
    proof {
        assert(pairs(sorted@) =~= Seq::<(Seq<char>, Seq<char>)>::empty());
        assert(all.take(0) =~= Seq::<Seq<char>>::empty());
    }
    while i < pieces.len()
        invariant
            i <= pieces@.len(),
            query@.len() > 0,
            all == split(query@, '&'),
            texts(pieces@) == all,
            leq == (|a: (Seq<char>, Seq<char>), b: (Seq<char>, Seq<char>)| parameter_le(a, b)),
            canonical_parameters(all.take(i as int), mode) == Some(sent),
            sorted_by(pairs(sorted@), leq),
            pairs(sorted@).to_multiset() == sent.to_multiset(),
        decreases pieces.len() - i,
    {
        let (raw_name, raw_value) = read_pair(pieces[i].as_str());
        proof {
            assert(all.take(i + 1).drop_last() =~= all.take(i as int));
            assert(all.take(i + 1).last() == pieces@[i as int]@);
            lemma_canonical_parameters_fail(all, i + 1, mode);
            assert(all.take(all.len() as int) =~= all);
        }
        let name = match percent_decode_text(raw_name.as_str()) {
            Some(name) => name,
            None => {
                return Err(AuthError::InvalidQueryEncoding);
            },
        };
        if !(mode == CanonicalQueryMode::ExcludePresignedSignature && same(
            name.as_str(),
            "X-Amz-Signature",
        )) {
            let value = match percent_decode_text(raw_value.as_str()) {
                Some(value) => value,
                None => {
                    return Err(AuthError::InvalidQueryEncoding);
                },
            };
            let parameter = (
                aws_uri_encode(name.as_str().as_bytes(), false),
                aws_uri_encode(value.as_str().as_bytes(), false),
            );
            proof {
                vstd::seq_lib::to_multiset_build(sent, (parameter.0@, parameter.1@));
                sent = sent.push((parameter.0@, parameter.1@));
            }
            insert_parameter(&mut sorted, parameter);
        }
        i += 1;
    }
    proof {
        assert(all.take(i as int) =~= all);
        lemma_parameter_order();
        sent.lemma_sort_by_ensures(leq);
        vstd::seq_lib::lemma_sorted_unique(pairs(sorted@), sorted_parameters(sent), leq);
    }
    let mut lines: Vec<String> = Vec::new();
    let ghost rendered = sorted_parameters(sent).map_values(
        |p: (Seq<char>, Seq<char>)| parameter_text(p),
    );
    let mut j: usize = 0;
    while j < sorted.len()
        invariant
            j <= sorted@.len(),
            pairs(sorted@) == sorted_parameters(sent),
            rendered == sorted_parameters(sent).map_values(
                |p: (Seq<char>, Seq<char>)| parameter_text(p),
            ),
            texts(lines@) == rendered.take(j as int),
        decreases sorted.len() - j,
    {
        let mut line = sorted[j].0.clone();
        line.append("=");
        line.append(sorted[j].1.as_str());
        proof {
            assert(sorted_parameters(sent)[j as int] == (
                sorted@[j as int].0@,
                sorted@[j as int].1@,
            ));
            assert(texts(lines@.push(line)) =~= texts(lines@).push(line@));
            assert(rendered.take(j + 1) =~= rendered.take(j as int).push(line@));
        }
        lines.push(line);
        j += 1;
    }
    assert(rendered.take(j as int) =~= rendered);
    Ok(joined(&lines, "&"))
}

/// Pieces that cannot be decoded spoil the whole query.
proof fn lemma_canonical_parameters_fail(
    pieces: Seq<Seq<char>>,
    n: int,
    mode: CanonicalQueryMode,
)
    requires
        0 <= n <= pieces.len(),
    ensures
        canonical_parameters(pieces.take(n), mode) is None ==> canonical_parameters(
            pieces.take(pieces.len() as int),
            mode,
        ) is None,
    decreases pieces.len() - n,
{
    if n < pieces.len() {
        assert(pieces.take(n + 1).drop_last() =~= pieces.take(n));
        lemma_canonical_parameters_fail(pieces, n + 1, mode);
    }
}

/// Whether a query carries the fields of a presigned URL.
pub open spec fn is_presigned(query: Seq<char>) -> bool {
    exists|i: int|
        0 <= i < split(query, '&').len() && percent_decoded_text(
            raw_pair(#[trigger] split(query, '&')[i]).0,
        ) == Some("X-Amz-Algorithm"@)
}

/// Tests whether a query carries the fields of a presigned URL.
pub fn is_presigned_query(query: &str) -> (result: bool)
    ensures
        result == is_presigned(query@),
{
    let pieces = split_all(query, '&');
    let ghost all = split(query@, '&');
    let mut i: usize = 0;
    while i < pieces.len()
        invariant
            i <= pieces@.len(),
            all == split(query@, '&'),
            texts(pieces@) == all,
            forall|j: int|
                0 <= j < i ==> percent_decoded_text(raw_pair(#[trigger] all[j]).0) != Some(
                    "X-Amz-Algorithm"@,
                ),
        decreases pieces.len() - i,
    {
        let (name, _) = read_pair(pieces[i].as_str());
        assert(all[i as int] == pieces@[i as int]@);
        match percent_decode_text(name.as_str()) {
            Some(decoded) => {
                if same(decoded.as_str(), "X-Amz-Algorithm") {
                    assert(percent_decoded_text(raw_pair(split(query@, '&')[i as int]).0)
                        == Some("X-Amz-Algorithm"@));
                    return true;
                }
            },
            None => {},
        }
        i += 1;
    }
    false
}

/// Whether a name is one of the fields of a presigned URL, which may occur only once.
pub open spec fn is_presigned_field(name: Seq<char>) -> bool {
    ||| name == "X-Amz-Algorithm"@
    ||| name == "X-Amz-Credential"@
    ||| name == "X-Amz-Date"@
    ||| name == "X-Amz-Expires"@
    ||| name == "X-Amz-SignedHeaders"@
    ||| name == "X-Amz-Signature"@
    ||| name == "X-Amz-Security-Token"@
}

fn names_presigned_field(name: &str) -> (result: bool)
    ensures
        result == is_presigned_field(name@),
{
    same(name, "X-Amz-Algorithm") || same(name, "X-Amz-Credential") || same(name, "X-Amz-Date")
        || same(name, "X-Amz-Expires") || same(name, "X-Amz-SignedHeaders") || same(
        name,
        "X-Amz-Signature",
    ) || same(name, "X-Amz-Security-Token")
}

/// The decoded fields of the pieces of a query. Of fields with one name the last counts, but a
/// field of a presigned URL must not be repeated.
pub open spec fn fields_of(pieces: Seq<Seq<char>>) -> Result<
    Map<Seq<char>, Seq<char>>,
    AuthErrorView,
>
    decreases pieces.len(),
{
    if pieces.len() == 0 {
        Ok(Map::empty())
    } else {
        match fields_of(pieces.drop_last()) {
            Err(error) => Err(error),
            Ok(fields) => {
                let raw = raw_pair(pieces.last());
                match percent_decoded_text(raw.0) {
                    None => Err(AuthErrorView::InvalidQueryEncoding),
                    Some(name) => if is_presigned_field(name) && fields.dom().contains(name) {
                        Err(AuthErrorView::DuplicatePresignedField(name))
                    } else {
                        match percent_decoded_text(raw.1) {
                            None => Err(AuthErrorView::InvalidQueryEncoding),
                            Some(value) => Ok(fields.insert(name, value)),
                        }
                    },
                }
            },
        }
    }
}

/// An error in the first pieces is the error of the whole query.
proof fn lemma_fields_fail(pieces: Seq<Seq<char>>, n: int)
    requires
        0 <= n <= pieces.len(),
        fields_of(pieces.take(n)) is Err,
    ensures
        fields_of(pieces) == fields_of(pieces.take(n)),
    decreases pieces.len() - n,
{
    if n < pieces.len() {
        assert(pieces.take(n + 1).drop_last() =~= pieces.take(n));
        lemma_fields_fail(pieces, n + 1);
    } else {
        assert(pieces.take(n) =~= pieces);
    }
}

/// Reads the fields of a query.
pub fn query_fields(query: &str) -> (result: Result<TextMap, AuthError>)
    ensures
        match result {
            Ok(fields) => fields_of(split(query@, '&')) == Ok::<_, AuthErrorView>(mapping(fields@)),
            Err(error) => fields_of(split(query@, '&')) == Err::<Map<Seq<char>, Seq<char>>, _>(
                error@,
            ),
        },
{
    let pieces = split_all(query, '&');
    let ghost all = split(query@, '&');
    let mut fields = TextMap::new();
    let mut i: usize = 0;
    assert(all.take(0) =~= Seq::<Seq<char>>::empty());
    while i < pieces.len()
        invariant
            i <= pieces@.len(),
            all == split(query@, '&'),
            texts(pieces@) == all,
            fields_of(all.take(i as int)) == Ok::<_, AuthErrorView>(mapping(fields@)),
        decreases pieces.len() - i,
    {
        let (raw_name, raw_value) = read_pair(pieces[i].as_str());
        proof {
            assert(all.take(i + 1).drop_last() =~= all.take(i as int));
            assert(all.take(i + 1).last() == pieces@[i as int]@);
            if fields_of(all.take(i + 1)) is Err {
                lemma_fields_fail(all, i + 1);
            }
        }
        let name = match percent_decode_text(raw_name.as_str()) {
            Some(name) => name,
            None => {
                return Err(AuthError::InvalidQueryEncoding);
            },
        };
        if names_presigned_field(name.as_str()) && fields.contains_key(name.as_str()) {
            return Err(AuthError::DuplicatePresignedField(name));
        }
        let value = match percent_decode_text(raw_value.as_str()) {
            Some(value) => value,
            None => {
                return Err(AuthError::InvalidQueryEncoding);
            },
        };
        fields.insert(name.as_str(), value.as_str());
        i += 1;
    }
    assert(all.take(i as int) =~= all);
    Ok(fields)
}

/// The value of a field that must be there.
pub open spec fn required_value(
    fields: Map<Seq<char>, Seq<char>>,
    name: Seq<char>,
) -> Result<Seq<char>, AuthErrorView> {
    if fields.dom().contains(name) {
        Ok(fields[name])
    } else {
        Err(AuthErrorView::MissingPresignedField(name))
    }
}

/// Reads a field of a presigned URL that must be there.
pub fn required_query(query: &TextMap, name: &'static str) -> (result: Result<String, AuthError>)
    ensures
        result_view(result) == required_value(mapping(query@), name@),
{
    match query.get(name) {
        Some(value) => Ok(value.to_owned()),
        None => Err(AuthError::MissingPresignedField(name)),
    }
}

// ---------------------------------------------------------------------------------------------
// Signed headers
// ---------------------------------------------------------------------------------------------
/// Whether `c` may not occur in the name of a signed header: uppercase letters and control
/// characters.
pub open spec fn is_bad_name_char(c: char) -> bool {
    'A' <= c <= 'Z' || crate::text::is_control(c)
}

/// Whether a name holds a character that names of signed headers may not hold.
pub open spec fn is_bad_name(name: Seq<char>) -> bool {
    name.len() == 0 || exists|i: int| 0 <= i < name.len() && is_bad_name_char(#[trigger] name[i])
}

/// The error of a list of signed headers: names must be lowercase, in ascending order and without
/// repetition, and `host` must be among them.
pub open spec fn signed_headers_error(names: Seq<Seq<char>>) -> Option<AuthErrorView> {
    if names.len() == 0 || (exists|i: int|
        0 <= i < names.len() && is_bad_name(#[trigger] names[i])) || !is_sorted(names) {
        Some(AuthErrorView::InvalidSignedHeaders)
    } else if !names.contains("host"@) {
        Some(AuthErrorView::MissingSignedHeader("host"@))
    } else {
        None
    }
}

fn name_is_bad(name: &str) -> (result: bool)
    ensures
        result == is_bad_name(name@),
{
    let chars = chars_of(name);
    if chars.len() == 0 {
        return true;
    }
    let mut i: usize = 0;
    while i < chars.len()
        invariant
            i <= chars@.len(),
            chars@ == name@,
            forall|j: int| 0 <= j < i ==> !is_bad_name_char(#[trigger] name@[j]),
        decreases chars.len() - i,
    {
        let c: char = chars[i];
        if (c >= 'A' && c <= 'Z') || crate::text::char_is_control(c) {
            assert(is_bad_name_char(name@[i as int]));
            return true;
        }
        i += 1;
    }
    false
}

fn list_has(names: &Vec<String>, name: &str) -> (result: bool)
    ensures
        result == texts(names@).contains(name@),
{
    let mut i: usize = 0;
    while i < names.len()
        invariant
            i <= names@.len(),
            forall|j: int| 0 <= j < i ==> #[trigger] texts(names@)[j] != name@,
        decreases names.len() - i,
    {
        assert(texts(names@)[i as int] == names@[i as int]@);
        if same(names[i].as_str(), name) {
            return true;
        }
        i += 1;
    }
    false
}

/// Checks a list of signed headers.
pub fn validate_signed_headers(signed_headers: &Vec<String>) -> (result: Result<(), AuthError>)
    ensures
        auth_failure(result) == signed_headers_error(texts(signed_headers@)),
{
    let ghost names = texts(signed_headers@);
    if signed_headers.len() == 0 {
        return Err(AuthError::InvalidSignedHeaders);
    }
    let mut i: usize = 0;
    while i < signed_headers.len()
        invariant
            i <= signed_headers@.len(),
            names == texts(signed_headers@),
            names.len() > 0,
            forall|j: int| 0 <= j < i ==> !is_bad_name(#[trigger] names[j]),
            forall|j: int, k: int| 0 <= j < k < i ==> #[trigger] text_less(names[j], names[k]),
        decreases signed_headers.len() - i,
    {
        assert(names[i as int] == signed_headers@[i as int]@);
        if name_is_bad(signed_headers[i].as_str()) {
            return Err(AuthError::InvalidSignedHeaders);
        }
        if i > 0 {
            assert(names[i - 1] == signed_headers@[i - 1]@);
            if !comes_before(signed_headers[i - 1].as_str(), signed_headers[i].as_str()) {
                assert(!text_less(names[i - 1], names[i as int]));
                return Err(AuthError::InvalidSignedHeaders);
            }
            assert forall|j: int| 0 <= j < i implies #[trigger] text_less(
                names[j],
                names[i as int],
            ) by {
                if j < i - 1 {
                    assert(text_less(names[j], names[i - 1]));
                    lemma_text_less_transitive(names[j], names[i - 1], names[i as int]);
                }
            }
        }
        i += 1;
    }
    if !list_has(signed_headers, "host") {
        return Err(AuthError::MissingSignedHeader("host".to_owned()));
    }
    Ok(())
}

/// The error of a request of which some `x-amz-` header, from position `i` on, is not signed.
pub open spec fn unsigned_amz_error(
    headers: Seq<(Seq<char>, Seq<u8>)>,
    signed: Seq<Seq<char>>,
    i: int,
) -> Option<AuthErrorView>
    decreases headers.len() - i,
{
    if i < 0 || i >= headers.len() {
        None
    } else if starts_with(headers[i].0, "x-amz-"@) && !signed.contains(headers[i].0) {
        Some(AuthErrorView::MissingSignedHeader(headers[i].0))
    } else {
        unsigned_amz_error(headers, signed, i + 1)
    }
}

/// Checks that every `x-amz-` header is signed.
pub fn validate_amz_headers_are_signed(headers: &HeaderMap, signed_headers: &Vec<String>) -> (result:
    Result<(), AuthError>)
    ensures
        auth_failure(result) == unsigned_amz_error(headers@, texts(signed_headers@), 0),
{
    let mut i: usize = 0;
    while i < headers.len()
        invariant
            i <= headers@.len(),
            unsigned_amz_error(headers@, texts(signed_headers@), 0) == unsigned_amz_error(
                headers@,
                texts(signed_headers@),
                i as int,
            ),
        decreases headers@.len() - i,
    {
        let name = headers.name_at(i);
        if has_prefix(name, "x-amz-") && !list_has(signed_headers, name) {
            return Err(AuthError::MissingSignedHeader(name.to_owned()));
        }
        i += 1;
    }
    Ok(())
}

/// The error of a request that repeats a header which authentication reads.
pub open spec fn repeated_auth_header(headers: Seq<(Seq<char>, Seq<u8>)>) -> Option<AuthErrorView> {
    if values(headers, "x-amz-date"@).len() > 1 {
        Some(AuthErrorView::DuplicateHeader("x-amz-date"@))
    } else if values(headers, "x-amz-content-sha256"@).len() > 1 {
        Some(AuthErrorView::DuplicateHeader("x-amz-content-sha256"@))
    } else if values(headers, "x-amz-security-token"@).len() > 1 {
        Some(AuthErrorView::DuplicateHeader("x-amz-security-token"@))
    } else {
        None
    }
}

/// Checks that no header which authentication reads is repeated.
pub fn validate_singleton_auth_headers(headers: &HeaderMap) -> (result: Result<(), AuthError>)
    ensures
        auth_failure(result) == repeated_auth_header(headers@),
{
    if headers.count("x-amz-date") > 1 {
        return Err(AuthError::DuplicateHeader("x-amz-date".to_owned()));
    }
    if headers.count("x-amz-content-sha256") > 1 {
        return Err(AuthError::DuplicateHeader("x-amz-content-sha256".to_owned()));
    }
    if headers.count("x-amz-security-token") > 1 {
        return Err(AuthError::DuplicateHeader("x-amz-security-token".to_owned()));
    }
    Ok(())
}

/// A header value with white space trimmed at its ends and reduced to single spaces inside.
pub open spec fn normalized(value: Seq<char>) -> Seq<char> {
    join(words(value), " "@)
}

/// Normalizes the white space of a header value.
pub fn normalize_header_value(value: &str) -> (text: String)
    ensures
        text@ == normalized(value@),
{
    joined(&split_words(value), " ")
}

/// Whether every value can be read as text.
pub open spec fn all_text(found: Seq<Seq<u8>>) -> bool {
    forall|i: int| 0 <= i < found.len() ==> field_text(#[trigger] found[i]) is Some
}

/// The normalized values of a header, joined by commas.
pub open spec fn joined_values(found: Seq<Seq<u8>>) -> Seq<char> {
    join(found.map_values(|v: Seq<u8>| normalized(field_text(v)->0)), ","@)
}

/// The value of a signed header in a canonical request.
pub open spec fn signed_value(
    headers: Seq<(Seq<char>, Seq<u8>)>,
    name: Seq<char>,
) -> Result<Seq<char>, AuthErrorView> {
    let found = values(headers, name);
    if found.len() == 0 {
        Err(AuthErrorView::MissingSignedHeader(name))
    } else if !all_text(found) {
        Err(AuthErrorView::InvalidHeaderValue(name))
    } else {
        Ok(joined_values(found))
    }
}

fn signed_header_value(headers: &HeaderMap, name: &str) -> (result: Result<String, AuthError>)
    ensures
        result_view(result) == signed_value(headers@, name@),
{
    let found = headers.get_all(name);
    let ghost all = values(headers@, name@);
    assert(found@.map_values(|v: Vec<u8>| v@) == all);
    assert(found@.len() == all.len());
    if found.len() == 0 {
        return Err(AuthError::MissingSignedHeader(name.to_owned()));
    }
    let ghost rendered = all.map_values(|v: Seq<u8>| normalized(field_text(v)->0));
    let mut parts: Vec<String> = Vec::new();
    let mut i: usize = 0;
    while i < found.len()
        invariant
            i <= found@.len(),
            found@.map_values(|v: Vec<u8>| v@) == all,
            all == values(headers@, name@),
            found@.len() == all.len(),
            found@.len() > 0,
            rendered == all.map_values(|v: Seq<u8>| normalized(field_text(v)->0)),
            forall|j: int| 0 <= j < i ==> field_text(#[trigger] all[j]) is Some,
            texts(parts@) == rendered.take(i as int),
        decreases found.len() - i,
    {
        assert(all[i as int] == found@[i as int]@);
        match value_text(&found[i]) {
            Some(text) => {
                let part = normalize_header_value(text.as_str());
                assert(texts(parts@.push(part)) =~= texts(parts@).push(part@));
                assert(rendered.take(i + 1) =~= rendered.take(i as int).push(part@));
                parts.push(part);
            },
            None => {
                assert(!all_text(all)) by {
                    assert(field_text(all[i as int]) is None);
                }
                return Err(AuthError::InvalidHeaderValue(name.to_owned()));
            },
        }
        i += 1;
    }
    assert(rendered.take(i as int) =~= rendered);
    Ok(joined(&parts, ","))
}

/// The error of the first signed header, from position `i` on, that cannot be written.
pub open spec fn signed_values_error(
    headers: Seq<(Seq<char>, Seq<u8>)>,
    signed: Seq<Seq<char>>,
    i: int,
) -> Option<AuthErrorView>
    decreases signed.len() - i,
{
    if i < 0 || i >= signed.len() {
        None
    } else {
        match signed_value(headers, signed[i]) {
            Err(error) => Some(error),
            Ok(_) => signed_values_error(headers, signed, i + 1),
        }
    }
}

/// The lines of headers in a canonical request.
pub open spec fn header_lines(
    headers: Seq<(Seq<char>, Seq<u8>)>,
    names: Seq<Seq<char>>,
) -> Seq<char>
    decreases names.len(),
{
    if names.len() == 0 {
        Seq::empty()
    } else {
        header_lines(headers, names.drop_last()) + (names.last() + ":"@ + signed_value(
            headers,
            names.last(),
        )->Ok_0 + "\n"@)
    }
}

/// The headers of a canonical request: the signed ones in ascending order, each once.
pub open spec fn canonical_header_text(
    headers: Seq<(Seq<char>, Seq<u8>)>,
    signed: Seq<Seq<char>>,
) -> Result<Seq<char>, AuthErrorView> {
    match signed_values_error(headers, signed, 0) {
        Some(error) => Err(error),
        None => Ok(header_lines(headers, sorted_texts(signed))),
    }
}

proof fn lemma_signed_values(
    headers: Seq<(Seq<char>, Seq<u8>)>,
    signed: Seq<Seq<char>>,
    from: int,
)
    requires
        0 <= from,
        signed_values_error(headers, signed, from) is None,
    ensures
        forall|i: int| from <= i < signed.len() ==> signed_value(headers, #[trigger] signed[i]) is Ok,
    decreases signed.len() - from,
{
    if from < signed.len() {
        lemma_signed_values(headers, signed, from + 1);
    }
}

/// Writes the headers of a canonical request.
pub fn canonical_headers(headers: &HeaderMap, signed: &Vec<String>) -> (result: Result<
    String,
    AuthError,
>)
    ensures
        result_view(result) == canonical_header_text(headers@, texts(signed@)),
{
    let ghost all = texts(signed@);
    let mut i: usize = 0;
    while i < signed.len()
        invariant
            i <= signed@.len(),
            all == texts(signed@),
            signed_values_error(headers@, all, 0) == signed_values_error(headers@, all, i as int),
        decreases signed.len() - i,
    {
        assert(all[i as int] == signed@[i as int]@);
        match signed_header_value(headers, signed[i].as_str()) {
            Ok(_) => {},
            Err(error) => {
                return Err(error);
            },
        }
        i += 1;
    }
    let names = TextSet::from_list(signed);
    proof {
        lemma_sorted_texts(all, names@);
        lemma_signed_values(headers@, all, 0);
    }
    let mut text = String::new();
    let mut j: usize = 0;
    assert(names@.take(0) =~= Seq::<Seq<char>>::empty());
    while j < names.len()
        invariant
            j <= names@.len(),
            all == texts(signed@),
            names@.to_set() == all.to_set(),
            forall|k: int| 0 <= k < all.len() ==> signed_value(headers@, #[trigger] all[k]) is Ok,
            text@ == header_lines(headers@, names@.take(j as int)),
        decreases names@.len() - j,
    {
        let name = names.get(j);
        proof {
            assert(names@.take(j + 1).drop_last() =~= names@.take(j as int));
            assert(names@.take(j + 1).last() == name@);
            assert(names@.to_set().contains(name@));
            assert(all.contains(name@));
        }
        match signed_header_value(headers, name) {
            Ok(value) => {
                let mut line = name.to_owned();
                line.append(":");
                line.append(value.as_str());
                line.append("\n");
                text.append(line.as_str());
            },
            Err(error) => {
                assert(false);
                return Err(error);
            },
        }
        j += 1;
    }
    assert(names@.take(j as int) =~= names@);
    Ok(text)
}

// ---------------------------------------------------------------------------------------------
// Canonical requests
// ---------------------------------------------------------------------------------------------
/// Where the payload hash of a canonical request comes from.
#[derive(Clone, Copy, Debug, PartialEq, Eq, Structural)]
pub enum PayloadHashSource {
    /// The `x-amz-content-sha256` header.
    Header,
    /// The literal `UNSIGNED-PAYLOAD`.
    UnsignedPayload,
}

/// The payload hash of a canonical request.
pub open spec fn request_payload_hash(
    headers: Seq<(Seq<char>, Seq<u8>)>,
    source: PayloadHashSource,
) -> Result<Seq<char>, AuthErrorView> {
    match source {
        PayloadHashSource::UnsignedPayload => Ok("UNSIGNED-PAYLOAD"@),
        PayloadHashSource::Header => match payload_mode(headers) {
            Err(_) => Err(AuthErrorView::InvalidPayloadHashMode),
            Ok(mode) => match payload_hash_value(mode) {
                Some(value) => Ok(value),
                None => Err(AuthErrorView::MissingSignedHeader("x-amz-content-sha256"@)),
            },
        },
    }
}

fn request_payload_hash_text(headers: &HeaderMap, source: PayloadHashSource) -> (result: Result<
    String,
    AuthError,
>)
    ensures
        result_view(result) == request_payload_hash(headers@, source),
{
    match source {
        PayloadHashSource::UnsignedPayload => Ok("UNSIGNED-PAYLOAD".to_owned()),
        PayloadHashSource::Header => match payload_hash_mode(headers) {
            Err(_) => Err(AuthError::InvalidPayloadHashMode),
            Ok(mode) => match mode.canonical_value() {
                Some(value) => Ok(value.to_owned()),
                None => Err(AuthError::MissingSignedHeader("x-amz-content-sha256".to_owned())),
            },
        },
    }
}

/// The error of signed headers that do not fit a request: the list itself, an unsigned `x-amz-`
/// header, or a repeated header.
pub open spec fn signing_error(
    headers: Seq<(Seq<char>, Seq<u8>)>,
    names: Seq<Seq<char>>,
) -> Option<AuthErrorView> {
    match signed_headers_error(names) {
        Some(error) => Some(error),
        None => match unsigned_amz_error(headers, names, 0) {
            Some(error) => Some(error),
            None => repeated_auth_header(headers),
        },
    }
}

/// The canonical form of a request, which signatures are computed over.
pub open spec fn canonical_request_text(
    method: Seq<char>,
    uri: UriView,
    headers: Seq<(Seq<char>, Seq<u8>)>,
    signed_headers: Seq<char>,
    query_mode: CanonicalQueryMode,
    source: PayloadHashSource,
) -> Result<Seq<char>, AuthErrorView> {
    let names = split(signed_headers, ';');
    match canonical_query_text(sent_query(uri.query), query_mode) {
        Err(error) => Err(error),
        Ok(query) => match signing_error(headers, names) {
            Some(error) => Err(error),
            None => match canonical_header_text(headers, names) {
                Err(error) => Err(error),
                Ok(header_text) => match request_payload_hash(headers, source) {
                    Err(error) => Err(error),
                    Ok(payload) => Ok(
                        method + "\n"@ + canonical_path(uri.path) + "\n"@ + query + "\n"@
                            + header_text + "\n"@ + signed_headers + "\n"@ + payload,
                    ),
                },
            },
        },
    }
}

/// Writes the canonical form of a request.
pub fn canonical_request(
    method: &Method,
    uri: &RequestUri,
    headers: &HeaderMap,
    signed_headers: &str,
    query_mode: CanonicalQueryMode,
    payload_hash_source: PayloadHashSource,
) -> (result: Result<String, AuthError>)
    ensures
        result_view(result) == canonical_request_text(
            method_text(*method),
            uri@,
            headers@,
            signed_headers@,
            query_mode,
            payload_hash_source,
        ),
{
    let query = match &uri.query {
        Some(query) => canonical_query(query.as_str(), query_mode),
        None => {
            proof {
                reveal_strlit("");
                assert(""@ =~= Seq::<char>::empty());
            }
            canonical_query("", query_mode)
        },
    };
    let query = match query {
        Ok(query) => query,
        Err(error) => {
            return Err(error);
        },
    };
    let names = split_all(signed_headers, ';');
    match validate_signed_headers(&names) {
        Ok(()) => {},
        Err(error) => {
            return Err(error);
        },
    }
    match validate_amz_headers_are_signed(headers, &names) {
        Ok(()) => {},
        Err(error) => {
            return Err(error);
        },
    }
    match validate_singleton_auth_headers(headers) {
        Ok(()) => {},
        Err(error) => {
            return Err(error);
        },
    }
    let header_text = match canonical_headers(headers, &names) {
        Ok(text) => text,
        Err(error) => {
            return Err(error);
        },
    };
    let payload = match request_payload_hash_text(headers, payload_hash_source) {
        Ok(payload) => payload,
        Err(error) => {
            return Err(error);
        },
    };
    let mut text = method.as_str().to_owned();
    text.append("\n");
    text.append(canonical_uri(uri.path.as_str()).as_str());
    text.append("\n");
    text.append(query.as_str());
    text.append("\n");
    text.append(header_text.as_str());
    text.append("\n");
    text.append(signed_headers);
    text.append("\n");
    text.append(payload.as_str());
    Ok(text)
}

// ---------------------------------------------------------------------------------------------
// Signatures
// ---------------------------------------------------------------------------------------------
/// The SigV4 signing key of a secret for a date and a region.
pub open spec fn signing_key_of(secret: Seq<char>, date: Seq<char>, region: Seq<char>) -> Seq<u8> {
    let dated = hmac_sha256_tag(encode_utf8("AWS4"@ + secret), encode_utf8(date));
    let regional = hmac_sha256_tag(dated, encode_utf8(region));
    let service = hmac_sha256_tag(regional, encode_utf8("s3"@));
    hmac_sha256_tag(service, encode_utf8("aws4_request"@))
}

/// Derives the SigV4 signing key of a secret for a date and a region.
pub fn signing_key(secret_key: &str, date: &str, region: &str) -> (key: Vec<u8>)
    ensures
        key@ == signing_key_of(secret_key@, date@, region@),
        key@.len() == 32,
{
    let seed = "AWS4".to_owned().concat(secret_key);
    let dated = hmac_sha256(seed.as_str().as_bytes(), date.as_bytes());
    let regional = hmac_sha256(dated.as_slice(), region.as_bytes());
    let service = hmac_sha256(regional.as_slice(), "s3".as_bytes());
    hmac_sha256(service.as_slice(), "aws4_request".as_bytes())
}

/// The credential scope that signatures name.
pub open spec fn scope_text(date: Seq<char>, region: Seq<char>) -> Seq<char> {
    date + "/"@ + region + "/s3/aws4_request"@
}

/// The text that the signature of a request is computed over.
pub open spec fn string_to_sign(
    amz_date: Seq<char>,
    date: Seq<char>,
    region: Seq<char>,
    canonical: Seq<char>,
) -> Seq<char> {
    "AWS4-HMAC-SHA256\n"@ + amz_date + "\n"@ + scope_text(date, region) + "\n"@ + hex_text(
        sha256_digest(encode_utf8(canonical)),
    )
}

/// The signature of a canonical request.
pub open spec fn request_signature(
    key: Seq<u8>,
    amz_date: Seq<char>,
    date: Seq<char>,
    region: Seq<char>,
    canonical: Seq<char>,
) -> Seq<char> {
    hex_text(hmac_sha256_tag(key, encode_utf8(string_to_sign(amz_date, date, region, canonical))))
}

fn credential_scope_text(date: &str, region: &str) -> (text: String)
    ensures
        text@ == scope_text(date@, region@),
{
    let mut text = date.to_owned();
    text.append("/");
    text.append(region);
    text.append("/s3/aws4_request");
    text
}

fn sign_request(key: &Vec<u8>, amz_date: &str, date: &str, region: &str, canonical: &str) -> (text:
    String)
    ensures
        text@ == request_signature(key@, amz_date@, date@, region@, canonical@),
{
    let hash = hex_encode(sha256(canonical.as_bytes()).as_slice());
    let mut text = "AWS4-HMAC-SHA256\n".to_owned();
    text.append(amz_date);
    text.append("\n");
    text.append(credential_scope_text(date, region).as_str());
    text.append("\n");
    text.append(hash.as_str());
    hex_encode(hmac_sha256(key.as_slice(), text.as_str().as_bytes()).as_slice())
}

/// Whether two texts are equal, compared in constant time.
pub fn constant_time_eq(left: &str, right: &str) -> (result: bool)
    ensures
        result == (left@ == right@),
{
    let result = constant_time_same(left.as_bytes(), right.as_bytes());
    proof {
        vstd::utf8::encode_utf8_decode_utf8(left@);
        vstd::utf8::encode_utf8_decode_utf8(right@);
    }
    result
}

/// Checks that a signature is a lowercase 64-character hexadecimal text.
pub fn validate_signature(value: &str) -> (result: Result<(), AuthError>)
    ensures
        auth_failure(result) == (if is_sha256_hex(value@) {
            None
        } else {
            Some(AuthErrorView::InvalidSignature)
        }),
{
    if is_lowercase_sha256_hex(value) {
        Ok(())
    } else {
        Err(AuthError::InvalidSignature)
    }
}

// ---------------------------------------------------------------------------------------------
// Authorization headers
// ---------------------------------------------------------------------------------------------
/// The fields of the comma-separated parts of an authorization header.
pub open spec fn authorization_fields(parts: Seq<Seq<char>>) -> Result<
    Map<Seq<char>, Seq<char>>,
    AuthErrorView,
>
    decreases parts.len(),
{
    if parts.len() == 0 {
        Ok(Map::empty())
    } else {
        match authorization_fields(parts.drop_last()) {
            Err(error) => Err(error),
            Ok(fields) => match split_once(trim(parts.last()), '=') {
                None => Err(AuthErrorView::MalformedAuthorization),
                Some((name, value)) => if fields.dom().contains(name) {
                    Err(AuthErrorView::DuplicateAuthorizationField(name))
                } else {
                    Ok(fields.insert(name, value))
                },
            },
        }
    }
}

proof fn lemma_authorization_fields_fail(parts: Seq<Seq<char>>, n: int)
    requires
        0 <= n <= parts.len(),
        authorization_fields(parts.take(n)) is Err,
    ensures
        authorization_fields(parts) == authorization_fields(parts.take(n)),
    decreases parts.len() - n,
{
    if n < parts.len() {
        assert(parts.take(n + 1).drop_last() =~= parts.take(n));
        lemma_authorization_fields_fail(parts, n + 1);
    } else {
        assert(parts.take(n) =~= parts);
    }
}

/// The parts of an authorization header that authentication reads.
#[derive(Debug, PartialEq, Eq)]
pub struct ParsedAuthorization {
    /// The credential with its scope.
    pub credential: String,
    /// The names of the signed headers.
    pub signed_headers: String,
    /// The signature.
    pub signature: String,
}

/// A [`ParsedAuthorization`] as a mathematical value.
pub struct AuthorizationView {
    pub credential: Seq<char>,
    pub signed_headers: Seq<char>,
    pub signature: Seq<char>,
}

impl View for ParsedAuthorization {
    type V = AuthorizationView;

    open spec fn view(&self) -> AuthorizationView {
        AuthorizationView {
            credential: self.credential@,
            signed_headers: self.signed_headers@,
            signature: self.signature@,
        }
    }
}

/// The value of an authorization field that must be there.
pub open spec fn authorization_field(
    fields: Map<Seq<char>, Seq<char>>,
    name: Seq<char>,
) -> Result<Seq<char>, AuthErrorView> {
    if fields.dom().contains(name) {
        Ok(fields[name])
    } else {
        Err(AuthErrorView::MissingAuthorizationField(name))
    }
}

/// What an authorization header says.
pub open spec fn parse_authorization(value: Seq<char>) -> Result<AuthorizationView, AuthErrorView> {
    match strip_prefix(value, "AWS4-HMAC-SHA256 "@) {
        None => Err(AuthErrorView::UnsupportedAlgorithm),
        Some(rest) => match authorization_fields(split(rest, ',')) {
            Err(error) => Err(error),
            Ok(fields) => match authorization_field(fields, "Signature"@) {
                Err(error) => Err(error),
                Ok(signature) => if !is_sha256_hex(signature) {
                    Err(AuthErrorView::InvalidSignature)
                } else {
                    match authorization_field(fields, "Credential"@) {
                        Err(error) => Err(error),
                        Ok(credential) => match authorization_field(fields, "SignedHeaders"@) {
                            Err(error) => Err(error),
                            Ok(signed_headers) => Ok(
                                AuthorizationView { credential, signed_headers, signature },
                            ),
                        },
                    }
                },
            },
        },
    }
}

/// Reads an authorization field that must be there.
pub fn required_field(fields: &TextMap, name: &'static str) -> (result: Result<String, AuthError>)
    ensures
        result_view(result) == authorization_field(mapping(fields@), name@),
{
    match fields.get(name) {
        Some(value) => Ok(value.to_owned()),
        None => Err(AuthError::MissingAuthorizationField(name)),
    }
}

fn read_authorization_fields(rest: &str) -> (result: Result<TextMap, AuthError>)
    ensures
        match result {
            Ok(fields) => authorization_fields(split(rest@, ',')) == Ok::<_, AuthErrorView>(
                mapping(fields@),
            ),
            Err(error) => authorization_fields(split(rest@, ',')) == Err::<
                Map<Seq<char>, Seq<char>>,
                _,
            >(error@),
        },
{
    let parts = split_all(rest, ',');
    let ghost all = split(rest@, ',');
    let mut fields = TextMap::new();
    let mut i: usize = 0;
    assert(all.take(0) =~= Seq::<Seq<char>>::empty());
    while i < parts.len()
        invariant
            i <= parts@.len(),
            all == split(rest@, ','),
            texts(parts@) == all,
            authorization_fields(all.take(i as int)) == Ok::<_, AuthErrorView>(mapping(fields@)),
        decreases parts.len() - i,
    {
        proof {
            assert(all.take(i + 1).drop_last() =~= all.take(i as int));
            assert(all.take(i + 1).last() == parts@[i as int]@);
            if authorization_fields(all.take(i + 1)) is Err {
                lemma_authorization_fields_fail(all, i + 1);
            }
        }
        let part = trimmed(parts[i].as_str());
        match split_at_first(part.as_str(), '=') {
            None => {
                return Err(AuthError::MalformedAuthorization);
            },
            Some((name, value)) => {
                if fields.contains_key(name.as_str()) {
                    return Err(AuthError::DuplicateAuthorizationField(name));
                }
                fields.insert_new(name.as_str(), value.as_str());
            },
        }
        i += 1;
    }
    assert(all.take(i as int) =~= all);
    Ok(fields)
}

impl ParsedAuthorization {
    /// Parses an authorization header.
    pub fn parse(value: &str) -> (result: Result<Self, AuthError>)
        ensures
            result_view(result) == parse_authorization(value@),
    {
        let rest = match without_prefix(value, "AWS4-HMAC-SHA256 ") {
            Some(rest) => rest,
            None => {
                return Err(AuthError::UnsupportedAlgorithm);
            },
        };
        let fields = match read_authorization_fields(rest.as_str()) {
            Ok(fields) => fields,
            Err(error) => {
                return Err(error);
            },
        };
        let signature = match required_field(&fields, "Signature") {
            Ok(signature) => signature,
            Err(error) => {
                return Err(error);
            },
        };
        match validate_signature(signature.as_str()) {
            Ok(()) => {},
            Err(error) => {
                return Err(error);
            },
        }
        let credential = match required_field(&fields, "Credential") {
            Ok(credential) => credential,
            Err(error) => {
                return Err(error);
            },
        };
        let signed_headers = match required_field(&fields, "SignedHeaders") {
            Ok(names) => names,
            Err(error) => {
                return Err(error);
            },
        };
        Ok(ParsedAuthorization { credential, signed_headers, signature })
    }
}

/// A credential with the scope of its signature.
#[derive(Debug, PartialEq, Eq)]
pub struct CredentialScope {
    /// Access key ID.
    pub access_key_id: String,
    /// Date of the signing key, as eight digits.
    pub date: String,
    /// Region of the signing key.
    pub region: String,
    /// Service of the signing key.
    pub service: String,
    /// Terminator of the scope.
    pub terminal: String,
}

/// A [`CredentialScope`] as a mathematical value.
pub struct ScopeView {
    pub access_key_id: Seq<char>,
    pub date: Seq<char>,
    pub region: Seq<char>,
    pub service: Seq<char>,
    pub terminal: Seq<char>,
}

impl View for CredentialScope {
    type V = ScopeView;

    open spec fn view(&self) -> ScopeView {
        ScopeView {
            access_key_id: self.access_key_id@,
            date: self.date@,
            region: self.region@,
            service: self.service@,
            terminal: self.terminal@,
        }
    }
}

/// Whether a text consists of eight digits.
pub open spec fn is_scope_date(date: Seq<char>) -> bool {
    date.len() == 8 && forall|i: int| 0 <= i < date.len() ==> is_digit(#[trigger] date[i])
}

/// The scope that a credential text writes as five parts between slashes.
pub open spec fn parse_scope(value: Seq<char>) -> Option<ScopeView> {
    let parts = split(value, '/');
    if parts.len() == 5 && parts[0].len() > 0 && is_scope_date(parts[1]) && parts[2].len() > 0
        && parts[3].len() > 0 && parts[4].len() > 0 {
        Some(
            ScopeView {
                access_key_id: parts[0],
                date: parts[1],
                region: parts[2],
                service: parts[3],
                terminal: parts[4],
            },
        )
    } else {
        None
    }
}

fn is_date(text: &str) -> (result: bool)
    ensures
        result == is_scope_date(text@),
{
    let chars = chars_of(text);
    if chars.len() != 8 {
        return false;
    }
    let mut i: usize = 0;
    while i < chars.len()
        invariant
            i <= chars@.len(),
            chars@ == text@,
            forall|j: int| 0 <= j < i ==> is_digit(#[trigger] text@[j]),
        decreases chars.len() - i,
    {
        if !(chars[i] >= '0' && chars[i] <= '9') {
            assert(!is_digit(text@[i as int]));
            return false;
        }
        i += 1;
    }
    true
}

impl CredentialScope {
    /// Parses a credential with its scope.
    pub fn parse(value: &str) -> (result: Result<Self, AuthError>)
        ensures
            match result {
                Ok(scope) => parse_scope(value@) == Some(scope@),
                Err(error) => parse_scope(value@) is None && error@
                    == AuthErrorView::InvalidCredentialScope,
            },
    {
        let parts = split_all(value, '/');
        let ghost all = split(value@, '/');
        assert(all == texts(parts@));
        if parts.len() != 5 {
            return Err(AuthError::InvalidCredentialScope);
        }
        assert(all[0] == parts@[0]@ && all[1] == parts@[1]@ && all[2] == parts@[2]@ && all[3]
            == parts@[3]@ && all[4] == parts@[4]@);
        if parts[0].as_str().is_empty() || parts[2].as_str().is_empty()
            || parts[3].as_str().is_empty() || parts[4].as_str().is_empty() || !is_date(
            parts[1].as_str(),
        ) {
            return Err(AuthError::InvalidCredentialScope);
        }
        Ok(
            CredentialScope {
                access_key_id: parts[0].clone(),
                date: parts[1].clone(),
                region: parts[2].clone(),
                service: parts[3].clone(),
                terminal: parts[4].clone(),
            },
        )
    }
}

// ---------------------------------------------------------------------------------------------
// Checks of single fields
// ---------------------------------------------------------------------------------------------
/// The text of a header that must be there.
pub open spec fn header_text(
    headers: Seq<(Seq<char>, Seq<u8>)>,
    name: Seq<char>,
) -> Result<Seq<char>, AuthErrorView> {
    match first_text(headers, name) {
        None => Err(AuthErrorView::MissingSignedHeader(name)),
        Some(None) => Err(AuthErrorView::InvalidHeaderValue(name)),
        Some(Some(text)) => Ok(text),
    }
}

/// Reads a header that must be there.
pub fn header_str(headers: &HeaderMap, name: &str) -> (result: Result<String, AuthError>)
    ensures
        result_view(result) == header_text(headers@, name@),
{
    match headers.get_text(name) {
        None => Err(AuthError::MissingSignedHeader(name.to_owned())),
        Some(None) => Err(AuthError::InvalidHeaderValue(name.to_owned())),
        Some(Some(text)) => Ok(text),
    }
}

/// The error of a request that does not carry the session token of its credential.
pub open spec fn token_error(
    expected: Option<Seq<char>>,
    actual: Result<Seq<char>, AuthErrorView>,
) -> Option<AuthErrorView> {
    match expected {
        None => None,
        Some(token) => match actual {
            Err(error) => Some(error),
            Ok(text) => if text == token {
                None
            } else {
                Some(AuthErrorView::InvalidSessionToken)
            },
        },
    }
}

/// Checks the session token header of a request.
pub fn validate_header_session_token(expected: Option<&str>, headers: &HeaderMap) -> (result: Result<
    (),
    AuthError,
>)
    ensures
        auth_failure(result) == token_error(
            opt_str(expected),
            header_text(headers@, "x-amz-security-token"@),
        ),
{
    match expected {
        None => Ok(()),
        Some(expected) => match header_str(headers, "x-amz-security-token") {
            Err(error) => Err(error),
            Ok(actual) => {
                if same(actual.as_str(), expected) {
                    Ok(())
                } else {
                    Err(AuthError::InvalidSessionToken)
                }
            },
        },
    }
}

/// Checks the session token of a presigned URL.
pub fn validate_presigned_session_token(expected: Option<&str>, query: &TextMap) -> (result: Result<
    (),
    AuthError,
>)
    ensures
        auth_failure(result) == token_error(
            opt_str(expected),
            required_value(mapping(query@), "X-Amz-Security-Token"@),
        ),
{
    match expected {
        None => Ok(()),
        Some(expected) => match required_query(query, "X-Amz-Security-Token") {
            Err(error) => Err(error),
            Ok(actual) => {
                if same(actual.as_str(), expected) {
                    Ok(())
                } else {
                    Err(AuthError::InvalidSessionToken)
                }
            },
        },
    }
}

/// The point in time that an `x-amz-date` text writes.
pub open spec fn amz_time(text: Seq<char>) -> Result<(int, int), AuthErrorView> {
    match naive_time(text, "%Y%m%dT%H%M%SZ"@) {
        Some(time) => Ok(time),
        None => Err(AuthErrorView::InvalidTimestamp),
    }
}

/// Reads an `x-amz-date` text.
pub fn parse_amz_date(value: &str) -> (result: Result<Instant, AuthError>)
    ensures
        result_view(result) == amz_time(value@),
{
    match parse_naive_time(value, "%Y%m%dT%H%M%SZ") {
        Some(time) => Ok(time),
        None => Err(AuthError::InvalidTimestamp),
    }
}

/// The time between two points in time, whichever comes first.
pub open spec fn skew_nanos(a: (int, int), b: (int, int)) -> int {
    if is_after(a, b) {
        nanos_between(a, b)
    } else {
        nanos_between(b, a)
    }
}

/// The error of a request whose date is no time or too far from `now`.
pub open spec fn timestamp_error(amz_date: Seq<char>, max_skew: int, now: (int, int)) -> Option<
    AuthErrorView,
> {
    match amz_time(amz_date) {
        Err(error) => Some(error),
        Ok(time) => if skew_nanos(time, now) > max_skew * 1_000_000_000 {
            Some(AuthErrorView::RequestTimeTooSkewed)
        } else {
            None
        },
    }
}

/// Checks the date of a request against the time.
pub fn validate_timestamp(amz_date: &str, max_skew_seconds: i64, now: Instant) -> (result: Result<
    (),
    AuthError,
>)
    ensures
        auth_failure(result) == timestamp_error(amz_date@, max_skew_seconds as int, now@),
{
    match parse_amz_date(amz_date) {
        Err(error) => Err(error),
        Ok(time) => {
            let skew: i128 = if time.is_later_than(now) {
                time.nanos_since(now)
            } else {
                now.nanos_since(time)
            };
            if skew > max_skew_seconds as i128 * NANOS_PER_SECOND {
                Err(AuthError::RequestTimeTooSkewed)
            } else {
                Ok(())
            }
        },
    }
}

/// The error of a presigned URL that is not valid yet or not valid any more.
pub open spec fn expiry_error(
    time: (int, int),
    expires: int,
    max_skew: int,
    now: (int, int),
) -> Option<AuthErrorView> {
    if is_after(time, plus_seconds(now, max_skew)) {
        Some(AuthErrorView::RequestTimeTooSkewed)
    } else if is_after(now, plus_seconds(time, expires)) {
        Some(AuthErrorView::ExpiredPresignedUrl)
    } else {
        None
    }
}

/// Checks the validity of a presigned URL against the time.
pub fn validate_presigned_expiry(
    request_time: Instant,
    expires: u32,
    max_skew_seconds: i64,
    now: Instant,
) -> (result: Result<(), AuthError>)
    requires
        max_skew_seconds >= 0,
    ensures
        auth_failure(result) == expiry_error(
            request_time@,
            expires as int,
            max_skew_seconds as int,
            now@,
        ),
{
    if request_time.is_later_than_plus(now, max_skew_seconds) {
        return Err(AuthError::RequestTimeTooSkewed);
    }
    if now.is_later_than_plus(request_time, expires as i64) {
        return Err(AuthError::ExpiredPresignedUrl);
    }
    Ok(())
}

/// The longest validity of a presigned URL in seconds: one week.
pub const MAX_EXPIRES_SECONDS: u32 = 604_800;

/// The validity in seconds that a text writes.
pub open spec fn parse_expires(text: Seq<char>) -> Result<nat, AuthErrorView> {
    match parse_unsigned(text, 10, u32::MAX as nat) {
        Some(n) => if 1 <= n <= MAX_EXPIRES_SECONDS {
            Ok(n)
        } else {
            Err(AuthErrorView::InvalidExpires)
        },
        None => Err(AuthErrorView::InvalidExpires),
    }
}

fn read_expires(text: &str) -> (result: Result<u32, AuthError>)
    ensures
        match result {
            Ok(n) => parse_expires(text@) == Ok::<_, AuthErrorView>(n as nat),
            Err(error) => parse_expires(text@) == Err::<nat, _>(error@),
        },
{
    match parse_number(text, 10, u32::MAX as u64) {
        Some(n) => {
            if n >= 1 && n <= MAX_EXPIRES_SECONDS as u64 {
                Ok(n as u32)
            } else {
                Err(AuthError::InvalidExpires)
            }
        },
        None => Err(AuthError::InvalidExpires),
    }
}

/// The credential that a scope names, where it may sign: it is known and active, and the scope is
/// that of this service in the configured region.
pub open spec fn signing_credential(state: AuthStateView, scope: ScopeView) -> Result<
    CredentialView,
    AuthErrorView,
> {
    match find_credential(state.credentials, scope.access_key_id) {
        None => Err(AuthErrorView::UnknownAccessKey),
        Some(credential) => if !credential.active {
            Err(AuthErrorView::InactiveAccessKey)
        } else if scope.region != state.region {
            Err(AuthErrorView::RegionMismatch)
        } else if scope.service != "s3"@ || scope.terminal != "aws4_request"@ {
            Err(AuthErrorView::InvalidCredentialScope)
        } else {
            Ok(credential)
        },
    }
}

fn find_signing_credential<'a>(config: &'a AuthState, scope: &CredentialScope) -> (result: Result<
    ConfiguredAccessKey<'a>,
    AuthError,
>)
    ensures
        result_view(result) == signing_credential(config@, scope@),
{
    match config.credential(scope.access_key_id.as_str()) {
        None => Err(AuthError::UnknownAccessKey),
        Some(access_key) => {
            if !access_key.active {
                return Err(AuthError::InactiveAccessKey);
            }
            if !same(scope.region.as_str(), config.region()) {
                return Err(AuthError::RegionMismatch);
            }
            if !same(scope.service.as_str(), "s3") || !same(
                scope.terminal.as_str(),
                "aws4_request",
            ) {
                return Err(AuthError::InvalidCredentialScope);
            }
            Ok(access_key)
        },
    }
}

// ---------------------------------------------------------------------------------------------
// Authentication
// ---------------------------------------------------------------------------------------------
/// SigV4 streaming signing state derived from the request signature.
#[derive(Debug, PartialEq, Eq)]
pub struct StreamingSigningContext {
    /// Derived SigV4 signing key for chunk and trailer signatures.
    pub signing_key: Vec<u8>,
    /// Seed signature from the Authorization header.
    pub seed_signature: String,
    /// Request timestamp from `x-amz-date`.
    pub amz_date: String,
    /// Credential scope in `date/region/s3/aws4_request` form.
    pub credential_scope: String,
}

/// A [`StreamingSigningContext`] as a mathematical value.
#[verifier::ext_equal]
pub struct StreamingView {
    pub signing_key: Seq<u8>,
    pub seed_signature: Seq<char>,
    pub amz_date: Seq<char>,
    pub credential_scope: Seq<char>,
}

impl View for StreamingSigningContext {
    type V = StreamingView;

    open spec fn view(&self) -> StreamingView {
        StreamingView {
            signing_key: self.signing_key@,
            seed_signature: self.seed_signature@,
            amz_date: self.amz_date@,
            credential_scope: self.credential_scope@,
        }
    }
}

/// Authentication mode selected for a request.
#[derive(Clone, Copy, Debug, PartialEq, Eq, Structural)]
pub enum AuthMode {
    /// `Authorization: AWS4-HMAC-SHA256 ...` header authentication.
    HeaderSigV4,
    /// Query-string SigV4 presigned URL authentication.
    PresignedUrl,
    /// Anonymous access allowed by configuration.
    Anonymous,
    /// Application-defined custom authentication.
    Custom,
}

/// Authentication result for a request.
#[derive(Debug, PartialEq, Eq)]
pub struct AuthContext {
    /// Authentication mode used for the request.
    pub mode: AuthMode,
    /// Authenticated principal.
    pub principal: RequestPrincipal,
    /// Access key ID for signed requests, or `None` for anonymous requests.
    pub access_key_id: Option<AccessKeyId>,
    /// Streaming signing data for signed aws-chunked uploads.
    pub streaming_signing: Option<StreamingSigningContext>,
}

/// An [`AuthContext`] as a mathematical value.
#[verifier::ext_equal]
pub struct AuthContextView {
    pub mode: AuthMode,
    pub principal: PrincipalView,
    pub access_key_id: Option<Seq<char>>,
    pub streaming_signing: Option<StreamingView>,
}

impl View for AuthContext {
    type V = AuthContextView;

    open spec fn view(&self) -> AuthContextView {
        AuthContextView {
            mode: self.mode,
            principal: self.principal@,
            access_key_id: match self.access_key_id {
                Some(id) => Some(id@),
                None => None,
            },
            streaming_signing: match self.streaming_signing {
                Some(context) => Some(context@),
                None => None,
            },
        }
    }
}

/// A request authenticated by its authorization header.
pub struct HeaderAuth {
    /// Access key ID of the signature.
    pub access_key_id: AccessKeyId,
    /// What chunk signatures continue from.
    pub streaming_signing: StreamingSigningContext,
}

/// A [`HeaderAuth`] as a mathematical value.
pub struct HeaderAuthView {
    pub access_key_id: Seq<char>,
    pub streaming_signing: StreamingView,
}

impl View for HeaderAuth {
    type V = HeaderAuthView;

    open spec fn view(&self) -> HeaderAuthView {
        HeaderAuthView {
            access_key_id: self.access_key_id@,
            streaming_signing: self.streaming_signing@,
        }
    }
}

/// The error of a request whose date is missing, does not begin with the date of the credential
/// scope, is too far from `now`, or whose session token is wrong.
pub open spec fn header_date_error(
    state: AuthStateView,
    headers: Seq<(Seq<char>, Seq<u8>)>,
    scope: ScopeView,
    credential: CredentialView,
    now: (int, int),
) -> Option<AuthErrorView> {
    match header_text(headers, "x-amz-date"@) {
        Err(error) => Some(error),
        Ok(amz_date) => if !starts_with(amz_date, scope.date) {
            Some(AuthErrorView::CredentialDateMismatch)
        } else {
            match timestamp_error(amz_date, state.max_skew_seconds as int, now) {
                Some(error) => Some(error),
                None => token_error(
                    credential.session_token,
                    header_text(headers, "x-amz-security-token"@),
                ),
            }
        },
    }
}

/// What a signature in an authorization header is authenticated as.
pub open spec fn header_auth(
    state: AuthStateView,
    method: Seq<char>,
    uri: UriView,
    headers: Seq<(Seq<char>, Seq<u8>)>,
    authorization: Seq<char>,
    now: (int, int),
) -> Result<HeaderAuthView, AuthErrorView> {
    match parse_authorization(authorization) {
        Err(error) => Err(error),
        Ok(parsed) => match parse_scope(parsed.credential) {
            None => Err(AuthErrorView::InvalidCredentialScope),
            Some(scope) => match signing_credential(state, scope) {
                Err(error) => Err(error),
                Ok(credential) => match header_date_error(state, headers, scope, credential, now) {
                    Some(error) => Err(error),
                    None => {
                        let amz_date = header_text(headers, "x-amz-date"@)->Ok_0;
                        match canonical_request_text(
                            method,
                            uri,
                            headers,
                            parsed.signed_headers,
                            CanonicalQueryMode::IncludeAll,
                            PayloadHashSource::Header,
                        ) {
                            Err(error) => Err(error),
                            Ok(canonical) => {
                                let key = signing_key_of(
                                    credential.secret_key,
                                    scope.date,
                                    scope.region,
                                );
                                if parsed.signature == request_signature(
                                    key,
                                    amz_date,
                                    scope.date,
                                    scope.region,
                                    canonical,
                                ) {
                                    Ok(
                                        HeaderAuthView {
                                            access_key_id: credential.access_key_id,
                                            streaming_signing: StreamingView {
                                                signing_key: key,
                                                seed_signature: parsed.signature,
                                                amz_date,
                                                credential_scope: scope_text(
                                                    scope.date,
                                                    scope.region,
                                                ),
                                            },
                                        },
                                    )
                                } else {
                                    Err(AuthErrorView::SignatureMismatch)
                                }
                            },
                        }
                    },
                },
            },
        },
    }
}

/// Authenticates a request by the signature in its authorization header.
pub fn verify_header_auth(
    config: &AuthState,
    method: &Method,
    uri: &RequestUri,
    headers: &HeaderMap,
    authorization: &str,
    now: Instant,
) -> (result: Result<HeaderAuth, AuthError>)
    ensures
        result_view(result) == header_auth(
            config@,
            method_text(*method),
            uri@,
            headers@,
            authorization@,
            now@,
        ),
{
    let parsed = match ParsedAuthorization::parse(authorization) {
        Ok(parsed) => parsed,
        Err(error) => {
            return Err(error);
        },
    };
    let scope = match CredentialScope::parse(parsed.credential.as_str()) {
        Ok(scope) => scope,
        Err(error) => {
            return Err(error);
        },
    };
    let access_key = match find_signing_credential(config, &scope) {
        Ok(access_key) => access_key,
        Err(error) => {
            return Err(error);
        },
    };
    let amz_date = match header_str(headers, "x-amz-date") {
        Ok(amz_date) => amz_date,
        Err(error) => {
            return Err(error);
        },
    };
    if !has_prefix(amz_date.as_str(), scope.date.as_str()) {
        return Err(AuthError::CredentialDateMismatch);
    }
    match validate_timestamp(amz_date.as_str(), config.max_skew_seconds(), now) {
        Ok(()) => {},
        Err(error) => {
            return Err(error);
        },
    }
    match validate_header_session_token(access_key.session_token, headers) {
        Ok(()) => {},
        Err(error) => {
            return Err(error);
        },
    }
    let canonical = match canonical_request(
        method,
        uri,
        headers,
        parsed.signed_headers.as_str(),
        CanonicalQueryMode::IncludeAll,
        PayloadHashSource::Header,
    ) {
        Ok(canonical) => canonical,
        Err(error) => {
            return Err(error);
        },
    };
    let key = signing_key(
        access_key.secret_key.as_str(),
        scope.date.as_str(),
        scope.region.as_str(),
    );
    let expected = sign_request(
        &key,
        amz_date.as_str(),
        scope.date.as_str(),
        scope.region.as_str(),
        canonical.as_str(),
    );
    if constant_time_eq(expected.as_str(), parsed.signature.as_str()) {
        let credential_scope = credential_scope_text(scope.date.as_str(), scope.region.as_str());
        Ok(
            HeaderAuth {
                access_key_id: access_key.access_key_id,
                streaming_signing: StreamingSigningContext {
                    signing_key: key,
                    seed_signature: parsed.signature,
                    amz_date,
                    credential_scope,
                },
            },
        )
    } else {
        Err(AuthError::SignatureMismatch)
    }
}

/// The scope and the credential of a presigned URL.
pub open spec fn presigned_credential(
    state: AuthStateView,
    fields: Map<Seq<char>, Seq<char>>,
) -> Result<(ScopeView, CredentialView), AuthErrorView> {
    match required_value(fields, "X-Amz-Algorithm"@) {
        Err(error) => Err(error),
        Ok(algorithm) => if algorithm != "AWS4-HMAC-SHA256"@ {
            Err(AuthErrorView::UnsupportedAlgorithm)
        } else {
            match required_value(fields, "X-Amz-Credential"@) {
                Err(error) => Err(error),
                Ok(text) => match parse_scope(text) {
                    None => Err(AuthErrorView::InvalidCredentialScope),
                    Some(scope) => match signing_credential(state, scope) {
                        Err(error) => Err(error),
                        Ok(credential) => Ok((scope, credential)),
                    },
                },
            }
        },
    }
}

/// The error of a presigned URL with a wrong date, session token or validity.
pub open spec fn presigned_time_error(
    state: AuthStateView,
    fields: Map<Seq<char>, Seq<char>>,
    scope: ScopeView,
    credential: CredentialView,
    now: (int, int),
) -> Option<AuthErrorView> {
    match required_value(fields, "X-Amz-Date"@) {
        Err(error) => Some(error),
        Ok(amz_date) => if !starts_with(amz_date, scope.date) {
            Some(AuthErrorView::CredentialDateMismatch)
        } else {
            match amz_time(amz_date) {
                Err(error) => Some(error),
                Ok(time) => match token_error(
                    credential.session_token,
                    required_value(fields, "X-Amz-Security-Token"@),
                ) {
                    Some(error) => Some(error),
                    None => match required_value(fields, "X-Amz-Expires"@) {
                        Err(error) => Some(error),
                        Ok(text) => match parse_expires(text) {
                            Err(error) => Some(error),
                            Ok(expires) => expiry_error(
                                time,
                                expires as int,
                                state.max_skew_seconds as int,
                                now,
                            ),
                        },
                    },
                },
            }
        },
    }
}

/// The signed headers and the signature of a presigned URL.
pub open spec fn presigned_signature(fields: Map<Seq<char>, Seq<char>>) -> Result<
    (Seq<char>, Seq<char>),
    AuthErrorView,
> {
    match required_value(fields, "X-Amz-SignedHeaders"@) {
        Err(error) => Err(error),
        Ok(signed_headers) => match required_value(fields, "X-Amz-Signature"@) {
            Err(error) => Err(error),
            Ok(signature) => if is_sha256_hex(signature) {
                Ok((signed_headers, signature))
            } else {
                Err(AuthErrorView::InvalidSignature)
            },
        },
    }
}

/// The access key ID that a presigned URL is authenticated as.
pub open spec fn presigned_auth(
    state: AuthStateView,
    method: Seq<char>,
    uri: UriView,
    headers: Seq<(Seq<char>, Seq<u8>)>,
    now: (int, int),
) -> Result<Seq<char>, AuthErrorView> {
    match uri.query {
        None => Err(AuthErrorView::MissingPresignedField("X-Amz-Algorithm"@)),
        Some(query) => match fields_of(split(query, '&')) {
            Err(error) => Err(error),
            Ok(fields) => match presigned_credential(state, fields) {
                Err(error) => Err(error),
                Ok((scope, credential)) => match presigned_time_error(
                    state,
                    fields,
                    scope,
                    credential,
                    now,
                ) {
                    Some(error) => Err(error),
                    None => match presigned_signature(fields) {
                        Err(error) => Err(error),
                        Ok((signed_headers, signature)) => match canonical_request_text(
                            method,
                            uri,
                            headers,
                            signed_headers,
                            CanonicalQueryMode::ExcludePresignedSignature,
                            PayloadHashSource::UnsignedPayload,
                        ) {
                            Err(error) => Err(error),
                            Ok(canonical) => if signature == request_signature(
                                signing_key_of(credential.secret_key, scope.date, scope.region),
                                fields["X-Amz-Date"@],
                                scope.date,
                                scope.region,
                                canonical,
                            ) {
                                Ok(credential.access_key_id)
                            } else {
                                Err(AuthErrorView::SignatureMismatch)
                            },
                        },
                    },
                },
            },
        },
    }
}

fn find_presigned_credential<'a>(config: &'a AuthState, query: &TextMap) -> (result: Result<
    (CredentialScope, ConfiguredAccessKey<'a>),
    AuthError,
>)
    ensures
        result_view(result) == presigned_credential(config@, mapping(query@)),
{
    let algorithm = match required_query(query, "X-Amz-Algorithm") {
        Ok(algorithm) => algorithm,
        Err(error) => {
            return Err(error);
        },
    };
    if !same(algorithm.as_str(), "AWS4-HMAC-SHA256") {
        return Err(AuthError::UnsupportedAlgorithm);
    }
    let credential = match required_query(query, "X-Amz-Credential") {
        Ok(credential) => credential,
        Err(error) => {
            return Err(error);
        },
    };
    let scope = match CredentialScope::parse(credential.as_str()) {
        Ok(scope) => scope,
        Err(error) => {
            return Err(error);
        },
    };
    match find_signing_credential(config, &scope) {
        Ok(access_key) => Ok((scope, access_key)),
        Err(error) => Err(error),
    }
}

fn validate_presigned_time(
    config: &AuthState,
    query: &TextMap,
    scope: &CredentialScope,
    access_key: &ConfiguredAccessKey<'_>,
    now: Instant,
) -> (result: Result<(), AuthError>)
    ensures
        auth_failure(result) == presigned_time_error(
            config@,
            mapping(query@),
            scope@,
            access_key@,
            now@,
        ),
{
    let amz_date = match required_query(query, "X-Amz-Date") {
        Ok(amz_date) => amz_date,
        Err(error) => {
            return Err(error);
        },
    };
    if !has_prefix(amz_date.as_str(), scope.date.as_str()) {
        return Err(AuthError::CredentialDateMismatch);
    }
    let request_time = match parse_amz_date(amz_date.as_str()) {
        Ok(time) => time,
        Err(error) => {
            return Err(error);
        },
    };
    match validate_presigned_session_token(access_key.session_token, query) {
        Ok(()) => {},
        Err(error) => {
            return Err(error);
        },
    }
    let text = match required_query(query, "X-Amz-Expires") {
        Ok(text) => text,
        Err(error) => {
            return Err(error);
        },
    };
    let expires: u32 = match read_expires(text.as_str()) {
        Ok(expires) => expires,
        Err(error) => {
            return Err(error);
        },
    };
    validate_presigned_expiry(request_time, expires, config.max_skew_seconds(), now)
}

/// Authenticates a request by the signature in its presigned URL.
pub fn verify_presigned_url(
    config: &AuthState,
    method: &Method,
    uri: &RequestUri,
    headers: &HeaderMap,
    now: Instant,
) -> (result: Result<AccessKeyId, AuthError>)
    ensures
        result_view(result) == presigned_auth(
            config@,
            method_text(*method),
            uri@,
            headers@,
            now@,
        ),
{
    let query = match &uri.query {
        Some(query) => match query_fields(query.as_str()) {
            Ok(fields) => fields,
            Err(error) => {
                return Err(error);
            },
        },
        None => {
            return Err(AuthError::MissingPresignedField("X-Amz-Algorithm"));
        },
    };
    let (scope, access_key) = match find_presigned_credential(config, &query) {
        Ok(found) => found,
        Err(error) => {
            return Err(error);
        },
    };
    match validate_presigned_time(config, &query, &scope, &access_key, now) {
        Ok(()) => {},
        Err(error) => {
            return Err(error);
        },
    }
    let signed_headers = match required_query(&query, "X-Amz-SignedHeaders") {
        Ok(names) => names,
        Err(error) => {
            return Err(error);
        },
    };
    let signature = match required_query(&query, "X-Amz-Signature") {
        Ok(signature) => signature,
        Err(error) => {
            return Err(error);
        },
    };
    match validate_signature(signature.as_str()) {
        Ok(()) => {},
        Err(error) => {
            return Err(error);
        },
    }
    let canonical = match canonical_request(
        method,
        uri,
        headers,
        signed_headers.as_str(),
        CanonicalQueryMode::ExcludePresignedSignature,
        PayloadHashSource::UnsignedPayload,
    ) {
        Ok(canonical) => canonical,
        Err(error) => {
            return Err(error);
        },
    };
    let amz_date = match required_query(&query, "X-Amz-Date") {
        Ok(amz_date) => amz_date,
        Err(error) => {
            return Err(error);
        },
    };
    let key = signing_key(
        access_key.secret_key.as_str(),
        scope.date.as_str(),
        scope.region.as_str(),
    );
    let expected = sign_request(
        &key,
        amz_date.as_str(),
        scope.date.as_str(),
        scope.region.as_str(),
        canonical.as_str(),
    );
    if constant_time_eq(expected.as_str(), signature.as_str()) {
        Ok(access_key.access_key_id)
    } else {
        Err(AuthError::SignatureMismatch)
    }
}

/// What a request is authenticated as at the time `now`.
pub open spec fn authentication(
    state: AuthStateView,
    method: Seq<char>,
    uri: UriView,
    headers: Seq<(Seq<char>, Seq<u8>)>,
    now: (int, int),
) -> Result<AuthContextView, ErrorView> {
    let found = values(headers, "authorization"@);
    if found.len() > 1 {
        Err(access_denied("Authorization header must not appear more than once"@))
    } else if found.len() == 1 {
        match field_text(found[0]) {
            None => Err(access_denied("invalid Authorization header"@)),
            Some(authorization) => match header_auth(
                state,
                method,
                uri,
                headers,
                authorization,
                now,
            ) {
                Err(error) => Err(auth_error_response(error)),
                Ok(auth) => Ok(
                    AuthContextView {
                        mode: AuthMode::HeaderSigV4,
                        principal: PrincipalView::AccessKey { access_key_id: auth.access_key_id },
                        access_key_id: Some(auth.access_key_id),
                        streaming_signing: Some(auth.streaming_signing),
                    },
                ),
            },
        }
    } else if uri.query is Some && is_presigned(uri.query->0) {
        match presigned_auth(state, method, uri, headers, now) {
            Err(error) => Err(auth_error_response(error)),
            Ok(id) => Ok(
                AuthContextView {
                    mode: AuthMode::PresignedUrl,
                    principal: PrincipalView::AccessKey { access_key_id: id },
                    access_key_id: Some(id),
                    streaming_signing: None,
                },
            ),
        }
    } else if state.allow_anonymous {
        Ok(
            AuthContextView {
                mode: AuthMode::Anonymous,
                principal: PrincipalView::Anonymous,
                access_key_id: None,
                streaming_signing: None,
            },
        )
    } else {
        Err(access_denied("Access Denied"@))
    }
}

/// Authenticates a request at a known time.
pub fn authenticate_at(
    config: &AuthState,
    method: &Method,
    uri: &RequestUri,
    headers: &HeaderMap,
    now: Instant,
) -> (result: Result<AuthContext, S3Error>)
    ensures
        result_view(result) == authentication(
            config@,
            method_text(*method),
            uri@,
            headers@,
            now@,
        ),
{
    let found = headers.get_all("authorization");
    let ghost all = found@.map_values(|v: Vec<u8>| v@);
    assert(all.len() == found@.len());
    if found.len() > 1 {
        return Err(S3Error::access_denied("Authorization header must not appear more than once"));
    }
    if found.len() == 1 {
        assert(all[0] == found@[0]@);
        let authorization = match value_text(&found[0]) {
            Some(text) => text,
            None => {
                return Err(S3Error::access_denied("invalid Authorization header"));
            },
        };
        return match verify_header_auth(config, method, uri, headers, authorization.as_str(), now) {
            Err(error) => Err(map_auth_error(error)),
            Ok(auth) => Ok(
                AuthContext {
                    mode: AuthMode::HeaderSigV4,
                    principal: RequestPrincipal::AccessKey {
                        access_key_id: auth.access_key_id.clone(),
                    },
                    access_key_id: Some(auth.access_key_id),
                    streaming_signing: Some(auth.streaming_signing),
                },
            ),
        };
    }
    let presigned = match &uri.query {
        Some(query) => is_presigned_query(query.as_str()),
        None => false,
    };
    if presigned {
        return match verify_presigned_url(config, method, uri, headers, now) {
            Err(error) => Err(map_auth_error(error)),
            Ok(id) => Ok(
                AuthContext {
                    mode: AuthMode::PresignedUrl,
                    principal: RequestPrincipal::AccessKey { access_key_id: id.clone() },
                    access_key_id: Some(id),
                    streaming_signing: None,
                },
            ),
        };
    }
    if config.allow_anonymous() {
        return Ok(
            AuthContext {
                mode: AuthMode::Anonymous,
                principal: RequestPrincipal::Anonymous,
                access_key_id: None,
                streaming_signing: None,
            },
        );
    }
    Err(S3Error::access_denied("Access Denied"))
}

/// Authenticates a request using SigV4 header auth, SigV4 presigned URL auth, or explicitly enabled
/// anonymous access.
///
/// The result identifies the authentication mode, the access key and the streaming signing state
/// needed by aws-chunked body verification. Signatures are checked against the clock: the result is
/// the one of [`authenticate_at`] for the time at which the clock was read.
pub fn authenticate(
    config: &AuthState,
    method: &Method,
    uri: &RequestUri,
    headers: &HeaderMap,
) -> (result: Result<AuthContext, S3Error>)
    ensures
        exists|now: Instant|
            result_view(result) == authentication(
                config@,
                method_text(*method),
                uri@,
                headers@,
                #[trigger] now@,
            ),
{
    let now = Instant::now();
    authenticate_at(config, method, uri, headers, now)
}

/// Whether anonymous requests may reach a bucket: anonymous access is enabled, and the bucket
/// allow-list is empty or names the bucket.
pub open spec fn anonymous_permitted(state: AuthStateView, bucket: Seq<char>) -> bool {
    state.allow_anonymous && (state.anonymous_allowed_buckets.len() == 0
        || state.anonymous_allowed_buckets.contains(bucket))
}

/// Whether a signed request may perform an action on a bucket: its credential is configured and
/// active, and the credential's allow-lists permit the access.
pub open spec fn signer_permitted(
    state: AuthStateView,
    id: Seq<char>,
    bucket: Seq<char>,
    action: S3Action,
) -> bool {
    match find_credential(state.credentials, id) {
        Some(credential) => credential.active && credential_permits(
            state.credentials,
            id,
            bucket,
            action,
        ),
        None => false,
    }
}

/// The error of an authenticated request that may not perform an action on a bucket.
pub open spec fn authorization_error(
    state: AuthStateView,
    auth: AuthContextView,
    bucket: Seq<char>,
    action: S3Action,
) -> Option<ErrorView> {
    if auth.mode == AuthMode::Custom {
        None
    } else if auth.mode == AuthMode::Anonymous {
        if anonymous_permitted(state, bucket) {
            None
        } else {
            Some(
                access_denied("Anonymous access is not authorized for bucket "@ + bucket),
            )
        }
    } else {
        match auth.access_key_id {
            None => Some(access_denied("Access Denied"@)),
            Some(id) => if signer_permitted(state, id, bucket, action) {
                None
            } else {
                Some(
                    access_denied(
                        "Access key is not authorized for "@ + action_name(action) + " on bucket "@
                            + bucket,
                    ),
                )
            },
        }
    }
}

/// Authorizes an authenticated request for a bucket/action pair.
///
/// Anonymous requests are accepted only when anonymous access is enabled and the configured bucket
/// allow-list permits the bucket. Signed requests must use an active credential whose bucket and
/// action allow-lists permit the requested operation. Requests authenticated by the application are
/// left to its own policy.
pub fn authorize(
    config: &AuthState,
    auth: &AuthContext,
    bucket: &BucketName,
    action: S3Action,
) -> (result: Result<(), S3Error>)
    ensures
        crate::body::payload::failure(result) == authorization_error(
            config@,
            auth@,
            bucket@,
            action,
        ),
{
    if auth.mode == AuthMode::Custom {
        return Ok(());
    }
    if auth.mode == AuthMode::Anonymous {
        if config.allow_anonymous() && config.permits_anonymous_bucket(bucket) {
            return Ok(());
        }
        let message = "Anonymous access is not authorized for bucket ".to_owned().concat(
            bucket.as_str(),
        );
        return Err(S3Error::access_denied(message.as_str()));
    }
    match &auth.access_key_id {
        None => Err(S3Error::access_denied("Access Denied")),
        Some(id) => {
            let active = match config.credential(id.as_str()) {
                Some(credential) => credential.active,
                None => false,
            };
            if active && config.permits_credential(id.as_str(), bucket, action) {
                Ok(())
            } else {
                let message = "Access key is not authorized for ".to_owned().concat(
                    action.as_str(),
                ).concat(" on bucket ").concat(bucket.as_str());
                Err(S3Error::access_denied(message.as_str()))
            }
        },
    }
}

// ---------------------------------------------------------------------------------------------
// Laws
// ---------------------------------------------------------------------------------------------
/// A request with a signature is never let through as anonymous: whatever is authenticated with an
/// authorization header carries the access key of a known, active credential whose secret made the
/// signature, and a date within the allowed skew.
pub proof fn law_signed_requests_are_checked(
    state: AuthStateView,
    method: Seq<char>,
    uri: UriView,
    headers: Seq<(Seq<char>, Seq<u8>)>,
    now: (int, int),
)
    requires
        has_field(headers, "authorization"@),
        authentication(state, method, uri, headers, now) is Ok,
    ensures
        ({
            let context = authentication(state, method, uri, headers, now)->Ok_0;
            let authorization = field_text(values(headers, "authorization"@)[0])->0;
            let parsed = parse_authorization(authorization)->Ok_0;
            let scope = parse_scope(parsed.credential)->0;
            let credential = find_credential(state.credentials, scope.access_key_id)->0;
            let amz_date = header_text(headers, "x-amz-date"@)->Ok_0;
            let canonical = canonical_request_text(
                method,
                uri,
                headers,
                parsed.signed_headers,
                CanonicalQueryMode::IncludeAll,
                PayloadHashSource::Header,
            );
            &&& context.mode == AuthMode::HeaderSigV4
            &&& find_credential(state.credentials, scope.access_key_id) is Some
            &&& credential.active
            &&& context.access_key_id == Some(credential.access_key_id)
            &&& scope.region == state.region
            &&& skew_nanos(amz_time(amz_date)->Ok_0, now) <= state.max_skew_seconds * 1_000_000_000
            &&& canonical is Ok
            &&& parsed.signature == request_signature(
                signing_key_of(credential.secret_key, scope.date, scope.region),
                amz_date,
                scope.date,
                scope.region,
                canonical->Ok_0,
            )
        }),
{
}

/// A correctly signed request is let through: where the header names an active credential in its
/// scope, the date and the session token are in order, and the secret of the credential makes the
/// signature, the request is authenticated as the credential's access key.
pub proof fn law_correctly_signed_requests_are_accepted(
    state: AuthStateView,
    method: Seq<char>,
    uri: UriView,
    headers: Seq<(Seq<char>, Seq<u8>)>,
    authorization: Seq<char>,
    now: (int, int),
)
    requires
        values(headers, "authorization"@).len() == 1,
        field_text(values(headers, "authorization"@)[0]) == Some(authorization),
        ({
            let parsed = parse_authorization(authorization)->Ok_0;
            let scope = parse_scope(parsed.credential)->0;
            let credential = signing_credential(state, scope)->Ok_0;
            let canonical = canonical_request_text(
                method,
                uri,
                headers,
                parsed.signed_headers,
                CanonicalQueryMode::IncludeAll,
                PayloadHashSource::Header,
            );
            &&& parse_authorization(authorization) is Ok
            &&& parse_scope(parsed.credential) is Some
            &&& signing_credential(state, scope) is Ok
            &&& header_date_error(state, headers, scope, credential, now) is None
            &&& canonical is Ok
            &&& parsed.signature == request_signature(
                signing_key_of(credential.secret_key, scope.date, scope.region),
                header_text(headers, "x-amz-date"@)->Ok_0,
                scope.date,
                scope.region,
                canonical->Ok_0,
            )
        }),
    ensures
        ({
            let scope = parse_scope(parse_authorization(authorization)->Ok_0.credential)->0;
            let credential = signing_credential(state, scope)->Ok_0;
            let result = authentication(state, method, uri, headers, now);
            &&& result is Ok
            &&& result->Ok_0.mode == AuthMode::HeaderSigV4
            &&& result->Ok_0.access_key_id == Some(credential.access_key_id)
        }),
{
}

/// A payload hash is signed as it is sent: the last line of the canonical form of a request that is
/// signed in its header is the text of the one `x-amz-content-sha256` field, and that of a presigned
/// URL is `UNSIGNED-PAYLOAD`.
pub proof fn law_payload_hashes_are_signed_as_they_are_sent(
    method: Seq<char>,
    uri: UriView,
    headers: Seq<(Seq<char>, Seq<u8>)>,
    signed_headers: Seq<char>,
    mode: CanonicalQueryMode,
)
    ensures
        canonical_request_text(
            method,
            uri,
            headers,
            signed_headers,
            mode,
            PayloadHashSource::Header,
        ) matches Ok(canonical) ==> {
            let sent = values(headers, "x-amz-content-sha256"@);
            &&& sent.len() == 1
            &&& field_text(sent[0]) is Some
            &&& ends_with(canonical, seq!['\n'] + field_text(sent[0])->0)
        },
        canonical_request_text(
            method,
            uri,
            headers,
            signed_headers,
            mode,
            PayloadHashSource::UnsignedPayload,
        ) matches Ok(canonical) ==> ends_with(canonical, seq!['\n'] + "UNSIGNED-PAYLOAD"@),
{
    reveal_strlit("\n");
    let sent = values(headers, "x-amz-content-sha256"@);
    let signed = canonical_request_text(
        method,
        uri,
        headers,
        signed_headers,
        mode,
        PayloadHashSource::Header,
    );
    if signed is Ok {
        let text = field_text(sent[0])->0;
        crate::s3::types::law_payload_hash_mode_round_trip(Some(text));
        let canonical = signed->Ok_0;
        let end = seq!['\n'] + text;
        assert(canonical.skip(canonical.len() - end.len()) =~= end);
    }
    let unsigned = canonical_request_text(
        method,
        uri,
        headers,
        signed_headers,
        mode,
        PayloadHashSource::UnsignedPayload,
    );
    if unsigned is Ok {
        let canonical = unsigned->Ok_0;
        let end = seq!['\n'] + "UNSIGNED-PAYLOAD"@;
        assert(canonical.skip(canonical.len() - end.len()) =~= end);
    }
}

/// A presigned URL is authenticated only as a known, active credential whose secret made its
/// signature.
pub proof fn law_presigned_urls_are_checked(
    state: AuthStateView,
    method: Seq<char>,
    uri: UriView,
    headers: Seq<(Seq<char>, Seq<u8>)>,
    now: (int, int),
)
    requires
        presigned_auth(state, method, uri, headers, now) is Ok,
    ensures
        ({
            let fields = fields_of(split(uri.query->0, '&'))->Ok_0;
            let scope = parse_scope(fields["X-Amz-Credential"@])->0;
            let credential = find_credential(state.credentials, scope.access_key_id)->0;
            let canonical = canonical_request_text(
                method,
                uri,
                headers,
                fields["X-Amz-SignedHeaders"@],
                CanonicalQueryMode::ExcludePresignedSignature,
                PayloadHashSource::UnsignedPayload,
            );
            &&& find_credential(state.credentials, scope.access_key_id) is Some
            &&& credential.active
            &&& presigned_auth(state, method, uri, headers, now)->Ok_0 == credential.access_key_id
            &&& scope.region == state.region
            &&& canonical is Ok
            &&& fields["X-Amz-Signature"@] == request_signature(
                signing_key_of(credential.secret_key, scope.date, scope.region),
                fields["X-Amz-Date"@],
                scope.date,
                scope.region,
                canonical->Ok_0,
            )
        }),
{
}

/// Without a signature a request is let through only where anonymous access is enabled, and then as
/// anonymous.
pub proof fn law_unsigned_requests_are_anonymous(
    state: AuthStateView,
    method: Seq<char>,
    uri: UriView,
    headers: Seq<(Seq<char>, Seq<u8>)>,
    now: (int, int),
)
    requires
        !has_field(headers, "authorization"@),
        uri.query is None || !is_presigned(uri.query->0),
    ensures
        authentication(state, method, uri, headers, now) is Ok <==> state.allow_anonymous,
        state.allow_anonymous ==> authentication(state, method, uri, headers, now)->Ok_0.mode
            == AuthMode::Anonymous,
{
}

/// A presigned URL is authenticated only within its validity: not before its date less the allowed
/// skew, and not after its date plus its expiry, which is one week at most.
pub proof fn law_presigned_urls_expire(
    state: AuthStateView,
    method: Seq<char>,
    uri: UriView,
    headers: Seq<(Seq<char>, Seq<u8>)>,
    now: (int, int),
)
    requires
        presigned_auth(state, method, uri, headers, now) is Ok,
    ensures
        ({
            let fields = fields_of(split(uri.query->0, '&'))->Ok_0;
            let time = amz_time(fields["X-Amz-Date"@])->Ok_0;
            let expires = parse_expires(fields["X-Amz-Expires"@])->Ok_0;
            &&& 1 <= expires <= MAX_EXPIRES_SECONDS
            &&& !is_after(now, plus_seconds(time, expires as int))
            &&& !is_after(time, plus_seconds(now, state.max_skew_seconds as int))
        }),
{
}

/// A request whose date has passed stays refused: once a presigned URL has expired it does not
/// become valid again.
pub proof fn law_expired_urls_stay_expired(
    time: (int, int),
    expires: int,
    max_skew: int,
    now: (int, int),
    later: (int, int),
)
    requires
        max_skew >= 0,
        !is_after(now, later),
        expiry_error(time, expires, max_skew, now) == Some(AuthErrorView::ExpiredPresignedUrl),
    ensures
        expiry_error(time, expires, max_skew, later) is Some,
{
}

/// An encoded URI holds nothing but unreserved characters, escapes and preserved slashes.
pub proof fn law_encoded_uri_characters(bytes: Seq<u8>, preserve_slash: bool, i: int)
    requires
        0 <= i < uri_encoded(bytes, preserve_slash).len(),
    ensures
        ({
            let c = uri_encoded(bytes, preserve_slash)[i];
            (c < '\u{80}' && is_unreserved(c as u8)) || c == '%' || (c == '/' && preserve_slash)
        }),
    decreases bytes.len(),
{
    if bytes.len() > 0 {
        let head = uri_encoded(bytes.drop_last(), preserve_slash);
        let tail = encoded_byte(bytes.last(), preserve_slash);
        if i < head.len() {
            law_encoded_uri_characters(bytes.drop_last(), preserve_slash, i);
        } else {
            assert(uri_encoded(bytes, preserve_slash)[i] == tail[i - head.len()]);
        }
    }
}

/// What bytes are encoded as, from the first on.
pub proof fn lemma_uri_encoded_front(bytes: Seq<u8>, preserve_slash: bool)
    requires
        bytes.len() > 0,
    ensures
        uri_encoded(bytes, preserve_slash) == encoded_byte(bytes[0], preserve_slash) + uri_encoded(
            bytes.skip(1),
            preserve_slash,
        ),
    decreases bytes.len(),
{
    let first = encoded_byte(bytes[0], preserve_slash);
    if bytes.len() == 1 {
        assert(bytes.drop_last() =~= Seq::<u8>::empty());
        assert(bytes.skip(1) =~= Seq::<u8>::empty());
        assert(Seq::<char>::empty() + first =~= first + Seq::<char>::empty());
    } else {
        let shorter = bytes.drop_last();
        lemma_uri_encoded_front(shorter, preserve_slash);
        assert(shorter.skip(1) =~= bytes.skip(1).drop_last());
        let last = encoded_byte(bytes.last(), preserve_slash);
        let middle = uri_encoded(shorter.skip(1), preserve_slash);
        assert((first + middle) + last =~= first + (middle + last));
    }
}

proof fn lemma_encoded_byte(byte: u8, preserve_slash: bool)
    ensures
        ({
            let text = encoded_byte(byte, preserve_slash);
            ||| text == seq![byte as char] && byte != 0x25 && byte < 0x80
            ||| {
                &&& text.len() == 3
                &&& text[0] == '%'
                &&& text[1] < '\u{80}'
                &&& text[2] < '\u{80}'
                &&& digit_value(text[1]) == byte as nat / 16
                &&& digit_value(text[2]) == byte as nat % 16
            }
        }),
{
}

proof fn lemma_ascii_char(c: char)
    requires
        c < '\u{80}',
    ensures
        '\0' <= c <= '\u{7f}',
{
}

/// Decoding an encoded URI gives the bytes back that were encoded.
pub proof fn law_encoded_uris_are_decoded(bytes: Seq<u8>, preserve_slash: bool)
    ensures
        percent_decoded(encode_utf8(uri_encoded(bytes, preserve_slash))) == bytes,
    decreases bytes.len(),
{
    let text = uri_encoded(bytes, preserve_slash);
    let encoded = encode_utf8(text);
    assert forall|i: int| 0 <= i < text.len() implies '\0' <= #[trigger] text[i]
        <= '\u{7f}' by {
        law_encoded_uri_characters(bytes, preserve_slash, i);
        lemma_ascii_char(text[i]);
    }
    assert(is_ascii_chars(text));
    is_ascii_chars_encode_utf8(text);
    if bytes.len() == 0 {
        assert(bytes =~= Seq::<u8>::empty());
    } else {
        let first = encoded_byte(bytes[0], preserve_slash);
        let rest = uri_encoded(bytes.skip(1), preserve_slash);
        lemma_uri_encoded_front(bytes, preserve_slash);
        lemma_encoded_byte(bytes[0], preserve_slash);
        law_encoded_uris_are_decoded(bytes.skip(1), preserve_slash);
        assert forall|i: int| 0 <= i < rest.len() implies '\0' <= #[trigger] rest[i]
            <= '\u{7f}' by {
            law_encoded_uri_characters(bytes.skip(1), preserve_slash, i);
            lemma_ascii_char(rest[i]);
        }
        assert(is_ascii_chars(rest));
        is_ascii_chars_encode_utf8(rest);
        let n = first.len() as int;
        assert forall|i: int| 0 <= i < rest.len() implies encoded.skip(n)[i] == encode_utf8(
            rest,
        )[i] by {
            assert(text[n + i] == rest[i]);
        }
        assert(encoded.skip(n) =~= encode_utf8(rest));
        assert(text[0] == first[0]);
        if n == 3 {
            assert(text[1] == first[1]);
            assert(text[2] == first[2]);
            assert(encoded[1] as char == first[1]);
            assert(encoded[2] as char == first[2]);
            assert(is_escape(encoded));
        } else {
            assert(encoded[0] == bytes[0]);
            assert(!is_escape(encoded));
        }
        assert(seq![bytes[0]] + bytes.skip(1) =~= bytes);
    }
}

/// A signed request passes exactly where its credential is configured and active, its bucket
/// allow-list is empty or names the bucket, and its action allow-list is empty or names the action.
pub proof fn law_allow_lists_decide(
    state: AuthStateView,
    auth: AuthContextView,
    bucket: Seq<char>,
    action: S3Action,
)
    requires
        auth.mode == AuthMode::HeaderSigV4 || auth.mode == AuthMode::PresignedUrl,
        auth.access_key_id is Some,
    ensures
        authorization_error(state, auth, bucket, action) is None <==> {
            let found = find_credential(state.credentials, auth.access_key_id->0);
            &&& found is Some
            &&& found->0.active
            &&& found->0.allowed_buckets.len() == 0 || found->0.allowed_buckets.contains(bucket)
            &&& found->0.allowed_actions.len() == 0 || found->0.allowed_actions.contains(action)
        },
{
}

/// An anonymous request passes exactly where anonymous access is enabled and the bucket allow-list
/// is empty or names the bucket.
pub proof fn law_anonymous_access_is_opt_in(
    state: AuthStateView,
    auth: AuthContextView,
    bucket: Seq<char>,
    action: S3Action,
)
    requires
        auth.mode == AuthMode::Anonymous,
    ensures
        authorization_error(state, auth, bucket, action) is None <==> state.allow_anonymous && (
        state.anonymous_allowed_buckets.len() == 0 || state.anonymous_allowed_buckets.contains(
            bucket,
        )),
{
}

/// The parameter of a canonical query that a pair makes: nothing inside where it is left out, and
/// nothing where it cannot be decoded.
spec fn parameter_of(piece: Seq<char>, mode: CanonicalQueryMode) -> Option<
    Option<(Seq<char>, Seq<char>)>,
> {
    let raw = raw_pair(piece);
    match percent_decoded_text(raw.0) {
        None => None,
        Some(name) => if mode == CanonicalQueryMode::ExcludePresignedSignature && name
            == "X-Amz-Signature"@ {
            Some(None)
        } else {
            match percent_decoded_text(raw.1) {
                None => None,
                Some(value) => Some(
                    Some(
                        (
                            uri_encoded(encode_utf8(name), false),
                            uri_encoded(encode_utf8(value), false),
                        ),
                    ),
                ),
            }
        },
    }
}

proof fn lemma_parameters_without_one(
    pieces: Seq<Seq<char>>,
    mode: CanonicalQueryMode,
    i: int,
)
    requires
        0 <= i < pieces.len(),
    ensures
        ({
            let all = canonical_parameters(pieces, mode);
            let rest = canonical_parameters(pieces.remove(i), mode);
            match parameter_of(pieces[i], mode) {
                None => all is None,
                Some(None) => (all is Some <==> rest is Some) && (all is Some
                    ==> all->0.to_multiset() == rest->0.to_multiset()),
                Some(Some(p)) => (all is Some <==> rest is Some) && (all is Some
                    ==> all->0.to_multiset() == rest->0.to_multiset().insert(p)),
            }
        }),
    decreases pieces.len(),
{
    broadcast use vstd::seq_lib::group_to_multiset_ensures;

    let last = pieces.len() - 1;
    if i == last {
        assert(pieces.remove(i) =~= pieces.drop_last());
    } else {
        let shorter = pieces.drop_last();
        lemma_parameters_without_one(shorter, mode, i);
        assert(pieces.remove(i).drop_last() =~= shorter.remove(i));
        assert(pieces.remove(i).last() == pieces.last());
        assert(shorter[i] == pieces[i]);
        let all = canonical_parameters(pieces, mode);
        let rest = canonical_parameters(pieces.remove(i), mode);
        let fewer = canonical_parameters(shorter, mode);
        let fewest = canonical_parameters(shorter.remove(i), mode);
        if let Some(Some(q)) = parameter_of(pieces.last(), mode) {
            if fewer is Some {
                assert(all == Some(fewer->0.push(q)));
            }
            if fewest is Some {
                assert(rest == Some(fewest->0.push(q)));
            }
            if all is Some && rest is Some {
                assert(all->0.to_multiset() =~= fewer->0.to_multiset().insert(q));
                assert(rest->0.to_multiset() =~= fewest->0.to_multiset().insert(q));
                if let Some(Some(p)) = parameter_of(pieces[i], mode) {
                    assert(all->0.to_multiset() =~= rest->0.to_multiset().insert(p));
                }
            }
        }
    }
}

proof fn lemma_parameters_in_any_order(
    a: Seq<Seq<char>>,
    b: Seq<Seq<char>>,
    mode: CanonicalQueryMode,
)
    requires
        a.to_multiset() == b.to_multiset(),
    ensures
        canonical_parameters(a, mode) is Some <==> canonical_parameters(b, mode) is Some,
        canonical_parameters(a, mode) is Some ==> canonical_parameters(a, mode)->0.to_multiset()
            == canonical_parameters(b, mode)->0.to_multiset(),
    decreases a.len(),
{
    broadcast use vstd::seq_lib::group_to_multiset_ensures;

    assert(a.len() == a.to_multiset().len() == b.to_multiset().len() == b.len());
    if a.len() > 0 {
        let i = a.len() - 1;
        assert(a.contains(a[i]));
        assert(b.to_multiset().count(a[i]) > 0);
        assert(b.contains(a[i]));
        let j = choose|j: int| 0 <= j < b.len() && b[j] == a[i];
        assert(a.remove(i).to_multiset() =~= b.remove(j).to_multiset());
        lemma_parameters_in_any_order(a.remove(i), b.remove(j), mode);
        lemma_parameters_without_one(a, mode, i);
        lemma_parameters_without_one(b, mode, j);
    }
}

/// The order of the pairs of a query does not matter: two queries with the same pairs have the same
/// canonical form, or neither has one. The canonical form lists the encoded pairs in ascending
/// order of their names, and of their values where names are equal.
pub proof fn law_canonical_queries_do_not_depend_on_order(
    query: Seq<char>,
    other: Seq<char>,
    mode: CanonicalQueryMode,
)
    requires
        split(query, '&').to_multiset() == split(other, '&').to_multiset(),
    ensures
        canonical_query_text(query, mode) == canonical_query_text(other, mode),
        match canonical_parameters(split(query, '&'), mode) {
            None => true,
            Some(list) => sorted_by(
                sorted_parameters(list),
                |a: (Seq<char>, Seq<char>), b: (Seq<char>, Seq<char>)| parameter_le(a, b),
            ) && sorted_parameters(list).to_multiset() == list.to_multiset(),
        },
{
    broadcast use vstd::seq_lib::group_to_multiset_ensures;

    let leq = |a: (Seq<char>, Seq<char>), b: (Seq<char>, Seq<char>)| parameter_le(a, b);
    let pieces = split(query, '&');
    let others = split(other, '&');
    lemma_parameters_in_any_order(pieces, others, mode);
    lemma_parameter_order();
    if canonical_parameters(pieces, mode) is Some {
        let list = canonical_parameters(pieces, mode)->0;
        let other_list = canonical_parameters(others, mode)->0;
        list.lemma_sort_by_ensures(leq);
        other_list.lemma_sort_by_ensures(leq);
        vstd::seq_lib::lemma_sorted_unique(
            sorted_parameters(list),
            sorted_parameters(other_list),
            leq,
        );
    }
    if query.len() == 0 {
        lemma_empty_query(query, other);
    } else if other.len() == 0 {
        lemma_empty_query(other, query);
    }
}

proof fn lemma_empty_query(query: Seq<char>, other: Seq<char>)
    requires
        query.len() == 0,
        split(query, '&').to_multiset() == split(other, '&').to_multiset(),
    ensures
        other.len() == 0,
{
    broadcast use vstd::seq_lib::group_to_multiset_ensures;

    let pieces = split(query, '&');
    let others = split(other, '&');
    assert(pieces =~= seq![query]);
    assert(others.len() == others.to_multiset().len() == pieces.to_multiset().len());
    assert(pieces.to_multiset().len() == pieces.len());
    let i = first_index(other, '&');
    if 0 <= i < other.len() {
        let rest = split(other.skip(i + 1), '&');
        assert(rest.len() >= 1);
        assert(others.len() == 1 + rest.len());
    } else {
        assert(others =~= seq![other]);
        assert(others[0] == other);
        assert(others.contains(other));
        assert(pieces.to_multiset().count(other) > 0);
        assert(pieces.contains(other));
    }
}

} // verus!
