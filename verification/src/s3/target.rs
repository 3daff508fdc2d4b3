//! Bucket/key target resolution for path-style and virtual-hosted-style requests.
use crate::auth::{law_encoded_uri_characters, law_encoded_uris_are_decoded};
use crate::encoding::{percent_decode_text, percent_decoded_text};
use crate::s3::types::{
    domain_error_message, parse_bucket_name, parse_object_key, BucketName, DomainError, ObjectKey,
    S3Target, TargetView,
};
use crate::signed_requests::{escaped, lemma_escaped};
use crate::text::{
    char_digit, chars_of, digit_value, first_index, lemma_first_index, lemma_first_index_is, lower,
    lowercase, opt_str, opt_text, split_at_first, split_once, strip_prefix, strip_suffix, text_of,
    to_lowercase, without_prefix, without_suffix,
};
use vstd::prelude::*;
use vstd::utf8::{encode_utf8, encode_utf8_decode_utf8, encode_utf8_valid_utf8};

verus! {

/// Errors returned while resolving S3 bucket/key targets.
#[derive(Clone, Copy, Debug, PartialEq, Eq, Structural)]
pub enum TargetError {
    /// The request target did not include a bucket segment.
    MissingBucket,
    /// The request target did not include an object key where one is required.
    MissingKey,
    /// A percent-encoded path or host component was not valid UTF-8.
    InvalidPercentEncoding,
    /// A decoded bucket or key failed domain validation.
    InvalidDomain(DomainError),
}

/// The message of a [`TargetError`].
pub open spec fn target_error_message(error: TargetError) -> Seq<char> {
    match error {
        TargetError::MissingBucket => "request path must include bucket"@,
        TargetError::MissingKey => "request path must include bucket and key"@,
        TargetError::InvalidPercentEncoding => "path contains invalid percent-encoded UTF-8"@,
        TargetError::InvalidDomain(domain) => "invalid target: "@ + domain_error_message(domain),
    }
}

impl TargetError {
    /// The message shown to users.
    pub fn message(&self) -> (message: String)
        ensures
            message@ == target_error_message(*self),
    {
        match self {
            TargetError::MissingBucket => "request path must include bucket".to_owned(),
            TargetError::MissingKey => "request path must include bucket and key".to_owned(),
            TargetError::InvalidPercentEncoding => {
                "path contains invalid percent-encoded UTF-8".to_owned()
            },
            TargetError::InvalidDomain(domain) => {
                "invalid target: ".to_owned().concat(domain.message())
            },
        }
    }
}

/// `path` without a leading slash.
pub open spec fn relative_path(path: Seq<char>) -> Seq<char> {
    match strip_prefix(path, "/"@) {
        Some(rest) => rest,
        None => path,
    }
}

/// `host` without a port.
pub open spec fn without_port(host: Seq<char>) -> Seq<char> {
    match split_once(host, ':') {
        Some((name, _)) => name,
        None => host,
    }
}

/// The bucket that `host` names before `base_domain`. The case of ASCII letters is ignored in the
/// match and kept in the bucket; ports are ignored on both sides.
pub open spec fn host_bucket(host: Seq<char>, base_domain: Seq<char>) -> Option<Seq<char>> {
    let name = without_port(host);
    match strip_suffix(lowercase(name), "."@ + lowercase(without_port(base_domain))) {
        Some(bucket) => if bucket.len() > 0 {
            Some(name.take(bucket.len() as int))
        } else {
            None
        },
        None => None,
    }
}

/// The bucket of a request whose host names one, given the configured base domain.
pub open spec fn request_host_bucket(
    host: Option<Seq<char>>,
    base_domain: Option<Seq<char>>,
) -> Option<Seq<char>> {
    match (host, base_domain) {
        (Some(h), Some(b)) => host_bucket(h, b),
        _ => None,
    }
}

/// The bucket name that a percent-encoded segment stands for.
pub open spec fn decoded_bucket(segment: Seq<char>) -> Result<Seq<char>, TargetError> {
    match percent_decoded_text(segment) {
        Some(text) => match parse_bucket_name(text) {
            Ok(name) => Ok(name),
            Err(error) => Err(TargetError::InvalidDomain(error)),
        },
        None => Err(TargetError::InvalidPercentEncoding),
    }
}

/// Whether the character at `i` is no `%` or is followed by two hexadecimal digits.
pub open spec fn is_complete_at(s: Seq<char>, i: int) -> bool {
    s[i] == '%' ==> i + 2 < s.len() && digit_value(s[i + 1]) < 16 && digit_value(s[i + 2]) < 16
}

/// Whether every `%` of `s` is followed by two hexadecimal digits.
pub open spec fn is_well_escaped(s: Seq<char>) -> bool {
    forall|i: int| 0 <= i < s.len() ==> #[trigger] is_complete_at(s, i)
}

/// The bucket name that a percent-encoded segment stands for, where its percent-encoding is well
/// formed.
pub open spec fn named_bucket(segment: Seq<char>) -> Result<Seq<char>, TargetError> {
    if is_well_escaped(segment) {
        decoded_bucket(segment)
    } else {
        Err(TargetError::InvalidPercentEncoding)
    }
}

/// The object key that a percent-encoded path stands for.
pub open spec fn decoded_key(path: Seq<char>) -> Result<Seq<char>, TargetError> {
    match percent_decoded_text(path) {
        Some(text) => match parse_object_key(text) {
            Ok(key) => Ok(key),
            Err(error) => Err(TargetError::InvalidDomain(error)),
        },
        None => Err(TargetError::InvalidPercentEncoding),
    }
}

/// The target made of a percent-encoded bucket and a percent-encoded key.
pub open spec fn decoded_target(
    bucket: Seq<char>,
    key: Seq<char>,
    virtual_hosted: bool,
) -> Result<TargetView, TargetError> {
    match decoded_bucket(bucket) {
        Ok(b) => match decoded_key(key) {
            Ok(k) => Ok(TargetView { bucket: b, key: k, virtual_hosted }),
            Err(error) => Err(error),
        },
        Err(error) => Err(error),
    }
}

/// The bucket of a path-style request for a bucket: one segment, with or without a slash after it.
pub open spec fn path_style_bucket(path: Seq<char>) -> Result<Seq<char>, TargetError> {
    let rest = relative_path(path);
    if rest.len() == 0 {
        Err(TargetError::MissingBucket)
    } else {
        match split_once(rest, '/') {
            Some((bucket, tail)) => if tail.len() == 0 {
                named_bucket(bucket)
            } else {
                Err(TargetError::MissingKey)
            },
            None => named_bucket(rest),
        }
    }
}

/// The target of a path-style request for an object.
pub open spec fn path_style_target(path: Seq<char>) -> Result<TargetView, TargetError> {
    match split_once(relative_path(path), '/') {
        Some((bucket, key)) => decoded_target(bucket, key, false),
        None => Err(TargetError::MissingKey),
    }
}

/// The bucket of a request for a bucket.
pub open spec fn request_bucket(
    path: Seq<char>,
    host: Option<Seq<char>>,
    base_domain: Option<Seq<char>>,
) -> Result<Seq<char>, TargetError> {
    match request_host_bucket(host, base_domain) {
        Some(bucket) => if relative_path(path).len() > 0 {
            Err(TargetError::MissingKey)
        } else {
            named_bucket(bucket)
        },
        None => path_style_bucket(path),
    }
}

/// The target of a request for an object.
pub open spec fn request_target(
    path: Seq<char>,
    host: Option<Seq<char>>,
    base_domain: Option<Seq<char>>,
) -> Result<TargetView, TargetError> {
    match request_host_bucket(host, base_domain) {
        Some(bucket) => decoded_target(bucket, relative_path(path), true),
        None => path_style_target(path),
    }
}

fn strip_leading_slash(path: &str) -> (rest: String)
    ensures
        rest@ == relative_path(path@),
{
    match without_prefix(path, "/") {
        Some(rest) => rest,
        None => path.to_owned(),
    }
}

fn strip_port(host: &str) -> (name: String)
    ensures
        name@ == without_port(host@),
{
    match split_at_first(host, ':') {
        Some((name, _)) => name,
        None => host.to_owned(),
    }
}

fn decode_bucket(segment: &str) -> (result: Result<BucketName, TargetError>)
    ensures
        match result {
            Ok(bucket) => decoded_bucket(segment@) == Ok::<Seq<char>, TargetError>(bucket@),
            Err(error) => decoded_bucket(segment@) == Err::<Seq<char>, TargetError>(error),
        },
{
    match percent_decode_text(segment) {
        Some(text) => match BucketName::parse(text.as_str()) {
            Ok(bucket) => Ok(bucket),
            Err(error) => Err(TargetError::InvalidDomain(error)),
        },
        None => Err(TargetError::InvalidPercentEncoding),
    }
}

fn well_escaped(segment: &str) -> (result: bool)
    ensures
        result == is_well_escaped(segment@),
{
    let chars = chars_of(segment);
    let mut i: usize = 0;
    while i < chars.len()
        invariant
            i <= chars@.len(),
            chars@ == segment@,
            forall|j: int| 0 <= j < i ==> #[trigger] is_complete_at(segment@, j),
        decreases chars.len() - i,
    {
        if chars[i] == '%' {
            if chars.len() - i < 3 || char_digit(chars[i + 1]) >= 16 || char_digit(chars[i + 2])
                >= 16 {
                assert(!is_complete_at(segment@, i as int));
                return false;
            }
        }
        i += 1;
    }
    true
}

fn read_bucket(segment: &str) -> (result: Result<BucketName, TargetError>)
    ensures
        match result {
            Ok(bucket) => named_bucket(segment@) == Ok::<Seq<char>, TargetError>(bucket@),
            Err(error) => named_bucket(segment@) == Err::<Seq<char>, TargetError>(error),
        },
{
    if well_escaped(segment) {
        decode_bucket(segment)
    } else {
        Err(TargetError::InvalidPercentEncoding)
    }
}

fn decode_key(path: &str) -> (result: Result<ObjectKey, TargetError>)
    ensures
        match result {
            Ok(key) => decoded_key(path@) == Ok::<Seq<char>, TargetError>(key@),
            Err(error) => decoded_key(path@) == Err::<Seq<char>, TargetError>(error),
        },
{
    match percent_decode_text(path) {
        Some(text) => match ObjectKey::parse(text.as_str()) {
            Ok(key) => Ok(key),
            Err(error) => Err(TargetError::InvalidDomain(error)),
        },
        None => Err(TargetError::InvalidPercentEncoding),
    }
}

fn decode_target(bucket: &str, key: &str, virtual_hosted: bool) -> (result: Result<
    S3Target,
    TargetError,
>)
    ensures
        match result {
            Ok(target) => decoded_target(bucket@, key@, virtual_hosted) == Ok::<
                TargetView,
                TargetError,
            >(target@),
            Err(error) => decoded_target(bucket@, key@, virtual_hosted) == Err::<
                TargetView,
                TargetError,
            >(error),
        },
{
    let bucket = match decode_bucket(bucket) {
        Ok(bucket) => bucket,
        Err(error) => {
            return Err(error);
        },
    };
    match decode_key(key) {
        Ok(key) => Ok(S3Target { bucket, key, virtual_hosted }),
        Err(error) => Err(error),
    }
}

fn virtual_host_bucket(host: &str, base_domain: &str) -> (result: Option<String>)
    ensures
        opt_text(result) == host_bucket(host@, base_domain@),
{
    let name = strip_port(host);
    let base = strip_port(base_domain);
    let name_lower = to_lowercase(name.as_str());
    let suffix = ".".to_owned().concat(to_lowercase(base.as_str()).as_str());
    match without_suffix(name_lower.as_str(), suffix.as_str()) {
        Some(prefix) => {
            let length: usize = chars_of(prefix.as_str()).len();
            if length == 0 {
                return None;
            }
            let chars = chars_of(name.as_str());
            let bucket = text_of(&chars, 0, length);
            assert(bucket@ =~= name@.take(length as int));
            Some(bucket)
        },
        None => None,
    }
}

fn bucket_of_host(host: Option<&str>, base_domain: Option<&str>) -> (result: Option<String>)
    ensures
        opt_text(result) == request_host_bucket(opt_str(host), opt_str(base_domain)),
{
    match (host, base_domain) {
        (Some(host), Some(base_domain)) => virtual_host_bucket(host, base_domain),
        _ => None,
    }
}

/// Resolves a bucket name from a request path and optional virtual-hosted host.
///
/// For virtual-hosted requests, the bucket is extracted from the host prefix and the path must not
/// contain an object key. For path-style requests, the first path segment is parsed as the bucket.
/// Returns an error when the bucket is absent, invalid, or percent-encoding is malformed: where it
/// is no valid UTF-8, or where a `%` is not followed by two hexadecimal digits.
pub fn resolve_bucket_name(
    path: &str,
    host: Option<&str>,
    virtual_host_base_domain: Option<&str>,
) -> (result: Result<BucketName, TargetError>)
    ensures
        match result {
            Ok(bucket) => request_bucket(path@, opt_str(host), opt_str(virtual_host_base_domain))
                == Ok::<Seq<char>, TargetError>(bucket@),
            Err(error) => request_bucket(path@, opt_str(host), opt_str(virtual_host_base_domain))
                == Err::<Seq<char>, TargetError>(error),
        },
{
    match bucket_of_host(host, virtual_host_base_domain) {
        Some(bucket) => {
            let rest = strip_leading_slash(path);
            if !rest.as_str().is_empty() {
                return Err(TargetError::MissingKey);
            }
            read_bucket(bucket.as_str())
        },
        None => resolve_path_style_bucket(path),
    }
}

/// Resolves a full S3 bucket/key target from a request path and host.
///
/// Slash characters in object keys are preserved, and validation happens after percent-decoding;
/// signature canonicalization still uses the raw path of the request.
pub fn resolve_s3_target(
    path: &str,
    host: Option<&str>,
    virtual_host_base_domain: Option<&str>,
) -> (result: Result<S3Target, TargetError>)
    ensures
        match result {
            Ok(target) => request_target(path@, opt_str(host), opt_str(virtual_host_base_domain))
                == Ok::<TargetView, TargetError>(target@),
            Err(error) => request_target(path@, opt_str(host), opt_str(virtual_host_base_domain))
                == Err::<TargetView, TargetError>(error),
        },
{
    match bucket_of_host(host, virtual_host_base_domain) {
        Some(bucket) => {
            let key = strip_leading_slash(path);
            decode_target(bucket.as_str(), key.as_str(), true)
        },
        None => resolve_path_style(path),
    }
}

fn resolve_path_style_bucket(path: &str) -> (result: Result<BucketName, TargetError>)
    ensures
        match result {
            Ok(bucket) => path_style_bucket(path@) == Ok::<Seq<char>, TargetError>(bucket@),
            Err(error) => path_style_bucket(path@) == Err::<Seq<char>, TargetError>(error),
        },
{
    let rest = strip_leading_slash(path);
    if rest.as_str().is_empty() {
        return Err(TargetError::MissingBucket);
    }
    match split_at_first(rest.as_str(), '/') {
        Some((bucket, tail)) => {
            if tail.as_str().is_empty() {
                read_bucket(bucket.as_str())
            } else {
                Err(TargetError::MissingKey)
            }
        },
        None => read_bucket(rest.as_str()),
    }
}

/// Resolves a path-style `/bucket/key` request target.
///
/// Returns an error when either bucket or key is missing, invalid, or contains malformed
/// percent-encoded UTF-8.
pub fn resolve_path_style(path: &str) -> (result: Result<S3Target, TargetError>)
    ensures
        match result {
            Ok(target) => path_style_target(path@) == Ok::<TargetView, TargetError>(target@),
            Err(error) => path_style_target(path@) == Err::<TargetView, TargetError>(error),
        },
{
    let rest = strip_leading_slash(path);
    match split_at_first(rest.as_str(), '/') {
        Some((bucket, key)) => decode_target(bucket.as_str(), key.as_str(), false),
        None => Err(TargetError::MissingKey),
    }
}

/// Returns true when `host` contains a bucket prefix before `base_domain`.
///
/// Matching is case-insensitive and ignores ports on both values.
pub fn has_virtual_hosted_bucket(host: &str, base_domain: &str) -> (result: bool)
    ensures
        result == host_bucket(host@, base_domain@) is Some,
{
    virtual_host_bucket(host, base_domain).is_some()
}

/// Whatever a request resolves to has a valid bucket name and a valid object key.
pub proof fn law_resolved_targets_are_valid(
    path: Seq<char>,
    host: Option<Seq<char>>,
    base_domain: Option<Seq<char>>,
)
    ensures
        match request_target(path, host, base_domain) {
            Ok(target) => parse_bucket_name(target.bucket) is Ok && parse_object_key(target.key)
                is Ok,
            Err(_) => true,
        },
        match request_bucket(path, host, base_domain) {
            Ok(bucket) => parse_bucket_name(bucket) is Ok,
            Err(_) => true,
        },
{
}

proof fn lemma_relative_path(rest: Seq<char>)
    ensures
        relative_path("/"@ + rest) == rest,
{
    reveal_strlit("/");
    let path = "/"@ + rest;
    assert(path.take(1) =~= "/"@);
    assert(path.skip(1) =~= rest);
}

proof fn lemma_without_port(name: Seq<char>, port: Option<Seq<char>>)
    requires
        !name.contains(':'),
    ensures
        without_port(with_port(name, port)) == name,
{
    let host = with_port(name, port);
    match port {
        None => {
            lemma_first_index(host, ':');
            if first_index(host, ':') < host.len() {
                assert(name.contains(name[first_index(host, ':')]));
            }
        },
        Some(p) => {
            reveal_strlit(":");
            assert(host[name.len() as int] == ':');
            assert forall|j: int| 0 <= j < name.len() implies host[j] != ':' by {
                assert(name.contains(name[j]));
            }
            lemma_first_index_is(host, ':', name.len() as int);
            assert(host.take(name.len() as int) =~= name);
        },
    }
}

/// A host with a port, where there is one.
pub open spec fn with_port(name: Seq<char>, port: Option<Seq<char>>) -> Seq<char> {
    match port {
        Some(p) => name + ":"@ + p,
        None => name,
    }
}

/// A virtual-hosted-style request names the object that the path-style request with the same bucket
/// and key names, whatever ports the host and the base domain have; and where one is refused, so is
/// the other, with the same error.
pub proof fn law_addressing_styles_agree(
    bucket: Seq<char>,
    key: Seq<char>,
    domain: Seq<char>,
    host_port: Option<Seq<char>>,
    domain_port: Option<Seq<char>>,
)
    requires
        bucket.len() > 0,
        !bucket.contains('/'),
        !bucket.contains(':'),
        !domain.contains(':'),
    ensures
        ({
            let hosted = request_target(
                "/"@ + key,
                Some(with_port(bucket + "."@ + domain, host_port)),
                Some(with_port(domain, domain_port)),
            );
            match path_style_target("/"@ + bucket + "/"@ + key) {
                Ok(target) => hosted == Ok::<TargetView, TargetError>(
                    TargetView { virtual_hosted: true, ..target },
                ),
                Err(error) => hosted == Err::<TargetView, TargetError>(error),
            }
        }),
{
    reveal_strlit("/");
    reveal_strlit(".");
    let name = bucket + "."@ + domain;
    assert forall|j: int| 0 <= j < name.len() implies name[j] != ':' by {
        if j < bucket.len() {
            assert(bucket.contains(bucket[j]));
        } else if j > bucket.len() {
            assert(name[j] == domain[j - bucket.len() - 1]);
            assert(domain.contains(domain[j - bucket.len() - 1]));
        }
    }
    lemma_without_port(name, host_port);
    lemma_without_port(domain, domain_port);
    let suffix = "."@ + lowercase(domain);
    let lowered = lowercase(name);
    assert(lowered.skip(bucket.len() as int) =~= suffix) by {
        assert(lower('.') == '.');
    }
    assert(lowered.len() - suffix.len() == bucket.len());
    assert(name.take(bucket.len() as int) =~= bucket);
    assert(host_bucket(
        with_port(name, host_port),
        with_port(domain, domain_port),
    ) == Some(bucket));
    let rest = bucket + "/"@ + key;
    assert("/"@ + bucket + "/"@ + key =~= "/"@ + rest);
    lemma_relative_path(key);
    lemma_relative_path(rest);
    assert forall|j: int| 0 <= j < bucket.len() implies rest[j] != '/' by {
        assert(bucket.contains(bucket[j]));
    }
    lemma_first_index_is(rest, '/', bucket.len() as int);
    assert(rest.take(bucket.len() as int) =~= bucket);
    assert(rest.skip(bucket.len() as int + 1) =~= key);
}

/// The case of the letters in the base domain does not matter.
pub proof fn law_base_domains_match_in_any_case(
    host: Seq<char>,
    domain: Seq<char>,
    other: Seq<char>,
)
    requires
        lowercase(without_port(domain)) == lowercase(without_port(other)),
    ensures
        host_bucket(host, domain) == host_bucket(host, other),
{
}

/// A path-style request names the object that its client means: the path of a bucket and a key, each
/// escaped as clients escape them, resolves to that bucket and that key.
pub proof fn law_paths_name_their_objects(
    bucket: Seq<char>,
    key: Seq<char>,
    host: Option<Seq<char>>,
    base_domain: Option<Seq<char>>,
)
    requires
        parse_bucket_name(bucket) is Ok,
        parse_object_key(key) is Ok,
        request_host_bucket(host, base_domain) is None,
    ensures
        request_target(
            seq!['/'] + escaped(encode_utf8(bucket), false) + seq!['/'] + escaped(
                encode_utf8(key),
                true,
            ),
            host,
            base_domain,
        ) == Ok::<_, TargetError>(TargetView { bucket, key, virtual_hosted: false }),
{
    broadcast use {encode_utf8_valid_utf8, encode_utf8_decode_utf8};

    let first = escaped(encode_utf8(bucket), false);
    let second = escaped(encode_utf8(key), true);
    let rest = first + seq!['/'] + second;
    let path = seq!['/'] + first + seq!['/'] + second;
    reveal_strlit("/");
    assert("/"@ =~= seq!['/']);
    assert(path =~= "/"@ + rest);
    lemma_relative_path(rest);
    lemma_escaped(encode_utf8(bucket), false);
    lemma_escaped(encode_utf8(key), true);
    law_encoded_uris_are_decoded(encode_utf8(bucket), false);
    law_encoded_uris_are_decoded(encode_utf8(key), true);
    assert forall|j: int| 0 <= j < first.len() implies #[trigger] rest[j] != '/' by {
        law_encoded_uri_characters(encode_utf8(bucket), false, j);
        assert(rest[j] == first[j]);
    }
    lemma_first_index_is(rest, '/', first.len() as int);
    assert(rest.take(first.len() as int) =~= first);
    assert(rest.skip(first.len() as int + 1) =~= second);
}

} // verus!
