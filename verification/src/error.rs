//! S3 XML error responses.
use crate::collections::{clone_pairs, pairs};
use crate::http::is_field_byte;
use crate::s3::types::{is_request_id, RequestId};
use crate::text::{chars_of, is_control, opt_text, same};
use vstd::prelude::*;

verus! {

/// S3 XML error response.
///
/// `S3Error` keeps the HTTP status, S3 error code, user-facing message, optional resource, and
/// extra response headers together until the HTTP boundary converts it to an XML response.
/// Constructors are named after the S3 error code or behavior they represent.
#[derive(Debug)]
pub struct S3Error {
    status: u16,
    code: &'static str,
    message: String,
    resource: Option<String>,
    headers: Vec<(String, String)>,
}

/// An [`S3Error`] as a mathematical value.
#[verifier::ext_equal]
pub struct ErrorView {
    pub status: u16,
    pub code: Seq<char>,
    pub message: Seq<char>,
    pub resource: Option<Seq<char>>,
    pub headers: Seq<(Seq<char>, Seq<char>)>,
}

impl View for S3Error {
    type V = ErrorView;

    closed spec fn view(&self) -> ErrorView {
        ErrorView {
            status: self.status,
            code: self.code@,
            message: self.message@,
            resource: opt_text(self.resource),
            headers: pairs(self.headers@),
        }
    }
}

/// An error with a status, a code and a message, and nothing attached.
pub open spec fn plain_error(status: u16, code: Seq<char>, message: Seq<char>) -> ErrorView {
    ErrorView { status, code, message, resource: None, headers: Seq::empty() }
}

/// The `400 InvalidRequest` error.
pub open spec fn invalid_request(message: Seq<char>) -> ErrorView {
    plain_error(400, "InvalidRequest"@, message)
}

/// The `400 InvalidArgument` error.
pub open spec fn invalid_argument(message: Seq<char>) -> ErrorView {
    plain_error(400, "InvalidArgument"@, message)
}

/// The `400 MalformedXML` error.
pub open spec fn malformed_xml(message: Seq<char>) -> ErrorView {
    plain_error(400, "MalformedXML"@, message)
}

/// The `404 NoSuchBucket` error.
pub open spec fn no_such_bucket(bucket: Seq<char>) -> ErrorView {
    plain_error(404, "NoSuchBucket"@, "The specified bucket does not exist: "@ + bucket)
}

/// The `404 NoSuchKey` error.
pub open spec fn no_such_key() -> ErrorView {
    plain_error(404, "NoSuchKey"@, "The specified key does not exist."@)
}

/// The `403 AccessDenied` error.
pub open spec fn access_denied(message: Seq<char>) -> ErrorView {
    plain_error(403, "AccessDenied"@, message)
}

/// The `400 AuthorizationHeaderMalformed` error.
pub open spec fn authorization_header_malformed(message: Seq<char>) -> ErrorView {
    plain_error(400, "AuthorizationHeaderMalformed"@, message)
}

/// The `403 SignatureDoesNotMatch` error.
pub open spec fn signature_does_not_match() -> ErrorView {
    plain_error(
        403,
        "SignatureDoesNotMatch"@,
        "The request signature we calculated does not match the signature you provided."@,
    )
}

/// The `403 RequestTimeTooSkewed` error.
pub open spec fn request_time_too_skewed() -> ErrorView {
    plain_error(
        403,
        "RequestTimeTooSkewed"@,
        "The difference between the request time and the server's time is too large."@,
    )
}

/// The `411 MissingContentLength` error.
pub open spec fn missing_content_length() -> ErrorView {
    plain_error(
        411,
        "MissingContentLength"@,
        "You must provide the Content-Length HTTP header."@,
    )
}

/// The `400 BadDigest` error.
pub open spec fn bad_digest(message: Seq<char>) -> ErrorView {
    plain_error(400, "BadDigest"@, message)
}

/// The `404 NoSuchUpload` error.
pub open spec fn no_such_upload() -> ErrorView {
    plain_error(404, "NoSuchUpload"@, "The specified multipart upload does not exist."@)
}

/// The `400 InvalidPart` error.
pub open spec fn invalid_part(message: Seq<char>) -> ErrorView {
    plain_error(400, "InvalidPart"@, message)
}

/// The `400 EntityTooSmall` error.
pub open spec fn entity_too_small(message: Seq<char>) -> ErrorView {
    plain_error(400, "EntityTooSmall"@, message)
}

/// The `413 EntityTooLarge` error.
pub open spec fn entity_too_large(message: Seq<char>) -> ErrorView {
    plain_error(413, "EntityTooLarge"@, message)
}

/// The `503 SlowDown` error.
pub open spec fn slow_down(message: Seq<char>) -> ErrorView {
    plain_error(503, "SlowDown"@, message)
}

/// The `416 InvalidRange` error.
pub open spec fn invalid_range(message: Seq<char>) -> ErrorView {
    plain_error(416, "InvalidRange"@, message)
}

/// The `412 PreconditionFailed` error.
pub open spec fn precondition_failed(message: Seq<char>) -> ErrorView {
    plain_error(412, "PreconditionFailed"@, message)
}

/// The `405 MethodNotAllowed` error with the endpoint's `Allow` header.
pub open spec fn method_not_allowed() -> ErrorView {
    with_header(
        plain_error(
            405,
            "MethodNotAllowed"@,
            "The specified method is not allowed against this resource."@,
        ),
        "allow"@,
        "DELETE, GET, HEAD, POST, PUT"@,
    )
}

/// The `501 NotImplemented` error.
pub open spec fn not_implemented(message: Seq<char>) -> ErrorView {
    plain_error(501, "NotImplemented"@, message)
}

/// The `500 InternalError` error.
pub open spec fn internal(message: Seq<char>) -> ErrorView {
    plain_error(500, "InternalError"@, message)
}

/// An error with a resource attached.
pub open spec fn with_resource(error: ErrorView, resource: Seq<char>) -> ErrorView {
    ErrorView { resource: Some(resource), ..error }
}

/// An error with one more response header.
pub open spec fn with_header(error: ErrorView, name: Seq<char>, value: Seq<char>) -> ErrorView {
    ErrorView { headers: error.headers.push((name, value)), ..error }
}

// ---------------------------------------------------------------------------------------------
// XML
// ---------------------------------------------------------------------------------------------
/// The XML form of one character.
pub open spec fn escape_char(c: char) -> Seq<char> {
    if c == '&' {
        "&amp;"@
    } else if c == '<' {
        "&lt;"@
    } else if c == '>' {
        "&gt;"@
    } else if c == '"' {
        "&quot;"@
    } else if c == '\'' {
        "&apos;"@
    } else {
        seq![c]
    }
}

/// Text with the characters that have a meaning in XML replaced by entities.
pub open spec fn escaped(text: Seq<char>) -> Seq<char>
    decreases text.len(),
{
    if text.len() == 0 {
        Seq::empty()
    } else {
        escaped(text.drop_last()) + escape_char(text.last())
    }
}

/// Escapes text for XML.
pub fn escape_xml(value: &str) -> (text: String)
    ensures
        text@ == escaped(value@),
{
    let chars = chars_of(value);
    let mut text = String::new();
    let mut i: usize = 0;
    while i < chars.len()
        invariant
            i <= chars@.len(),
            chars@ == value@,
            text@ == escaped(value@.take(i as int)),
        decreases chars.len() - i,
    {
        let c: char = chars[i];
        proof {
            assert(value@.take(i + 1).drop_last() =~= value@.take(i as int));
            assert(value@.take(i + 1).last() == c);
        }
        if c == '&' {
            text.append("&amp;");
        } else if c == '<' {
            text.append("&lt;");
        } else if c == '>' {
            text.append("&gt;");
        } else if c == '"' {
            text.append("&quot;");
        } else if c == '\'' {
            text.append("&apos;");
        } else {
            let ghost before = text@;
            text.push(c);
            assert(text@ =~= before + seq![c]);
        }
        i += 1;
    }
    assert(value@.take(i as int) =~= value@);
    text
}

/// Escaped text holds no angle bracket and no quote, so it can open or close no markup.
pub proof fn law_escaped_text_has_no_markup(text: Seq<char>)
    ensures
        forall|i: int|
            0 <= i < escaped(text).len() ==> (#[trigger] escaped(text)[i]) != '<' && escaped(
                text,
            )[i] != '>' && escaped(text)[i] != '"' && escaped(text)[i] != '\'',
    decreases text.len(),
{
    reveal_strlit("&amp;");
    reveal_strlit("&lt;");
    reveal_strlit("&gt;");
    reveal_strlit("&quot;");
    reveal_strlit("&apos;");
    if text.len() > 0 {
        let head = escaped(text.drop_last());
        let tail = escape_char(text.last());
        law_escaped_text_has_no_markup(text.drop_last());
        assert forall|i: int| 0 <= i < escaped(text).len() implies (#[trigger] escaped(text)[i])
            != '<' && escaped(text)[i] != '>' && escaped(text)[i] != '"' && escaped(text)[i]
            != '\'' by {
            if i < head.len() {
                assert(escaped(text)[i] == head[i]);
            } else {
                assert(escaped(text)[i] == tail[i - head.len()]);
            }
        }
    }
}

/// The resource line of an XML error body.
pub open spec fn resource_line(resource: Option<Seq<char>>) -> Seq<char> {
    match resource {
        Some(r) => "  <Resource>"@ + escaped(r) + "</Resource>\n"@,
        None => Seq::empty(),
    }
}

/// The XML body of an error.
pub open spec fn error_xml(error: ErrorView, request_id: Seq<char>) -> Seq<char> {
    "<?xml version=\"1.0\" encoding=\"UTF-8\"?>\n<Error>\n  <Code>"@ + error.code
        + "</Code>\n  <Message>"@ + escaped(error.message) + "</Message>\n"@ + resource_line(
        error.resource,
    ) + "  <RequestId>"@ + request_id + "</RequestId>\n</Error>\n"@
}

// ---------------------------------------------------------------------------------------------
// Responses
// ---------------------------------------------------------------------------------------------
/// A response with a text body, ready to be sent.
#[derive(Debug)]
pub struct TextResponse {
    /// HTTP status code.
    pub status: u16,
    /// Header fields, no name twice.
    pub headers: Vec<(String, String)>,
    /// Body.
    pub body: String,
}

/// A [`TextResponse`] as a mathematical value.
#[verifier::ext_equal]
pub struct ResponseView {
    pub status: u16,
    pub headers: Seq<(Seq<char>, Seq<char>)>,
    pub body: Seq<char>,
}

impl View for TextResponse {
    type V = ResponseView;

    open spec fn view(&self) -> ResponseView {
        ResponseView { status: self.status, headers: pairs(self.headers@), body: self.body@ }
    }
}

/// A list of header fields with `name` set to `value`, in place of what it was set to before.
pub open spec fn set_header(
    headers: Seq<(Seq<char>, Seq<char>)>,
    name: Seq<char>,
    value: Seq<char>,
) -> Seq<(Seq<char>, Seq<char>)> {
    headers.filter(|h: (Seq<char>, Seq<char>)| h.0 != name).push((name, value))
}

/// A list of header fields with the first `n` of `more` set one after the other.
pub open spec fn set_headers(
    headers: Seq<(Seq<char>, Seq<char>)>,
    more: Seq<(Seq<char>, Seq<char>)>,
    n: int,
) -> Seq<(Seq<char>, Seq<char>)>
    decreases n,
{
    if n <= 0 {
        headers
    } else {
        set_header(set_headers(headers, more, n - 1), more[n - 1].0, more[n - 1].1)
    }
}

/// The response to an error.
pub open spec fn error_response(error: ErrorView, request_id: Seq<char>) -> ResponseView {
    ResponseView {
        status: error.status,
        headers: set_header(
            set_headers(
                seq![("content-type"@, "application/xml; charset=utf-8"@)],
                error.headers,
                error.headers.len() as int,
            ),
            "x-amz-request-id"@,
            request_id,
        ),
        body: error_xml(error, request_id),
    }
}

/// Sets a header field.
pub fn put_header(headers: &Vec<(String, String)>, name: &str, value: &str) -> (result: Vec<
    (String, String),
>)
    ensures
        pairs(result@) == set_header(pairs(headers@), name@, value@),
{
    let mut result: Vec<(String, String)> = Vec::new();
    let ghost all = pairs(headers@);
    let ghost differs = |h: (Seq<char>, Seq<char>)| h.0 != name@;
    let mut i: usize = 0;
    assert(pairs(result@) =~= all.take(0).filter(differs)) by {
        reveal(Seq::filter);
    }
    while i < headers.len()
        invariant
            i <= headers@.len(),
            all == pairs(headers@),
            differs == (|h: (Seq<char>, Seq<char>)| h.0 != name@),
            pairs(result@) == all.take(i as int).filter(differs),
        decreases headers.len() - i,
    {
        proof {
            reveal(Seq::filter);
            assert(all.take(i + 1).drop_last() =~= all.take(i as int));
            assert(all.take(i + 1).last() == (headers@[i as int].0@, headers@[i as int].1@));
        }
        if !same(headers[i].0.as_str(), name) {
            let copy = (headers[i].0.clone(), headers[i].1.clone());
            assert(pairs(result@.push(copy)) =~= pairs(result@).push((copy.0@, copy.1@)));
            result.push(copy);
        }
        i += 1;
    }
    assert(all.take(i as int) =~= all);
    let last = (name.to_owned(), value.to_owned());
    assert(pairs(result@.push(last)) =~= pairs(result@).push((name@, value@)));
    result.push(last);
    result
}

impl Clone for S3Error {
    fn clone(&self) -> (copy: Self)
        ensures
            copy@ == self@,
    {
        S3Error {
            status: self.status,
            code: self.code,
            message: self.message.clone(),
            resource: match &self.resource {
                Some(resource) => Some(resource.clone()),
                None => None,
            },
            headers: clone_pairs(&self.headers),
        }
    }
}

impl S3Error {
    fn new(status: u16, code: &'static str, message: &str) -> (error: Self)
        ensures
            error@ == plain_error(status, code@, message@),
    {
        let headers: Vec<(String, String)> = Vec::new();
        assert(pairs(headers@) =~= Seq::<(Seq<char>, Seq<char>)>::empty());
        S3Error { status, code, message: message.to_owned(), resource: None, headers }
    }

    /// Returns a `400 InvalidRequest` error.
    pub fn invalid_request(message: &str) -> (error: Self)
        ensures
            error@ == invalid_request(message@),
    {
        S3Error::new(400, "InvalidRequest", message)
    }

    /// Returns a `400 InvalidArgument` error.
    pub fn invalid_argument(message: &str) -> (error: Self)
        ensures
            error@ == invalid_argument(message@),
    {
        S3Error::new(400, "InvalidArgument", message)
    }

    /// Returns a `400 MalformedXML` error.
    pub fn malformed_xml(message: &str) -> (error: Self)
        ensures
            error@ == malformed_xml(message@),
    {
        S3Error::new(400, "MalformedXML", message)
    }

    /// Returns a `404 NoSuchBucket` error for a bucket name.
    pub fn no_such_bucket(bucket: &str) -> (error: Self)
        ensures
            error@ == no_such_bucket(bucket@),
    {
        let message = "The specified bucket does not exist: ".to_owned().concat(bucket);
        S3Error::new(404, "NoSuchBucket", message.as_str())
    }

    /// Returns a `404 NoSuchKey` error.
    pub fn no_such_key() -> (error: Self)
        ensures
            error@ == no_such_key(),
    {
        S3Error::new(404, "NoSuchKey", "The specified key does not exist.")
    }

    /// Returns a `403 AccessDenied` error.
    pub fn access_denied(message: &str) -> (error: Self)
        ensures
            error@ == access_denied(message@),
    {
        S3Error::new(403, "AccessDenied", message)
    }

    /// Returns a `400 AuthorizationHeaderMalformed` error.
    pub fn authorization_header_malformed(message: &str) -> (error: Self)
        ensures
            error@ == authorization_header_malformed(message@),
    {
        S3Error::new(400, "AuthorizationHeaderMalformed", message)
    }

    /// Returns a `403 SignatureDoesNotMatch` error.
    pub fn signature_does_not_match() -> (error: Self)
        ensures
            error@ == signature_does_not_match(),
    {
        S3Error::new(
            403,
            "SignatureDoesNotMatch",
            "The request signature we calculated does not match the signature you provided.",
        )
    }

    /// Returns a `403 RequestTimeTooSkewed` error.
    pub fn request_time_too_skewed() -> (error: Self)
        ensures
            error@ == request_time_too_skewed(),
    {
        S3Error::new(
            403,
            "RequestTimeTooSkewed",
            "The difference between the request time and the server's time is too large.",
        )
    }

    /// Returns a `411 MissingContentLength` error.
    pub fn missing_content_length() -> (error: Self)
        ensures
            error@ == missing_content_length(),
    {
        S3Error::new(
            411,
            "MissingContentLength",
            "You must provide the Content-Length HTTP header.",
        )
    }

    /// Returns a `400 BadDigest` error.
    pub fn bad_digest(message: &str) -> (error: Self)
        ensures
            error@ == bad_digest(message@),
    {
        S3Error::new(400, "BadDigest", message)
    }

    /// Returns a `404 NoSuchUpload` error.
    pub fn no_such_upload() -> (error: Self)
        ensures
            error@ == no_such_upload(),
    {
        S3Error::new(404, "NoSuchUpload", "The specified multipart upload does not exist.")
    }

    /// Returns a `400 InvalidPart` error.
    pub fn invalid_part(message: &str) -> (error: Self)
        ensures
            error@ == invalid_part(message@),
    {
        S3Error::new(400, "InvalidPart", message)
    }

    /// Returns a `400 EntityTooSmall` error.
    pub fn entity_too_small(message: &str) -> (error: Self)
        ensures
            error@ == entity_too_small(message@),
    {
        S3Error::new(400, "EntityTooSmall", message)
    }

    /// Returns a `413 EntityTooLarge` error.
    pub fn entity_too_large(message: &str) -> (error: Self)
        ensures
            error@ == entity_too_large(message@),
    {
        S3Error::new(413, "EntityTooLarge", message)
    }

    /// Returns a `503 SlowDown` error.
    pub fn slow_down(message: &str) -> (error: Self)
        ensures
            error@ == slow_down(message@),
    {
        S3Error::new(503, "SlowDown", message)
    }

    /// Returns a `416 InvalidRange` error.
    pub fn invalid_range(message: &str) -> (error: Self)
        ensures
            error@ == invalid_range(message@),
    {
        S3Error::new(416, "InvalidRange", message)
    }

    /// Returns a `412 PreconditionFailed` error.
    pub fn precondition_failed(message: &str) -> (error: Self)
        ensures
            error@ == precondition_failed(message@),
    {
        S3Error::new(412, "PreconditionFailed", message)
    }

    /// Returns a `405 MethodNotAllowed` error with the endpoint's `Allow` header.
    pub fn method_not_allowed() -> (error: Self)
        ensures
            error@ == method_not_allowed(),
    {
        S3Error::new(
            405,
            "MethodNotAllowed",
            "The specified method is not allowed against this resource.",
        ).with_header("allow", "DELETE, GET, HEAD, POST, PUT")
    }

    /// Returns a `501 NotImplemented` error.
    pub fn not_implemented(message: &str) -> (error: Self)
        ensures
            error@ == not_implemented(message@),
    {
        S3Error::new(501, "NotImplemented", message)
    }

    /// Returns a `500 InternalError` error.
    pub fn internal(message: &str) -> (error: Self)
        ensures
            error@ == internal(message@),
    {
        S3Error::new(500, "InternalError", message)
    }

    /// Attaches the S3 resource path shown in the XML error body.
    pub fn with_resource(self, resource: &str) -> (error: Self)
        ensures
            error@ == with_resource(self@, resource@),
    {
        let mut error = self;
        error.resource = Some(resource.to_owned());
        error
    }

    /// Attaches an HTTP response header to the eventual error response.
    pub fn with_header(self, name: &str, value: &str) -> (error: Self)
        ensures
            error@ == with_header(self@, name@, value@),
    {
        let mut error = self;
        let header = (name.to_owned(), value.to_owned());
        assert(pairs(error.headers@.push(header)) =~= pairs(error.headers@).push((name@, value@)));
        error.headers.push(header);
        error
    }

    /// The HTTP status code of the error.
    pub fn status(&self) -> (status: u16)
        ensures
            status == self@.status,
    {
        self.status
    }

    /// The S3 error code of the error.
    pub fn code(&self) -> (code: &'static str)
        ensures
            code@ == self@.code,
    {
        self.code
    }

    /// The user-facing message of the error.
    pub fn message(&self) -> (message: &str)
        ensures
            message@ == self@.message,
    {
        self.message.as_str()
    }

    /// Converts the error into an S3 XML response using a known request ID.
    pub fn into_response_with_request_id(self, request_id: &RequestId) -> (response: TextResponse)
        ensures
            response@ == error_response(self@, request_id@),
    {
        let body = self.to_xml(request_id);
        let first = ("content-type".to_owned(), "application/xml; charset=utf-8".to_owned());
        let mut headers: Vec<(String, String)> = Vec::new();
        headers.push(first);
        let ghost start = seq![("content-type"@, "application/xml; charset=utf-8"@)];
        assert(pairs(headers@) =~= start);
        let mut i: usize = 0;
        while i < self.headers.len()
            invariant
                i <= self.headers@.len(),
                pairs(headers@) == set_headers(start, self@.headers, i as int),
            decreases self.headers.len() - i,
        {
            headers = put_header(&headers, self.headers[i].0.as_str(), self.headers[i].1.as_str());
            assert(self@.headers[i as int] == (
                self.headers@[i as int].0@,
                self.headers@[i as int].1@,
            ));
            i += 1;
        }
        headers = put_header(&headers, "x-amz-request-id", request_id.as_str());
        TextResponse { status: self.status, headers, body }
    }

    fn to_xml(&self, request_id: &RequestId) -> (xml: String)
        ensures
            xml@ == error_xml(self@, request_id@),
    {
        let mut xml =
            "<?xml version=\"1.0\" encoding=\"UTF-8\"?>\n<Error>\n  <Code>".to_owned();
        xml.append(self.code);
        xml.append("</Code>\n  <Message>");
        xml.append(escape_xml(self.message.as_str()).as_str());
        xml.append("</Message>\n");
        let ghost before = xml@;
        match &self.resource {
            Some(resource) => {
                let mut line = "  <Resource>".to_owned();
                line.append(escape_xml(resource.as_str()).as_str());
                line.append("</Resource>\n");
                xml.append(line.as_str());
            },
            None => {},
        }
        assert(xml@ =~= before + resource_line(self@.resource));
        xml.append("  <RequestId>");
        xml.append(request_id.as_str());
        xml.append("</RequestId>\n</Error>\n");
        xml
    }
}

/// A request identifier can always be sent in a header field: none of its characters is a control
/// character.
pub proof fn law_request_ids_fit_header_fields(id: Seq<char>)
    requires
        is_request_id(id),
    ensures
        forall|i: int| 0 <= i < id.len() && #[trigger] id[i] < '\u{80}' ==> is_field_byte(id[i] as u8),
{
    assert forall|i: int| 0 <= i < id.len() && #[trigger] id[i] < '\u{80}' implies is_field_byte(
        id[i] as u8,
    ) by {
        assert(!is_control(id[i]));
    }
}

} // verus!
