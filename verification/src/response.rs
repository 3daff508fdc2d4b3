//! Responses, ready to be sent.
use crate::collections::pairs;
use crate::error::{put_header, set_header, ResponseView, S3Error, TextResponse};
use crate::s3::types::RequestId;
use vstd::prelude::*;

verus! {

/// The body of a response.
#[derive(Debug, PartialEq, Eq)]
pub enum ResponseBody {
    /// No body.
    Empty,
    /// Text.
    Text(String),
    /// The stored bytes of the object that was opened for the request.
    Object {
        /// The first byte that is sent.
        start: u64,
        /// How many bytes are sent at most; all that follow where there is no limit.
        length: Option<u64>,
    },
}

/// A [`ResponseBody`] as a mathematical value.
#[verifier::ext_equal]
pub enum BodyView {
    Empty,
    Text(Seq<char>),
    Object { start: nat, length: Option<nat> },
}

impl View for ResponseBody {
    type V = BodyView;

    open spec fn view(&self) -> BodyView {
        match self {
            ResponseBody::Empty => BodyView::Empty,
            ResponseBody::Text(text) => BodyView::Text(text@),
            ResponseBody::Object { start, length } => BodyView::Object {
                start: *start as nat,
                length: match length {
                    Some(l) => Some(*l as nat),
                    None => None,
                },
            },
        }
    }
}

/// A response to an S3 request.
#[derive(Debug, PartialEq, Eq)]
pub struct S3Response {
    /// HTTP status code.
    pub status: u16,
    /// Header fields, in the order in which they are sent.
    pub headers: Vec<(String, String)>,
    /// Body.
    pub body: ResponseBody,
    /// The number of decoded body bytes of the request, for the request log.
    pub decoded_bytes: Option<u64>,
}

/// An [`S3Response`] as a mathematical value.
#[verifier::ext_equal]
pub struct S3ResponseView {
    pub status: u16,
    pub headers: Seq<(Seq<char>, Seq<char>)>,
    pub body: BodyView,
    pub decoded_bytes: Option<u64>,
}

impl View for S3Response {
    type V = S3ResponseView;

    open spec fn view(&self) -> S3ResponseView {
        S3ResponseView {
            status: self.status,
            headers: pairs(self.headers@),
            body: self.body@,
            decoded_bytes: self.decoded_bytes,
        }
    }
}

/// Appends a header field.
pub fn add_header(headers: &mut Vec<(String, String)>, name: &str, value: &str)
    ensures
        pairs(final(headers)@) == pairs(old(headers)@).push((name@, value@)),
{
    let ghost before = headers@;
    headers.push((name.to_owned(), value.to_owned()));
    assert(pairs(headers@) =~= pairs(before).push((name@, value@)));
}

/// Appends a header field where there is a value for it.
pub open spec fn with_optional(
    headers: Seq<(Seq<char>, Seq<char>)>,
    name: Seq<char>,
    value: Option<Seq<char>>,
) -> Seq<(Seq<char>, Seq<char>)> {
    match value {
        Some(v) => headers.push((name, v)),
        None => headers,
    }
}

/// Appends a header field where there is a value for it.
pub fn add_optional_header(headers: &mut Vec<(String, String)>, name: &str, value: &Option<String>)
    ensures
        pairs(final(headers)@) == with_optional(
            pairs(old(headers)@),
            name@,
            crate::text::opt_text(*value),
        ),
{
    match value {
        Some(v) => add_header(headers, name, v.as_str()),
        None => {},
    }
}

/// Appends the entries of a map as header fields, in the order of their names.
pub fn add_headers(headers: &mut Vec<(String, String)>, more: &crate::collections::TextMap)
    ensures
        pairs(final(headers)@) == pairs(old(headers)@) + more@,
{
    let ghost start = pairs(headers@);
    let mut i: usize = 0;
    assert(start =~= start + more@.take(0));
    while i < more.len()
        invariant
            i <= more@.len(),
            pairs(headers@) == start + more@.take(i as int),
        decreases more@.len() - i,
    {
        add_header(headers, more.key_at(i), more.value_at(i));
        assert(start + more@.take(i as int).push(more@[i as int]) =~= (start + more@.take(
            i as int,
        )).push(more@[i as int]));
        assert(more@.take(i as int).push(more@[i as int]) =~= more@.take(i + 1));
        i += 1;
    }
    assert(more@.take(i as int) =~= more@);
}

/// A response with the size of the decoded request body recorded.
pub open spec fn with_decoded_bytes(response: S3ResponseView, bytes: u64) -> S3ResponseView {
    S3ResponseView { decoded_bytes: Some(bytes), ..response }
}

/// Records the size of the decoded request body.
pub fn record_decoded_body_bytes(response: S3Response, bytes: u64) -> (result: S3Response)
    ensures
        result@ == with_decoded_bytes(response@, bytes),
{
    S3Response { decoded_bytes: Some(bytes), ..response }
}

/// Whether a status tells of success.
pub open spec fn is_success(status: u16) -> bool {
    200 <= status < 300
}

/// The response to a HEAD request: without a body, and where it tells of no success with the length
/// zero.
pub open spec fn without_body(response: S3ResponseView) -> S3ResponseView {
    S3ResponseView {
        headers: if is_success(response.status) {
            response.headers
        } else {
            set_header(response.headers, "content-length"@, "0"@)
        },
        body: BodyView::Empty,
        ..response
    }
}

/// Takes the body off the response to a HEAD request.
pub fn without_head_response_body(response: S3Response) -> (result: S3Response)
    ensures
        result@ == without_body(response@),
{
    let success = 200 <= response.status && response.status < 300;
    let headers = if success {
        response.headers
    } else {
        put_header(&response.headers, "content-length", "0")
    };
    S3Response {
        status: response.status,
        headers,
        body: ResponseBody::Empty,
        decoded_bytes: response.decoded_bytes,
    }
}

/// A text response as a response.
pub open spec fn text_response(response: ResponseView) -> S3ResponseView {
    S3ResponseView {
        status: response.status,
        headers: response.headers,
        body: BodyView::Text(response.body),
        decoded_bytes: None,
    }
}

/// The response to an error.
pub fn render_error(error: S3Error, request_id: &RequestId) -> (response: S3Response)
    ensures
        response@ == text_response(crate::error::error_response(error@, request_id@)),
{
    let TextResponse { status, headers, body } = error.into_response_with_request_id(request_id);
    S3Response { status, headers, body: ResponseBody::Text(body), decoded_bytes: None }
}

/// An XML response.
pub open spec fn xml_answer(status: u16, request_id: Seq<char>, body: Seq<char>) -> S3ResponseView {
    S3ResponseView {
        status,
        headers: seq![
            ("content-type"@, "application/xml; charset=utf-8"@),
            ("x-amz-request-id"@, request_id),
        ],
        body: BodyView::Text(body),
        decoded_bytes: None,
    }
}

/// Makes an XML response.
pub fn xml_response(status: u16, request_id: &RequestId, body: String) -> (response: S3Response)
    ensures
        response@ == xml_answer(status, request_id@, body@),
{
    let mut headers: Vec<(String, String)> = Vec::new();
    assert(pairs(headers@) =~= Seq::<(Seq<char>, Seq<char>)>::empty());
    add_header(&mut headers, "content-type", "application/xml; charset=utf-8");
    add_header(&mut headers, "x-amz-request-id", request_id.as_str());
    let response = S3Response {
        status,
        headers,
        body: ResponseBody::Text(body),
        decoded_bytes: None,
    };
    assert(response@ =~= xml_answer(status, request_id@, body@));
    response
}

/// A response without a body.
pub open spec fn empty_answer(status: u16, request_id: Seq<char>) -> S3ResponseView {
    S3ResponseView {
        status,
        headers: seq![("x-amz-request-id"@, request_id), ("content-length"@, "0"@)],
        body: BodyView::Empty,
        decoded_bytes: None,
    }
}

/// Makes a response without a body.
pub fn empty_response(status: u16, request_id: &RequestId) -> (response: S3Response)
    ensures
        response@ == empty_answer(status, request_id@),
{
    let mut headers: Vec<(String, String)> = Vec::new();
    assert(pairs(headers@) =~= Seq::<(Seq<char>, Seq<char>)>::empty());
    add_header(&mut headers, "x-amz-request-id", request_id.as_str());
    add_header(&mut headers, "content-length", "0");
    let response = S3Response {
        status,
        headers,
        body: ResponseBody::Empty,
        decoded_bytes: None,
    };
    assert(response@ =~= empty_answer(status, request_id@));
    response
}

// ---------------------------------------------------------------------------------------------
// Reading header fields
// ---------------------------------------------------------------------------------------------
/// The values of the header fields with a name, as a client reads them.
pub open spec fn response_values(fields: Seq<(Seq<char>, Seq<char>)>, name: Seq<char>) -> Seq<
    Seq<char>,
>
    decreases fields.len(),
{
    if fields.len() == 0 {
        Seq::empty()
    } else if fields.last().0 == name {
        response_values(fields.drop_last(), name).push(fields.last().1)
    } else {
        response_values(fields.drop_last(), name)
    }
}

/// The value that a client reads where there is one.
pub open spec fn optional_value(value: Option<Seq<char>>) -> Seq<Seq<char>> {
    match value {
        Some(v) => seq![v],
        None => Seq::empty(),
    }
}

/// The values in two lists of header fields are those in the first and then those in the second.
pub proof fn lemma_response_values_add(
    first: Seq<(Seq<char>, Seq<char>)>,
    second: Seq<(Seq<char>, Seq<char>)>,
    name: Seq<char>,
)
    ensures
        response_values(first + second, name) == response_values(first, name) + response_values(
            second,
            name,
        ),
    decreases second.len(),
{
    if second.len() == 0 {
        assert(first + second =~= first);
    } else {
        lemma_response_values_add(first, second.drop_last(), name);
        assert((first + second).drop_last() =~= first + second.drop_last());
        assert((first + second).last() == second.last());
    }
}

/// The values after one more field.
pub proof fn lemma_response_values_push(
    fields: Seq<(Seq<char>, Seq<char>)>,
    field: (Seq<char>, Seq<char>),
    name: Seq<char>,
)
    ensures
        response_values(fields.push(field), name) == response_values(fields, name)
            + optional_value(
            if field.0 == name {
                Some(field.1)
            } else {
                None
            },
        ),
{
    assert(fields.push(field).drop_last() =~= fields);
    assert(fields.push(field).last() == field);
}

/// A list without a name holds no value for it.
pub proof fn lemma_no_response_values(fields: Seq<(Seq<char>, Seq<char>)>, name: Seq<char>)
    requires
        forall|i: int| 0 <= i < fields.len() ==> (#[trigger] fields[i]).0 != name,
    ensures
        response_values(fields, name) == Seq::<Seq<char>>::empty(),
    decreases fields.len(),
{
    if fields.len() > 0 {
        let rest = fields.drop_last();
        assert forall|i: int| 0 <= i < rest.len() implies (#[trigger] rest[i]).0 != name by {
            assert(rest[i] == fields[i]);
        }
        lemma_no_response_values(rest, name);
        assert(fields.last() == fields[fields.len() - 1]);
    }
}

/// A field that is set has its value and no other, and every other field is as it was.
pub proof fn lemma_set_header_values(
    fields: Seq<(Seq<char>, Seq<char>)>,
    set: Seq<char>,
    value: Seq<char>,
    name: Seq<char>,
)
    ensures
        response_values(set_header(fields, set, value), name) == if name == set {
            seq![value]
        } else {
            response_values(fields, name)
        },
    decreases fields.len(),
{
    reveal(Seq::filter);
    let after = set_header(fields, set, value);
    if fields.len() == 0 {
        assert(after =~= seq![(set, value)]);
        lemma_response_values_push(Seq::empty(), (set, value), name);
        assert(Seq::<(Seq<char>, Seq<char>)>::empty().push((set, value)) =~= after);
        assert(response_values(after, name) =~= if name == set {
            seq![value]
        } else {
            Seq::empty()
        });
        assert(response_values(fields, name) =~= Seq::<Seq<char>>::empty());
    } else {
        let rest = fields.drop_last();
        let before = set_header(rest, set, value);
        lemma_set_header_values(rest, set, value, name);
        let kept = before.drop_last();
        assert(before.last() == (set, value));
        lemma_response_values_push(kept, (set, value), name);
        assert(kept.push((set, value)) =~= before);
        if fields.last().0 == set {
            assert(after =~= before);
        } else {
            let more = kept.push(fields.last());
            assert(after =~= more.push((set, value)));
            lemma_response_values_push(kept, fields.last(), name);
            lemma_response_values_push(more, (set, value), name);
            if name == set {
                assert(response_values(more, name) =~= response_values(kept, name));
                assert(response_values(after, name) =~= response_values(before, name));
            } else {
                assert(response_values(before, name) =~= response_values(kept, name));
                assert(response_values(after, name) =~= response_values(fields, name));
            }
        }
    }
}

} // verus!
