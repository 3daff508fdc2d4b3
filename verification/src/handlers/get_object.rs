//! `GetObject`: byte ranges and response overrides.
use crate::collections::pairs;
use crate::error::{
    invalid_range, invalid_request, put_header, set_header, with_header, ErrorView, S3Error,
};
use crate::handlers::head_object::{
    conditional_response, conditions, metadata_answer, object_headers, object_metadata_headers,
    Verdict,
};
use crate::handlers::query::{unique_query_param, unique_value};
use crate::http::{first_text, HeaderMap};
use crate::response::{
    add_header, lemma_set_header_values, response_values, BodyView, ResponseBody, S3Response,
    S3ResponseView,
};
use crate::s3::types::RequestId;
use crate::storage::model::{MetadataView, ObjectMetadata};
use crate::text::{
    chars_of, contains_char, decimal, decimal_text, parse_number, parse_unsigned, result_view,
    split_at_first, split_once, strip_prefix, without_prefix,
};
use vstd::prelude::*;

verus! {

// ---------------------------------------------------------------------------------------------
// Byte ranges
// ---------------------------------------------------------------------------------------------
/// A range of the bytes of an object, both ends included.
#[derive(Clone, Copy, Debug, PartialEq, Eq, Structural)]
pub struct ByteRange {
    /// The first byte.
    pub start: u64,
    /// The last byte.
    pub end: u64,
}

impl ByteRange {
    /// The number of bytes in the range.
    pub fn len(self) -> (length: u64)
        requires
            self.start <= self.end,
            self.end - self.start < u64::MAX,
        ensures
            length == self.end - self.start + 1,
    {
        self.end - self.start + 1
    }
}

/// The error of a range that an object of the given size cannot satisfy.
pub open spec fn unsatisfiable_range(size: nat) -> ErrorView {
    with_header(
        invalid_range("Range is not satisfiable"@),
        "content-range"@,
        "bytes */"@ + decimal(size),
    )
}

fn unsatisfiable_range_error(object_size: u64) -> (error: S3Error)
    ensures
        error@ == unsatisfiable_range(object_size as nat),
{
    S3Error::invalid_range("Range is not satisfiable").with_header(
        "content-range",
        "bytes */".to_owned().concat(decimal_text(object_size).as_str()).as_str(),
    )
}

/// The position that a range gives.
pub open spec fn range_number(text: Seq<char>) -> Result<nat, ErrorView> {
    match parse_unsigned(text, 10, u64::MAX as nat) {
        Some(number) => Ok(number),
        None => Err(invalid_range("Range contains an invalid byte position"@)),
    }
}

fn parse_range_number(value: &str) -> (result: Result<u64, S3Error>)
    ensures
        match result {
            Ok(number) => range_number(value@) == Ok::<_, ErrorView>(number as nat),
            Err(error) => range_number(value@) == Err::<nat, _>(error@),
        },
{
    match parse_number(value, 10, u64::MAX) {
        Some(number) => Ok(number),
        None => Err(S3Error::invalid_range("Range contains an invalid byte position")),
    }
}

/// The smaller of two numbers.
pub open spec fn smaller(a: nat, b: nat) -> nat {
    if a < b {
        a
    } else {
        b
    }
}

/// The first and last byte that `start-end` selects of an object that is not empty: from a first
/// byte to a last one or to the end, or a number of bytes at the end.
pub open spec fn selected_bytes(start: Seq<char>, end: Seq<char>, size: nat) -> Result<
    (nat, nat),
    ErrorView,
> {
    if start.len() > 0 && end.len() > 0 {
        match range_number(start) {
            Err(error) => Err(error),
            Ok(first) => match range_number(end) {
                Err(error) => Err(error),
                Ok(last) => if first > last || first >= size {
                    Err(unsatisfiable_range(size))
                } else {
                    Ok((first, smaller(last, (size - 1) as nat)))
                },
            },
        }
    } else if start.len() > 0 {
        match range_number(start) {
            Err(error) => Err(error),
            Ok(first) => if first >= size {
                Err(unsatisfiable_range(size))
            } else {
                Ok((first, (size - 1) as nat))
            },
        }
    } else if end.len() > 0 {
        match range_number(end) {
            Err(error) => Err(error),
            Ok(count) => if count == 0 {
                Err(unsatisfiable_range(size))
            } else {
                Ok(((size - smaller(count, size)) as nat, (size - 1) as nat))
            },
        }
    } else {
        Err(unsatisfiable_range(size))
    }
}

/// The bytes that a request asks for.
pub open spec fn requested_range(headers: Seq<(Seq<char>, Seq<u8>)>, size: nat) -> Result<
    Option<(nat, nat)>,
    ErrorView,
> {
    match first_text(headers, "range"@) {
        None => Ok(None),
        Some(None) => Err(invalid_range("Range must be valid ASCII"@)),
        Some(Some(text)) => match strip_prefix(text, "bytes="@) {
            None => Err(invalid_range("Only bytes ranges are supported"@)),
            Some(range) => if range.contains(',') {
                Err(invalid_range("Multiple byte ranges are not supported"@))
            } else {
                match split_once(range, '-') {
                    None => Err(invalid_range("Range must use bytes=start-end syntax"@)),
                    Some((start, end)) => if size == 0 {
                        Err(unsatisfiable_range(size))
                    } else {
                        match selected_bytes(start, end, size) {
                            Err(error) => Err(error),
                            Ok(bytes) => Ok(Some(bytes)),
                        }
                    },
                }
            },
        },
    }
}

/// Whatever range a request selects lies within the object: it is not empty, and its last byte is
/// one of the object's.
pub proof fn law_ranges_lie_within_the_object(headers: Seq<(Seq<char>, Seq<u8>)>, size: nat)
    ensures
        requested_range(headers, size) matches Ok(Some((first, last))) ==> first <= last < size,
{
}

fn select_bytes(start: &str, end: &str, size: u64) -> (result: Result<ByteRange, S3Error>)
    requires
        size > 0,
    ensures
        match result {
            Ok(range) => selected_bytes(start@, end@, size as nat) == Ok::<_, ErrorView>(
                (range.start as nat, range.end as nat),
            ),
            Err(error) => selected_bytes(start@, end@, size as nat) == Err::<(nat, nat), _>(
                error@,
            ),
        },
{
    if !start.is_empty() && !end.is_empty() {
        let first: u64 = parse_range_number(start)?;
        let last: u64 = parse_range_number(end)?;
        if first > last || first >= size {
            return Err(unsatisfiable_range_error(size));
        }
        let end: u64 = if last < size - 1 {
            last
        } else {
            size - 1
        };
        return Ok(ByteRange { start: first, end });
    }
    if !start.is_empty() {
        let first: u64 = parse_range_number(start)?;
        if first >= size {
            return Err(unsatisfiable_range_error(size));
        }
        return Ok(ByteRange { start: first, end: size - 1 });
    }
    if !end.is_empty() {
        let count: u64 = parse_range_number(end)?;
        if count == 0 {
            return Err(unsatisfiable_range_error(size));
        }
        let start: u64 = if count < size {
            size - count
        } else {
            0
        };
        return Ok(ByteRange { start, end: size - 1 });
    }
    Err(unsatisfiable_range_error(size))
}

/// Reads the range that a request asks for.
pub fn parse_range_header(headers: &HeaderMap, object_size: u64) -> (result: Result<
    Option<ByteRange>,
    S3Error,
>)
    ensures
        match result {
            Ok(None) => requested_range(headers@, object_size as nat) == Ok::<_, ErrorView>(
                None::<(nat, nat)>,
            ),
            Ok(Some(range)) => requested_range(headers@, object_size as nat) == Ok::<_, ErrorView>(
                Some((range.start as nat, range.end as nat)),
            ) && range.start <= range.end < object_size,
            Err(error) => requested_range(headers@, object_size as nat) == Err::<
                Option<(nat, nat)>,
                _,
            >(error@),
        },
{
    let value = match headers.get_text("range") {
        None => {
            return Ok(None);
        },
        Some(None) => {
            return Err(S3Error::invalid_range("Range must be valid ASCII"));
        },
        Some(Some(value)) => value,
    };
    let range = match without_prefix(value.as_str(), "bytes=") {
        Some(range) => range,
        None => {
            return Err(S3Error::invalid_range("Only bytes ranges are supported"));
        },
    };
    if contains_char(range.as_str(), ',') {
        return Err(S3Error::invalid_range("Multiple byte ranges are not supported"));
    }
    let (start, end) = match split_at_first(range.as_str(), '-') {
        Some(ends) => ends,
        None => {
            return Err(S3Error::invalid_range("Range must use bytes=start-end syntax"));
        },
    };
    if object_size == 0 {
        return Err(unsatisfiable_range_error(object_size));
    }
    proof {
        law_ranges_lie_within_the_object(headers@, object_size as nat);
    }
    match select_bytes(start.as_str(), end.as_str(), object_size) {
        Ok(range) => Ok(Some(range)),
        Err(error) => Err(error),
    }
}

// ---------------------------------------------------------------------------------------------
// Response overrides
// ---------------------------------------------------------------------------------------------
/// The parameters that override response header fields, each with the field's name.
pub open spec fn overrides() -> Seq<(Seq<char>, Seq<char>)> {
    seq![
        ("response-cache-control"@, "cache-control"@),
        ("response-content-disposition"@, "content-disposition"@),
        ("response-content-encoding"@, "content-encoding"@),
        ("response-content-language"@, "content-language"@),
        ("response-content-type"@, "content-type"@),
        ("response-expires"@, "expires"@),
    ]
}

/// Whether text can be sent as the value of a header field.
pub open spec fn fits_field(text: Seq<char>) -> bool {
    forall|i: int|
        0 <= i < text.len() ==> ((#[trigger] text[i]) >= ' ' && text[i] != '\u{7f}') || text[i]
            == '\t'
}

fn can_be_sent(text: &str) -> (result: bool)
    ensures
        result == fits_field(text@),
{
    let chars = chars_of(text);
    let mut i: usize = 0;
    while i < chars.len()
        invariant
            i <= chars@.len(),
            chars@ == text@,
            forall|j: int|
                0 <= j < i ==> ((#[trigger] text@[j]) >= ' ' && text@[j] != '\u{7f}') || text@[j]
                    == '\t',
        decreases chars.len() - i,
    {
        let c: char = chars[i];
        if !((c >= ' ' && c != '\u{7f}') || c == '\t') {
            assert(text@[i as int] == c);
            return false;
        }
        i += 1;
    }
    true
}

/// Response header fields with the overrides of a query applied, one after the other.
pub open spec fn overridden(
    headers: Seq<(Seq<char>, Seq<char>)>,
    query: Seq<char>,
    names: Seq<(Seq<char>, Seq<char>)>,
) -> Result<Seq<(Seq<char>, Seq<char>)>, ErrorView>
    decreases names.len(),
{
    if names.len() == 0 {
        Ok(headers)
    } else {
        let (parameter, field) = names.last();
        match overridden(headers, query, names.drop_last()) {
            Err(error) => Err(error),
            Ok(so_far) => match unique_value(query, parameter) {
                Err(error) => Err(error),
                Ok(None) => Ok(so_far),
                Ok(Some(value)) => if fits_field(value) {
                    Ok(set_header(so_far, field, value))
                } else {
                    Err(invalid_request(parameter + " is not a valid header value"@))
                },
            },
        }
    }
}

proof fn lemma_overridden_fail(
    headers: Seq<(Seq<char>, Seq<char>)>,
    query: Seq<char>,
    names: Seq<(Seq<char>, Seq<char>)>,
    n: int,
)
    requires
        0 <= n <= names.len(),
        overridden(headers, query, names.take(n)) is Err,
    ensures
        overridden(headers, query, names) == overridden(headers, query, names.take(n)),
    decreases names.len() - n,
{
    if n < names.len() {
        assert(names.take(n + 1).drop_last() =~= names.take(n));
        lemma_overridden_fail(headers, query, names, n + 1);
    } else {
        assert(names.take(n) =~= names);
    }
}

fn list_overrides() -> (names: Vec<(&'static str, &'static str)>)
    ensures
        names@.map_values(|n: (&'static str, &'static str)| (n.0@, n.1@)) == overrides(),
{
    let names: Vec<(&'static str, &'static str)> = vec![
        ("response-cache-control", "cache-control"),
        ("response-content-disposition", "content-disposition"),
        ("response-content-encoding", "content-encoding"),
        ("response-content-language", "content-language"),
        ("response-content-type", "content-type"),
        ("response-expires", "expires"),
    ];
    assert(names@.map_values(|n: (&'static str, &'static str)| (n.0@, n.1@)) =~= overrides());
    names
}

/// Applies the overrides of a query to response header fields.
pub fn apply_response_overrides(headers: Vec<(String, String)>, query: &str) -> (result: Result<
    Vec<(String, String)>,
    S3Error,
>)
    ensures
        match result {
            Ok(fields) => overridden(pairs(headers@), query@, overrides()) == Ok::<_, ErrorView>(
                pairs(fields@),
            ),
            Err(error) => overridden(pairs(headers@), query@, overrides()) == Err::<
                Seq<(Seq<char>, Seq<char>)>,
                _,
            >(error@),
        },
{
    let names = list_overrides();
    let ghost all = overrides();
    let ghost start = pairs(headers@);
    let mut fields = headers;
    let mut i: usize = 0;
    assert(all.take(0) =~= Seq::<(Seq<char>, Seq<char>)>::empty());
    while i < names.len()
        invariant
            i <= names@.len(),
            start == pairs(headers@),
            all == overrides(),
            names@.map_values(|n: (&'static str, &'static str)| (n.0@, n.1@)) == all,
            overridden(start, query@, all.take(i as int)) == Ok::<_, ErrorView>(pairs(fields@)),
        decreases names.len() - i,
    {
        let (parameter, field) = names[i];
        proof {
            assert(all[i as int] == (parameter@, field@));
            assert(all.take(i + 1).drop_last() =~= all.take(i as int));
            assert(all.take(i + 1).last() == all[i as int]);
            if overridden(start, query@, all.take(i + 1)) is Err {
                lemma_overridden_fail(start, query@, all, i + 1);
            }
        }
        match unique_query_param(query, parameter) {
            Err(error) => {
                return Err(error);
            },
            Ok(None) => {},
            Ok(Some(value)) => {
                if !can_be_sent(value.as_str()) {
                    let message = parameter.to_owned().concat(" is not a valid header value");
                    return Err(S3Error::invalid_request(message.as_str()));
                }
                fields = put_header(&fields, field, value.as_str());
            },
        }
        i += 1;
    }
    assert(all.take(i as int) =~= all);
    Ok(fields)
}

// ---------------------------------------------------------------------------------------------
// Responses
// ---------------------------------------------------------------------------------------------
/// The value of `Content-Range` for a range.
pub open spec fn content_range(first: nat, last: nat, size: nat) -> Seq<char> {
    "bytes "@ + decimal(first) + "-"@ + decimal(last) + "/"@ + decimal(size)
}

/// The response that sends a whole object or a range of it.
pub open spec fn object_answer(
    metadata: MetadataView,
    request_id: Seq<char>,
    range: Option<(nat, nat)>,
    query: Seq<char>,
) -> Result<S3ResponseView, ErrorView> {
    let (status, headers, body) = match range {
        None => (
            200u16,
            object_headers(metadata, request_id, metadata.size),
            BodyView::Object { start: 0, length: None },
        ),
        Some((first, last)) => (
            206u16,
            object_headers(metadata, request_id, (last - first + 1) as nat).push(
                ("content-range"@, content_range(first, last, metadata.size)),
            ),
            BodyView::Object { start: first, length: Some((last - first + 1) as nat) },
        ),
    };
    match overridden(headers, query, overrides()) {
        Err(error) => Err(error),
        Ok(fields) => Ok(S3ResponseView { status, headers: fields, body, decoded_bytes: None }),
    }
}

/// What a GET request for an object is answered.
pub open spec fn get_outcome(
    headers: Seq<(Seq<char>, Seq<u8>)>,
    query: Seq<char>,
    metadata: MetadataView,
    request_id: Seq<char>,
) -> Result<S3ResponseView, ErrorView> {
    match conditions(headers, metadata) {
        Verdict::Refused(error) => Err(error),
        Verdict::NotModified => Ok(metadata_answer(metadata, request_id, 304, 0)),
        Verdict::Proceed => match requested_range(headers, metadata.size) {
            Err(error) => Err(error),
            Ok(range) => object_answer(metadata, request_id, range, query),
        },
    }
}

/// Answers a GET request for an object that was found.
pub fn get_object_response(
    headers: &HeaderMap,
    query: &str,
    metadata: &ObjectMetadata,
    request_id: &RequestId,
) -> (result: Result<S3Response, S3Error>)
    ensures
        result_view(result) == get_outcome(headers@, query@, metadata@, request_id@),
{
    match conditional_response(headers, metadata, request_id) {
        Err(error) => {
            return Err(error);
        },
        Ok(Some(response)) => {
            return Ok(response);
        },
        Ok(None) => {},
    }
    let range = match parse_range_header(headers, metadata.size) {
        Ok(range) => range,
        Err(error) => {
            return Err(error);
        },
    };
    let status: u16;
    let fields: Vec<(String, String)>;
    let body: ResponseBody;
    match range {
        Some(range) => {
            let length: u64 = range.len();
            let mut described = object_metadata_headers(metadata, request_id, length);
            let mut value = "bytes ".to_owned();
            value.append(decimal_text(range.start).as_str());
            value.append("-");
            value.append(decimal_text(range.end).as_str());
            value.append("/");
            value.append(decimal_text(metadata.size).as_str());
            add_header(&mut described, "content-range", value.as_str());
            status = 206;
            fields = described;
            body = ResponseBody::Object { start: range.start, length: Some(length) };
        },
        None => {
            status = 200;
            fields = object_metadata_headers(metadata, request_id, metadata.size);
            body = ResponseBody::Object { start: 0, length: None };
        },
    }
    match apply_response_overrides(fields, query) {
        Ok(headers) => Ok(S3Response { status, headers, body, decoded_bytes: None }),
        Err(error) => Err(error),
    }
}

/// The response header fields that a client may ask for in other words.
pub open spec fn overridable_fields() -> Seq<Seq<char>> {
    seq![
        "cache-control"@,
        "content-disposition"@,
        "content-encoding"@,
        "content-language"@,
        "content-type"@,
        "expires"@,
    ]
}

/// What a query asks a response header field to be: the value of the parameter that is named
/// `response-` and then the name of the field.
pub open spec fn asked_value(query: Seq<char>, field: Seq<char>) -> Result<
    Option<Seq<char>>,
    ErrorView,
> {
    unique_value(query, "response-"@ + field)
}

/// Whether the parameters of a query for response header fields can be applied: none stands twice
/// or is not text, and each value fits a field.
pub open spec fn overrides_fit(query: Seq<char>) -> bool {
    forall|k: int|
        0 <= k < overridable_fields().len() ==> (asked_value(
            query,
            #[trigger] overridable_fields()[k],
        ) matches Ok(value) && (value is Some ==> fits_field(value->0)))
}

proof fn lemma_override_names()
    ensures
        overrides().len() == overridable_fields().len(),
        forall|k: int|
            0 <= k < overrides().len() ==> (#[trigger] overrides()[k]) == (
                "response-"@ + overridable_fields()[k],
                overridable_fields()[k],
            ),
        forall|j: int, k: int|
            0 <= j < k < overrides().len() ==> (#[trigger] overrides()[j]).1 != (
            #[trigger] overrides()[k]).1,
{
    reveal_strlit("response-");
    reveal_strlit("cache-control");
    reveal_strlit("content-disposition");
    reveal_strlit("content-encoding");
    reveal_strlit("content-language");
    reveal_strlit("content-type");
    reveal_strlit("expires");
    reveal_strlit("response-cache-control");
    reveal_strlit("response-content-disposition");
    reveal_strlit("response-content-encoding");
    reveal_strlit("response-content-language");
    reveal_strlit("response-content-type");
    reveal_strlit("response-expires");
    assert("response-"@ + "cache-control"@ =~= "response-cache-control"@);
    assert("response-"@ + "content-disposition"@ =~= "response-content-disposition"@);
    assert("response-"@ + "content-encoding"@ =~= "response-content-encoding"@);
    assert("response-"@ + "content-language"@ =~= "response-content-language"@);
    assert("response-"@ + "content-type"@ =~= "response-content-type"@);
    assert("response-"@ + "expires"@ =~= "response-expires"@);
    assert("content-encoding"@[8] == 'e' && "content-language"@[8] == 'l');
}

proof fn lemma_overridden_values(
    headers: Seq<(Seq<char>, Seq<char>)>,
    query: Seq<char>,
    names: Seq<(Seq<char>, Seq<char>)>,
)
    requires
        forall|j: int, k: int|
            0 <= j < k < names.len() ==> (#[trigger] names[j]).1 != (#[trigger] names[k]).1,
    ensures
        overridden(headers, query, names) is Ok <==> forall|k: int|
            0 <= k < names.len() ==> (unique_value(query, (#[trigger] names[k]).0) matches Ok(value)
                && (value is Some ==> fits_field(value->0))),
        overridden(headers, query, names) matches Ok(fields) ==> {
            &&& forall|k: int|
                0 <= k < names.len() ==> response_values(fields, (#[trigger] names[k]).1)
                    == match unique_value(query, names[k].0) {
                    Ok(Some(value)) => seq![value],
                    _ => response_values(headers, names[k].1),
                }
            &&& forall|name: Seq<char>|
                (forall|k: int| 0 <= k < names.len() ==> (#[trigger] names[k]).1 != name)
                    ==> #[trigger] response_values(fields, name) == response_values(headers, name)
        },
    decreases names.len(),
{
    if names.len() > 0 {
        let rest = names.drop_last();
        let last = names[names.len() - 1];
        assert(names.last() == last);
        assert(forall|k: int| 0 <= k < rest.len() ==> rest[k] == names[k]);
        lemma_overridden_values(headers, query, rest);
        if overridden(headers, query, rest) is Ok {
            assert forall|k: int| 0 <= k < rest.len() implies (unique_value(
                query,
                (#[trigger] names[k]).0,
            ) matches Ok(value) && (value is Some ==> fits_field(value->0))) by {
                assert(rest[k] == names[k]);
            }
        } else {
            let k = choose|k: int|
                0 <= k < rest.len() && !(unique_value(query, (#[trigger] rest[k]).0) matches Ok(
                    value,
                ) && (value is Some ==> fits_field(value->0)));
            assert(names[k] == rest[k]);
        }
        if overridden(headers, query, names) is Ok {
            let before = overridden(headers, query, rest)->Ok_0;
            let fields = overridden(headers, query, names)->Ok_0;
            assert forall|k: int| 0 <= k < names.len() implies response_values(
                fields,
                (#[trigger] names[k]).1,
            ) == match unique_value(query, names[k].0) {
                Ok(Some(value)) => seq![value],
                _ => response_values(headers, names[k].1),
            } by {
                if unique_value(query, last.0)->Ok_0 is Some {
                    lemma_set_header_values(
                        before,
                        last.1,
                        unique_value(query, last.0)->Ok_0->0,
                        names[k].1,
                    );
                }
                if k < rest.len() {
                    assert(rest[k] == names[k]);
                    assert(names[k].1 != last.1);
                } else {
                    assert forall|j: int| 0 <= j < rest.len() implies (#[trigger] rest[j]).1
                        != last.1 by {
                        assert(names[j].1 != names[names.len() - 1].1);
                    }
                    assert(response_values(before, last.1) == response_values(headers, last.1));
                }
            }
            assert forall|name: Seq<char>|
                (forall|k: int| 0 <= k < names.len() ==> (#[trigger] names[k]).1
                    != name) implies #[trigger] response_values(fields, name) == response_values(
                headers,
                name,
            ) by {
                assert(names[names.len() - 1].1 != name);
                assert forall|j: int| 0 <= j < rest.len() implies (#[trigger] rest[j]).1
                    != name by {
                    assert(names[j].1 != name);
                }
                assert(response_values(before, name) == response_values(headers, name));
                if unique_value(query, last.0)->Ok_0 is Some {
                    lemma_set_header_values(
                        before,
                        last.1,
                        unique_value(query, last.0)->Ok_0->0,
                        name,
                    );
                }
            }
        }
    }
}

/// A query that asks for no response header field leaves them all as they are.
pub proof fn lemma_nothing_overridden(
    headers: Seq<(Seq<char>, Seq<char>)>,
    query: Seq<char>,
    name: Seq<char>,
)
    requires
        forall|k: int|
            0 <= k < overridable_fields().len() ==> asked_value(
                query,
                #[trigger] overridable_fields()[k],
            ) == Ok::<_, ErrorView>(None::<Seq<char>>),
    ensures
        overridden(headers, query, overrides()) is Ok,
        response_values(overridden(headers, query, overrides())->Ok_0, name) == response_values(
            headers,
            name,
        ),
{
    lemma_override_names();
    lemma_overridden_values(headers, query, overrides());
    assert forall|k: int| 0 <= k < overrides().len() implies unique_value(
        query,
        (#[trigger] overrides()[k]).0,
    ) == Ok::<_, ErrorView>(None::<Seq<char>>) by {
        assert(asked_value(query, overridable_fields()[k]) == Ok::<_, ErrorView>(
            None::<Seq<char>>,
        ));
    }
    if exists|k: int| 0 <= k < overrides().len() && (#[trigger] overrides()[k]).1 == name {
        let k = choose|k: int| 0 <= k < overrides().len() && (#[trigger] overrides()[k]).1 == name;
        assert(unique_value(query, overrides()[k].0) == Ok::<_, ErrorView>(None::<Seq<char>>));
    }
}

/// Each override parameter sets the response header field that it names, and nothing else. A GET
/// request whose conditions and range are in order is answered if and only if its overrides fit. The
/// answer then has, for each field that the query asks for, the value asked for and no other; every
/// other field, the status and the body are those of the answer to the same request with a query
/// that asks for nothing.
pub proof fn law_overrides_set_the_fields_they_name(
    headers: Seq<(Seq<char>, Seq<u8>)>,
    query: Seq<char>,
    other: Seq<char>,
    metadata: MetadataView,
    request_id: Seq<char>,
    field: Seq<char>,
)
    requires
        conditions(headers, metadata) is Proceed,
        requested_range(headers, metadata.size) is Ok,
        forall|k: int|
            0 <= k < overridable_fields().len() ==> asked_value(
                other,
                #[trigger] overridable_fields()[k],
            ) == Ok::<_, ErrorView>(None::<Seq<char>>),
    ensures
        get_outcome(headers, other, metadata, request_id) is Ok,
        get_outcome(headers, query, metadata, request_id) is Ok <==> overrides_fit(query),
        get_outcome(headers, query, metadata, request_id) matches Ok(answer) ==> {
            let plain = get_outcome(headers, other, metadata, request_id)->Ok_0;
            &&& answer.status == plain.status
            &&& answer.body == plain.body
            &&& response_values(answer.headers, field) == if overridable_fields().contains(field)
                && asked_value(query, field)->Ok_0 is Some {
                seq![asked_value(query, field)->Ok_0->0]
            } else {
                response_values(plain.headers, field)
            }
        },
{
    let range = requested_range(headers, metadata.size)->Ok_0;
    let described = match range {
        None => object_headers(metadata, request_id, metadata.size),
        Some((first, last)) => object_headers(
            metadata,
            request_id,
            (last - first + 1) as nat,
        ).push(("content-range"@, content_range(first, last, metadata.size))),
    };
    lemma_override_names();
    lemma_overridden_values(described, query, overrides());
    lemma_overridden_values(described, other, overrides());
    assert forall|k: int| 0 <= k < overrides().len() implies unique_value(
        other,
        (#[trigger] overrides()[k]).0,
    ) == Ok::<_, ErrorView>(None::<Seq<char>>) by {
        assert(asked_value(other, overridable_fields()[k]) == Ok::<_, ErrorView>(
            None::<Seq<char>>,
        ));
    }
    if overridden(described, query, overrides()) is Ok {
        assert forall|k: int| 0 <= k < overridable_fields().len() implies (asked_value(
            query,
            #[trigger] overridable_fields()[k],
        ) matches Ok(value) && (value is Some ==> fits_field(value->0))) by {
            assert(overrides()[k].0 == "response-"@ + overridable_fields()[k]);
        }
    }
    if overrides_fit(query) {
        assert forall|k: int| 0 <= k < overrides().len() implies (unique_value(
            query,
            (#[trigger] overrides()[k]).0,
        ) matches Ok(value) && (value is Some ==> fits_field(value->0))) by {
            assert(asked_value(query, overridable_fields()[k]) is Ok);
        }
    }
    if get_outcome(headers, query, metadata, request_id) is Ok {
        if overridable_fields().contains(field) {
            let k = choose|k: int|
                0 <= k < overridable_fields().len() && overridable_fields()[k] == field;
            assert(overrides()[k] == ("response-"@ + field, field));
        } else {
            assert forall|k: int| 0 <= k < overrides().len() implies (#[trigger] overrides()[k]).1
                != field by {
                assert(overridable_fields()[k] == overrides()[k].1);
                assert(overridable_fields().contains(overridable_fields()[k]));
            }
        }
    }
}

// ---------------------------------------------------------------------------------------------
// Streaming
// ---------------------------------------------------------------------------------------------
/// How much of an object is still to be sent.
#[derive(Debug, PartialEq, Eq)]
pub struct StreamProgress {
    remaining: Option<u64>,
    buffer_size: usize,
}

/// A [`StreamProgress`] as a mathematical value.
pub struct ProgressView {
    pub remaining: Option<nat>,
    pub buffer_size: nat,
}

impl View for StreamProgress {
    type V = ProgressView;

    closed spec fn view(&self) -> ProgressView {
        ProgressView {
            remaining: match self.remaining {
                Some(r) => Some(r as nat),
                None => None,
            },
            buffer_size: self.buffer_size as nat,
        }
    }
}

/// How many bytes are read next at most; nothing where all are sent.
pub open spec fn stream_limit(progress: ProgressView) -> Option<nat> {
    match progress.remaining {
        None => Some(progress.buffer_size),
        Some(left) => if left == 0 {
            None
        } else {
            Some(smaller(left, progress.buffer_size))
        },
    }
}

/// What is still to be sent after `count` bytes were.
pub open spec fn stream_sent(progress: ProgressView, count: nat) -> ProgressView {
    ProgressView {
        remaining: match progress.remaining {
            None => None,
            Some(left) => Some((left - count) as nat),
        },
        ..progress
    }
}

impl StreamProgress {
    /// Starts to send `length` bytes, or all there are where there is no length.
    pub fn new(length: Option<u64>, buffer_size: usize) -> (progress: Self)
        ensures
            progress@.buffer_size == buffer_size,
            match length {
                Some(l) => progress@.remaining == Some(l as nat),
                None => progress@.remaining is None,
            },
    {
        StreamProgress { remaining: length, buffer_size }
    }

    /// How many bytes are read next at most; nothing where all are sent.
    pub fn next_read(&self) -> (size: Option<usize>)
        ensures
            match size {
                Some(limit) => stream_limit(self@) == Some(limit as nat),
                None => stream_limit(self@) is None,
            },
    {
        match self.remaining {
            None => Some(self.buffer_size),
            Some(left) => {
                if left == 0 {
                    None
                } else if left < self.buffer_size as u64 {
                    Some(left as usize)
                } else {
                    Some(self.buffer_size)
                }
            },
        }
    }

    /// Counts bytes that were read and sent.
    pub fn sent(&mut self, count: usize)
        requires
            old(self)@.remaining is Some ==> count <= old(self)@.remaining->0,
        ensures
            final(self)@ == stream_sent(old(self)@, count as nat),
    {
        match self.remaining {
            None => {},
            Some(left) => {
                self.remaining = Some(left - count as u64);
            },
        }
    }
}

} // verus!
