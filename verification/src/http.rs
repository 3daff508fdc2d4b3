//! HTTP message parts as plain values: header fields, methods and request targets.
use crate::text::{lowercase, same, to_lowercase};
use vstd::prelude::*;
use vstd::utf8::encode_utf8;

verus! {

// ---------------------------------------------------------------------------------------------
// Header fields
// ---------------------------------------------------------------------------------------------
/// One header field: a name in lowercase and the bytes of its value.
#[derive(Debug, PartialEq, Eq)]
pub struct HeaderField {
    name: String,
    value: Vec<u8>,
}

impl View for HeaderField {
    type V = (Seq<char>, Seq<u8>);

    closed spec fn view(&self) -> (Seq<char>, Seq<u8>) {
        (self.name@, self.value@)
    }
}

/// The header fields of a message, in the order in which they were added.
#[derive(Debug, PartialEq, Eq)]
pub struct HeaderMap {
    fields: Vec<HeaderField>,
}

impl View for HeaderMap {
    type V = Seq<(Seq<char>, Seq<u8>)>;

    closed spec fn view(&self) -> Seq<(Seq<char>, Seq<u8>)> {
        self.fields@.map_values(|f: HeaderField| f@)
    }
}

/// The values of the fields with the given name, in order.
pub open spec fn values(fields: Seq<(Seq<char>, Seq<u8>)>, name: Seq<char>) -> Seq<Seq<u8>>
    decreases fields.len(),
{
    if fields.len() == 0 {
        Seq::empty()
    } else if fields.last().0 == name {
        values(fields.drop_last(), name).push(fields.last().1)
    } else {
        values(fields.drop_last(), name)
    }
}

/// The fields that do not have the given name, in order.
pub open spec fn other_fields(fields: Seq<(Seq<char>, Seq<u8>)>, name: Seq<char>) -> Seq<
    (Seq<char>, Seq<u8>),
>
    decreases fields.len(),
{
    if fields.len() == 0 {
        Seq::empty()
    } else if fields.last().0 == name {
        other_fields(fields.drop_last(), name)
    } else {
        other_fields(fields.drop_last(), name).push(fields.last())
    }
}

/// Whether there is a field with the given name.
pub open spec fn has_field(fields: Seq<(Seq<char>, Seq<u8>)>, name: Seq<char>) -> bool {
    values(fields, name).len() > 0
}

/// Whether a byte of a field value can be read as text: visible ASCII, space or tab.
pub open spec fn is_text_byte(byte: u8) -> bool {
    32 <= byte < 127 || byte == 9
}

/// Whether a byte can occur in a field value at all: anything but control characters other than
/// tab.
pub open spec fn is_field_byte(byte: u8) -> bool {
    byte >= 32 && byte != 127 || byte == 9
}

/// The text of a field value, where all its bytes can be read as text.
pub open spec fn field_text(value: Seq<u8>) -> Option<Seq<char>> {
    if forall|i: int| 0 <= i < value.len() ==> is_text_byte(#[trigger] value[i]) {
        Some(value.map_values(|b: u8| b as char))
    } else {
        None
    }
}

/// The text of the first field with the given name: nothing where there is no such field, and
/// nothing inside where its value cannot be read as text.
pub open spec fn first_text(fields: Seq<(Seq<char>, Seq<u8>)>, name: Seq<char>) -> Option<
    Option<Seq<char>>,
> {
    if has_field(fields, name) {
        Some(field_text(values(fields, name)[0]))
    } else {
        None
    }
}

/// Reads a field value as text.
pub fn value_text(value: &Vec<u8>) -> (result: Option<String>)
    ensures
        match result {
            Some(text) => field_text(value@) == Some(text@),
            None => field_text(value@) is None,
        },
{
    let mut text = String::new();
    let mut i: usize = 0;
    while i < value.len()
        invariant
            i <= value@.len(),
            text@ == value@.take(i as int).map_values(|b: u8| b as char),
            forall|j: int| 0 <= j < i ==> is_text_byte(#[trigger] value@[j]),
        decreases value.len() - i,
    {
        let byte: u8 = value[i];
        if !((byte >= 32 && byte < 127) || byte == 9) {
            assert(!is_text_byte(value@[i as int]));
            return None;
        }
        text.push(byte as char);
        assert(value@.take(i + 1).map_values(|b: u8| b as char) =~= value@.take(i as int).map_values(
            |b: u8| b as char,
        ).push(byte as char));
        i += 1;
    }
    assert(value@.take(i as int) =~= value@);
    Some(text)
}

impl HeaderMap {
    /// A message without header fields.
    pub fn new() -> (headers: Self)
        ensures
            headers@ == Seq::<(Seq<char>, Seq<u8>)>::empty(),
    {
        let fields: Vec<HeaderField> = Vec::new();
        assert(fields@.map_values(|f: HeaderField| f@) =~= Seq::<(Seq<char>, Seq<u8>)>::empty());
        HeaderMap { fields }
    }

    /// The number of fields.
    pub fn len(&self) -> (length: usize)
        ensures
            length == self@.len(),
    {
        self.fields.len()
    }

    /// The name of the field at `index`.
    pub fn name_at(&self, index: usize) -> (name: &str)
        requires
            index < self@.len(),
        ensures
            name@ == self@[index as int].0,
    {
        self.fields[index].name.as_str()
    }

    /// The value of the field at `index`.
    pub fn value_at(&self, index: usize) -> (value: &Vec<u8>)
        requires
            index < self@.len(),
        ensures
            value@ == self@[index as int].1,
    {
        &self.fields[index].value
    }

    /// Adds a field after those that are there.
    pub fn append_bytes(&mut self, name: &str, value: Vec<u8>)
        ensures
            final(self)@ == old(self)@.push((lowercase(name@), value@)),
    {
        let ghost before = self.fields@;
        let field = HeaderField { name: to_lowercase(name), value };
        self.fields.push(field);
        assert(self.fields@.map_values(|f: HeaderField| f@) =~= before.map_values(
            |f: HeaderField| f@,
        ).push(field@));
    }

    /// Adds a field with a text value after those that are there.
    pub fn append(&mut self, name: &str, value: &str)
        ensures
            final(self)@ == old(self)@.push((lowercase(name@), encode_utf8(value@))),
    {
        let bytes = vstd::slice::slice_to_vec(value.as_bytes());
        self.append_bytes(name, bytes);
    }

    /// Sets a field, in place of all fields that have its name.
    pub fn insert(&mut self, name: &str, value: &str)
        ensures
            final(self)@ == other_fields(old(self)@, lowercase(name@)).push(
                (lowercase(name@), encode_utf8(value@)),
            ),
    {
        let key = to_lowercase(name);
        let mut kept: Vec<HeaderField> = Vec::new();
        let ghost all = self@;
        let mut i: usize = 0;
        assert(kept@.map_values(|f: HeaderField| f@) =~= other_fields(all.take(0), key@));
        while i < self.fields.len()
            invariant
                i <= self.fields@.len(),
                all == self.fields@.map_values(|f: HeaderField| f@),
                kept@.map_values(|f: HeaderField| f@) == other_fields(all.take(i as int), key@),
            decreases self.fields.len() - i,
        {
            proof {
                assert(all.take(i + 1).drop_last() =~= all.take(i as int));
                assert(all.take(i + 1).last() == self.fields@[i as int]@);
            }
            if !same(self.fields[i].name.as_str(), key.as_str()) {
                let mut value: Vec<u8> = Vec::new();
                value.extend_from_slice(self.fields[i].value.as_slice());
                assert(value@ =~= self.fields@[i as int].value@);
                let copy = HeaderField { name: self.fields[i].name.clone(), value };
                assert(copy@ == self.fields@[i as int]@);
                assert(kept@.push(copy).map_values(|f: HeaderField| f@) =~= kept@.map_values(
                    |f: HeaderField| f@,
                ).push(copy@));
                kept.push(copy);
            }
            i += 1;
        }
        assert(all.take(i as int) =~= all);
        self.fields = kept;
        self.append(name, value);
    }

    /// The values of the fields with the given lowercase name, in order.
    pub fn get_all(&self, name: &str) -> (found: Vec<Vec<u8>>)
        ensures
            found@.map_values(|v: Vec<u8>| v@) == values(self@, name@),
    {
        let mut found: Vec<Vec<u8>> = Vec::new();
        let ghost all = self@;
        let mut i: usize = 0;
        assert(found@.map_values(|v: Vec<u8>| v@) =~= values(all.take(0), name@));
        while i < self.fields.len()
            invariant
                i <= self.fields@.len(),
                all == self.fields@.map_values(|f: HeaderField| f@),
                found@.map_values(|v: Vec<u8>| v@) == values(all.take(i as int), name@),
            decreases self.fields.len() - i,
        {
            proof {
                assert(all.take(i + 1).drop_last() =~= all.take(i as int));
                assert(all.take(i + 1).last() == self.fields@[i as int]@);
            }
            if same(self.fields[i].name.as_str(), name) {
                let mut value: Vec<u8> = Vec::new();
                value.extend_from_slice(self.fields[i].value.as_slice());
                assert(value@ =~= self.fields@[i as int].value@);
                assert(found@.push(value).map_values(|v: Vec<u8>| v@) =~= found@.map_values(
                    |v: Vec<u8>| v@,
                ).push(value@));
                found.push(value);
            }
            i += 1;
        }
        assert(all.take(i as int) =~= all);
        found
    }

    /// The number of fields with the given lowercase name.
    pub fn count(&self, name: &str) -> (count: usize)
        ensures
            count == values(self@, name@).len(),
    {
        let found = self.get_all(name);
        assert(found@.map_values(|v: Vec<u8>| v@).len() == found@.len());
        found.len()
    }

    /// Whether there is a field with the given lowercase name.
    pub fn contains_key(&self, name: &str) -> (result: bool)
        ensures
            result == has_field(self@, name@),
    {
        self.count(name) > 0
    }

    /// The text of the first field with the given lowercase name.
    pub fn get_text(&self, name: &str) -> (result: Option<Option<String>>)
        ensures
            match result {
                Some(Some(text)) => first_text(self@, name@) == Some(Some(text@)),
                Some(None) => first_text(self@, name@) == Some(None::<Seq<char>>),
                None => first_text(self@, name@) is None,
            },
    {
        let found = self.get_all(name);
        assert(found@.map_values(|v: Vec<u8>| v@).len() == found@.len());
        if found.len() == 0 {
            return None;
        }
        assert(found@.map_values(|v: Vec<u8>| v@)[0] == found@[0]@);
        Some(value_text(&found[0]))
    }
}

// ---------------------------------------------------------------------------------------------
// Methods and targets
// ---------------------------------------------------------------------------------------------
/// An HTTP request method.
#[derive(Debug, PartialEq, Eq)]
pub enum Method {
    /// `GET`.
    Get,
    /// `HEAD`.
    Head,
    /// `PUT`.
    Put,
    /// `POST`.
    Post,
    /// `DELETE`.
    Delete,
    /// Any other method.
    Other(String),
}

/// The text of a method.
pub open spec fn method_text(method: Method) -> Seq<char> {
    match method {
        Method::Get => "GET"@,
        Method::Head => "HEAD"@,
        Method::Put => "PUT"@,
        Method::Post => "POST"@,
        Method::Delete => "DELETE"@,
        Method::Other(text) => text@,
    }
}

impl Method {
    /// The method with the given text.
    pub fn from_text(text: &str) -> (method: Self)
        ensures
            method_text(method) == text@,
            text@ == "GET"@ ==> method is Get,
            text@ == "HEAD"@ ==> method is Head,
            text@ == "PUT"@ ==> method is Put,
            text@ == "POST"@ ==> method is Post,
            text@ == "DELETE"@ ==> method is Delete,
    {
        proof {
            reveal_strlit("GET");
            reveal_strlit("HEAD");
            reveal_strlit("PUT");
            reveal_strlit("POST");
            reveal_strlit("DELETE");
            assert("GET"@[0] == 'G' && "PUT"@[0] == 'P' && "HEAD"@[0] == 'H' && "POST"@[0] == 'P');
        }
        if same(text, "GET") {
            Method::Get
        } else if same(text, "HEAD") {
            Method::Head
        } else if same(text, "PUT") {
            Method::Put
        } else if same(text, "POST") {
            Method::Post
        } else if same(text, "DELETE") {
            Method::Delete
        } else {
            Method::Other(text.to_owned())
        }
    }

    /// The text of the method.
    pub fn as_str(&self) -> (text: &str)
        ensures
            text@ == method_text(*self),
    {
        match self {
            Method::Get => "GET",
            Method::Head => "HEAD",
            Method::Put => "PUT",
            Method::Post => "POST",
            Method::Delete => "DELETE",
            Method::Other(text) => text.as_str(),
        }
    }
}

/// The path and the query of a request target, as they were sent.
#[derive(Debug, PartialEq, Eq)]
pub struct RequestUri {
    /// The raw path.
    pub path: String,
    /// The raw query, without its question mark.
    pub query: Option<String>,
}

/// A [`RequestUri`] as a mathematical value.
pub struct UriView {
    pub path: Seq<char>,
    pub query: Option<Seq<char>>,
}

impl View for RequestUri {
    type V = UriView;

    open spec fn view(&self) -> UriView {
        UriView { path: self.path@, query: crate::text::opt_text(self.query) }
    }
}

/// The path and query of an origin-form request target: what stands before and after the first
/// question mark.
pub open spec fn uri_of(target: Seq<char>) -> UriView {
    match crate::text::split_once(target, '?') {
        Some((path, query)) => UriView { path, query: Some(query) },
        None => UriView { path: target, query: None },
    }
}

impl RequestUri {
    /// Splits an origin-form request target into path and query.
    pub fn new(target: &str) -> (uri: Self)
        ensures
            uri@ == uri_of(target@),
    {
        match crate::text::split_at_first(target, '?') {
            Some((path, query)) => RequestUri { path, query: Some(query) },
            None => RequestUri { path: target.to_owned(), query: None },
        }
    }
}

/// A request as the endpoint reads it: everything but its body.
#[derive(Debug, PartialEq, Eq)]
pub struct S3Request {
    /// The request method.
    pub method: Method,
    /// The request target.
    pub uri: RequestUri,
    /// The header fields.
    pub headers: HeaderMap,
}

/// An [`S3Request`] as a mathematical value.
pub struct RequestView {
    pub method: Method,
    pub path: Seq<char>,
    pub query: Option<Seq<char>>,
    pub headers: Seq<(Seq<char>, Seq<u8>)>,
}

impl View for S3Request {
    type V = RequestView;

    open spec fn view(&self) -> RequestView {
        RequestView {
            method: self.method,
            path: self.uri@.path,
            query: self.uri@.query,
            headers: self.headers@,
        }
    }
}

/// A query, empty where there is none.
pub open spec fn sent_query(query: Option<Seq<char>>) -> Seq<char> {
    match query {
        Some(query) => query,
        None => Seq::empty(),
    }
}

/// The query of a request, empty where there is none.
pub open spec fn query_text(request: RequestView) -> Seq<char> {
    sent_query(request.query)
}

/// The host that a request names, where its field is text.
pub open spec fn host_of(headers: Seq<(Seq<char>, Seq<u8>)>) -> Option<Seq<char>> {
    match first_text(headers, "host"@) {
        Some(Some(host)) => Some(host),
        _ => None,
    }
}

impl S3Request {
    /// The query, empty where there is none.
    pub fn query(&self) -> (query: String)
        ensures
            query@ == query_text(self@),
    {
        match &self.uri.query {
            Some(query) => query.clone(),
            None => String::new(),
        }
    }

    /// The host that the request names.
    pub fn host(&self) -> (host: Option<String>)
        ensures
            crate::text::opt_text(host) == host_of(self@.headers),
    {
        match self.headers.get_text("host") {
            Some(Some(host)) => Some(host),
            _ => None,
        }
    }
}

} // verus!
