//! The aws-chunked framing of request bodies.
//!
//! A body is a series of chunks, each a line with its size in hexadecimal and optional extensions,
//! the data and a line end. A chunk of size zero ends the data; trailer lines follow, and an empty
//! line ends the body.
use crate::collections::{
    insert_entry, is_sorted, keys, lemma_insert_entry, lemma_mapping, mapping, TextMap,
};
use crate::text::{
    digit_value, digits_value, hex_digit, is_whitespace, lemma_first_index, lemma_first_index_is,
    lowercase, parse_number, parse_unsigned, result_view, split_at_first, split_once, to_lowercase,
    trim, trim_start, trimmed, utf8_text,
};
use vstd::prelude::*;
use vstd::slice::slice_subrange;
use vstd::utf8::{
    decode_utf8, encode_scalar, encode_utf8, encode_utf8_decode_utf8, encode_utf8_valid_utf8,
    valid_utf8,
};

verus! {

/// Errors returned by [`decode_aws_chunked_body`].
#[derive(Debug, PartialEq, Eq)]
pub enum AwsChunkedError {
    /// The body ended before a complete chunk, control line, or trailer block.
    UnexpectedEndOfBody,
    /// A chunk-size token was not valid hexadecimal.
    InvalidChunkSize(String),
    /// A non-final chunk was not followed by `\r\n`.
    MissingChunkTerminator,
    /// A chunk control line or trailer line was not valid UTF-8.
    NonUtf8ControlLine,
    /// A trailer line did not contain a `name: value` pair.
    MalformedTrailer(String),
    /// A trailer name appeared more than once after case normalization.
    DuplicateTrailer(String),
}

/// An [`AwsChunkedError`] as a mathematical value.
pub enum ChunkedErrorView {
    UnexpectedEndOfBody,
    InvalidChunkSize(Seq<char>),
    MissingChunkTerminator,
    NonUtf8ControlLine,
    MalformedTrailer(Seq<char>),
    DuplicateTrailer(Seq<char>),
}

impl View for AwsChunkedError {
    type V = ChunkedErrorView;

    open spec fn view(&self) -> ChunkedErrorView {
        match self {
            AwsChunkedError::UnexpectedEndOfBody => ChunkedErrorView::UnexpectedEndOfBody,
            AwsChunkedError::InvalidChunkSize(token) => ChunkedErrorView::InvalidChunkSize(token@),
            AwsChunkedError::MissingChunkTerminator => ChunkedErrorView::MissingChunkTerminator,
            AwsChunkedError::NonUtf8ControlLine => ChunkedErrorView::NonUtf8ControlLine,
            AwsChunkedError::MalformedTrailer(line) => ChunkedErrorView::MalformedTrailer(line@),
            AwsChunkedError::DuplicateTrailer(name) => ChunkedErrorView::DuplicateTrailer(name@),
        }
    }
}

/// The message of a framing error.
pub open spec fn chunked_error_message(error: ChunkedErrorView) -> Seq<char> {
    match error {
        ChunkedErrorView::UnexpectedEndOfBody => "aws-chunked body ended unexpectedly"@,
        ChunkedErrorView::InvalidChunkSize(token) => "aws-chunked chunk size is invalid: "@ + token,
        ChunkedErrorView::MissingChunkTerminator => "aws-chunked chunk is missing trailing CRLF"@,
        ChunkedErrorView::NonUtf8ControlLine => "aws-chunked control line is not UTF-8"@,
        ChunkedErrorView::MalformedTrailer(line) => "aws-chunked trailer is malformed: "@ + line,
        ChunkedErrorView::DuplicateTrailer(name) => "aws-chunked trailer appears more than once: "@
            + name,
    }
}

impl AwsChunkedError {
    /// The message shown to users.
    pub fn message(&self) -> (message: String)
        ensures
            message@ == chunked_error_message(self@),
    {
        match self {
            AwsChunkedError::UnexpectedEndOfBody => {
                "aws-chunked body ended unexpectedly".to_owned()
            },
            AwsChunkedError::InvalidChunkSize(token) => {
                "aws-chunked chunk size is invalid: ".to_owned().concat(token.as_str())
            },
            AwsChunkedError::MissingChunkTerminator => {
                "aws-chunked chunk is missing trailing CRLF".to_owned()
            },
            AwsChunkedError::NonUtf8ControlLine => {
                "aws-chunked control line is not UTF-8".to_owned()
            },
            AwsChunkedError::MalformedTrailer(line) => {
                "aws-chunked trailer is malformed: ".to_owned().concat(line.as_str())
            },
            AwsChunkedError::DuplicateTrailer(name) => {
                "aws-chunked trailer appears more than once: ".to_owned().concat(name.as_str())
            },
        }
    }
}

/// Fully decoded aws-chunked body used by protocol tests and helpers.
#[derive(Debug, PartialEq, Eq)]
pub struct DecodedAwsChunkedBody {
    /// Decoded payload bytes with aws-chunked framing removed.
    pub data: Vec<u8>,
    /// Trailer headers keyed by lowercase trailer name.
    pub trailers: TextMap,
}

/// A [`DecodedAwsChunkedBody`] as a mathematical value.
#[verifier::ext_equal]
pub struct DecodedView {
    pub data: Seq<u8>,
    pub trailers: Seq<(Seq<char>, Seq<char>)>,
}

impl View for DecodedAwsChunkedBody {
    type V = DecodedView;

    open spec fn view(&self) -> DecodedView {
        DecodedView { data: self.data@, trailers: self.trailers@ }
    }
}

// ---------------------------------------------------------------------------------------------
// Lines
// ---------------------------------------------------------------------------------------------
/// Whether a line end stands at position `i`.
pub open spec fn is_crlf_at(bytes: Seq<u8>, i: int) -> bool {
    0 <= i && i + 1 < bytes.len() && bytes[i] == 13 && bytes[i + 1] == 10
}

/// The position of the first line end.
pub open spec fn find_crlf(bytes: Seq<u8>) -> Option<int>
    decreases bytes.len(),
{
    if bytes.len() < 2 {
        None
    } else if is_crlf_at(bytes, 0) {
        Some(0)
    } else {
        match find_crlf(bytes.skip(1)) {
            Some(i) => Some(i + 1),
            None => None,
        }
    }
}

/// The first line end has none before it, and where none is found there is none.
pub proof fn lemma_find_crlf(bytes: Seq<u8>)
    ensures
        match find_crlf(bytes) {
            Some(i) => is_crlf_at(bytes, i) && forall|j: int| 0 <= j < i ==> !is_crlf_at(bytes, j),
            None => forall|j: int| !is_crlf_at(bytes, j),
        },
    decreases bytes.len(),
{
    if bytes.len() >= 2 && !is_crlf_at(bytes, 0) {
        let rest = bytes.skip(1);
        lemma_find_crlf(rest);
        match find_crlf(rest) {
            Some(i) => {
                assert(is_crlf_at(rest, i));
                assert(is_crlf_at(bytes, i + 1));
                assert forall|j: int| 0 <= j < i + 1 implies !is_crlf_at(bytes, j) by {
                    if j > 0 {
                        assert(!is_crlf_at(rest, j - 1));
                    }
                }
            },
            None => {
                assert forall|j: int| !is_crlf_at(bytes, j) by {
                    if j > 0 {
                        assert(!is_crlf_at(rest, j - 1));
                    }
                }
            },
        }
    }
}

/// A line end with none before it is the first.
pub proof fn lemma_find_crlf_is(bytes: Seq<u8>, i: int)
    requires
        is_crlf_at(bytes, i),
        forall|j: int| 0 <= j < i ==> !is_crlf_at(bytes, j),
    ensures
        find_crlf(bytes) == Some(i),
{
    lemma_find_crlf(bytes);
    match find_crlf(bytes) {
        Some(k) => {
            if k < i {
                assert(!is_crlf_at(bytes, k));
            } else if i < k {
                assert(!is_crlf_at(bytes, i));
            }
        },
        None => {
            assert(!is_crlf_at(bytes, i));
        },
    }
}

/// Finds the first line end at or after `from`.
pub fn find_line_end(bytes: &[u8], from: usize) -> (result: Option<usize>)
    requires
        from <= bytes@.len(),
    ensures
        match result {
            Some(i) => from <= i && i + 1 < bytes@.len() && find_crlf(bytes@.skip(from as int))
                == Some(i - from),
            None => find_crlf(bytes@.skip(from as int)) is None,
        },
{
    let ghost rest = bytes@.skip(from as int);
    let mut i: usize = from;
    while i < bytes.len() && bytes.len() - i >= 2
        invariant
            from <= i <= bytes@.len(),
            rest == bytes@.skip(from as int),
            forall|j: int| 0 <= j < i - from ==> !is_crlf_at(rest, j),
        decreases bytes.len() - i,
    {
        if bytes[i] == 13 && bytes[i + 1] == 10 {
            assert(is_crlf_at(rest, i - from));
            proof {
                lemma_find_crlf_is(rest, i - from);
            }
            return Some(i);
        }
        i += 1;
    }
    proof {
        lemma_find_crlf(rest);
        match find_crlf(rest) {
            Some(k) => {
                assert(is_crlf_at(rest, k));
            },
            None => {},
        }
    }
    None
}

/// The line at the front of `bytes` and the number of bytes it takes with its line end.
pub open spec fn first_line(bytes: Seq<u8>) -> Result<(Seq<char>, int), ChunkedErrorView> {
    match find_crlf(bytes) {
        None => Err(ChunkedErrorView::UnexpectedEndOfBody),
        Some(i) => if valid_utf8(bytes.take(i)) {
            Ok((decode_utf8(bytes.take(i)), i + 2))
        } else {
            Err(ChunkedErrorView::NonUtf8ControlLine)
        },
    }
}

/// Copies a part of a byte slice.
pub fn copy_range(bytes: &[u8], from: usize, to: usize) -> (copy: Vec<u8>)
    requires
        from <= to <= bytes@.len(),
    ensures
        copy@ == bytes@.subrange(from as int, to as int),
{
    vstd::slice::slice_to_vec(slice_subrange(bytes, from, to))
}

/// Reads the line at `from`, giving it with the position after its line end.
pub fn read_crlf_line(encoded: &[u8], from: usize) -> (result: Result<
    (String, usize),
    AwsChunkedError,
>)
    requires
        from <= encoded@.len(),
    ensures
        match result {
            Ok((line, next)) => from < next <= encoded@.len() && first_line(
                encoded@.skip(from as int),
            ) == Ok::<_, ChunkedErrorView>((line@, next - from)),
            Err(error) => first_line(encoded@.skip(from as int)) == Err::<(Seq<char>, int), _>(
                error@,
            ),
        },
{
    let ghost rest = encoded@.skip(from as int);
    let total: usize = encoded.len();
    match find_line_end(encoded, from) {
        None => Err(AwsChunkedError::UnexpectedEndOfBody),
        Some(end) => {
            let line = copy_range(encoded, from, end);
            assert(line@ =~= rest.take(end - from));
            match utf8_text(line) {
                Some(text) => {
                    assert(end + 2 <= total);
                    Ok((text, end + 2))
                },
                None => Err(AwsChunkedError::NonUtf8ControlLine),
            }
        },
    }
}

// ---------------------------------------------------------------------------------------------
// Chunks and trailers
// ---------------------------------------------------------------------------------------------
/// The text that a chunk line gives the size with.
pub open spec fn size_token(line: Seq<char>) -> Seq<char> {
    match split_once(line, ';') {
        Some((size, _)) => trim(size),
        None => trim(line),
    }
}

/// The size that a chunk line gives.
pub open spec fn chunk_size(line: Seq<char>) -> Option<nat> {
    parse_unsigned(size_token(line), 16, usize::MAX as nat)
}

/// Reads the size token of a chunk line.
pub fn read_size_token(line: &str) -> (token: String)
    ensures
        token@ == size_token(line@),
{
    match split_at_first(line, ';') {
        Some((size, _)) => trimmed(size.as_str()),
        None => trimmed(line),
    }
}

/// Reads a size token.
pub fn parse_chunk_size(token: &str) -> (result: Option<usize>)
    ensures
        match result {
            Some(size) => parse_unsigned(token@, 16, usize::MAX as nat) == Some(size as nat),
            None => parse_unsigned(token@, 16, usize::MAX as nat) is None,
        },
{
    match parse_number(token, 16, usize::MAX as u64) {
        Some(size) => Some(size as usize),
        None => None,
    }
}

/// Trailers with one more line.
pub open spec fn add_trailer(
    trailers: Seq<(Seq<char>, Seq<char>)>,
    line: Seq<char>,
) -> Result<Seq<(Seq<char>, Seq<char>)>, ChunkedErrorView> {
    match split_once(line, ':') {
        None => Err(ChunkedErrorView::MalformedTrailer(line)),
        Some((name, value)) => {
            let key = lowercase(trim(name));
            if keys(trailers).contains(key) {
                Err(ChunkedErrorView::DuplicateTrailer(key))
            } else {
                Ok(insert_entry(trailers, key, trim(value)))
            }
        },
    }
}

/// Adds a trailer line.
pub fn push_trailer(trailers: &mut TextMap, line: &str) -> (result: Result<(), AwsChunkedError>)
    ensures
        match result {
            Ok(()) => add_trailer(old(trailers)@, line@) == Ok::<_, ChunkedErrorView>(
                final(trailers)@,
            ),
            Err(error) => add_trailer(old(trailers)@, line@) == Err::<
                Seq<(Seq<char>, Seq<char>)>,
                _,
            >(error@),
        },
{
    match split_at_first(line, ':') {
        None => Err(AwsChunkedError::MalformedTrailer(line.to_owned())),
        Some((name, value)) => {
            let key = to_lowercase(trimmed(name.as_str()).as_str());
            proof {
                lemma_mapping(trailers@);
            }
            if trailers.contains_key(key.as_str()) {
                return Err(AwsChunkedError::DuplicateTrailer(key));
            }
            trailers.insert_new(key.as_str(), trimmed(value.as_str()).as_str());
            Ok(())
        },
    }
}

/// The trailers that `bytes` begin with, after those already read.
pub open spec fn trailers_from(
    bytes: Seq<u8>,
    trailers: Seq<(Seq<char>, Seq<char>)>,
) -> Result<Seq<(Seq<char>, Seq<char>)>, ChunkedErrorView>
    decreases bytes.len(),
{
    match first_line(bytes) {
        Err(error) => Err(error),
        Ok((line, taken)) => if line.len() == 0 {
            Ok(trailers)
        } else if taken <= 0 || taken > bytes.len() {
            Err(ChunkedErrorView::UnexpectedEndOfBody)
        } else {
            match add_trailer(trailers, line) {
                Err(error) => Err(error),
                Ok(more) => trailers_from(bytes.skip(taken), more),
            }
        },
    }
}

/// The decoded form of a body.
pub open spec fn decoded_body(bytes: Seq<u8>) -> Result<DecodedView, ChunkedErrorView>
    decreases bytes.len(),
{
    match first_line(bytes) {
        Err(error) => Err(error),
        Ok((line, taken)) => match chunk_size(line) {
            None => Err(ChunkedErrorView::InvalidChunkSize(size_token(line))),
            Some(size) => {
                let rest = bytes.skip(taken);
                if size == 0 {
                    match trailers_from(rest, Seq::empty()) {
                        Err(error) => Err(error),
                        Ok(trailers) => Ok(DecodedView { data: Seq::empty(), trailers }),
                    }
                } else if rest.len() < size + 2 || taken <= 0 || taken > bytes.len() {
                    Err(ChunkedErrorView::UnexpectedEndOfBody)
                } else if !is_crlf_at(rest, size as int) {
                    Err(ChunkedErrorView::MissingChunkTerminator)
                } else {
                    match decoded_body(rest.skip(size as int + 2)) {
                        Err(error) => Err(error),
                        Ok(more) => Ok(
                            DecodedView { data: rest.take(size as int) + more.data, ..more },
                        ),
                    }
                }
            },
        },
    }
}

/// Decoded data put in front of a decoded rest.
pub open spec fn prepend(
    data: Seq<u8>,
    rest: Result<DecodedView, ChunkedErrorView>,
) -> Result<DecodedView, ChunkedErrorView> {
    match rest {
        Err(error) => Err(error),
        Ok(more) => Ok(DecodedView { data: data + more.data, ..more }),
    }
}

fn read_trailers(encoded: &[u8], from: usize) -> (result: Result<TextMap, AwsChunkedError>)
    requires
        from <= encoded@.len(),
    ensures
        result_view(result) == trailers_from(encoded@.skip(from as int), Seq::empty()),
{
    let mut trailers = TextMap::new();
    let mut cursor: usize = from;
    loop
        invariant
            from <= cursor <= encoded@.len(),
            trailers_from(encoded@.skip(from as int), Seq::empty()) == trailers_from(
                encoded@.skip(cursor as int),
                trailers@,
            ),
        decreases encoded@.len() - cursor,
    {
        let (line, next) = match read_crlf_line(encoded, cursor) {
            Ok(read) => read,
            Err(error) => {
                return Err(error);
            },
        };
        if line.as_str().is_empty() {
            return Ok(trailers);
        }
        match push_trailer(&mut trailers, line.as_str()) {
            Ok(()) => {},
            Err(error) => {
                return Err(error);
            },
        }
        assert(encoded@.skip(cursor as int).skip(next - cursor) =~= encoded@.skip(next as int));
        cursor = next;
    }
}

/// Decodes an aws-chunked byte buffer into payload bytes and trailers.
///
/// This helper is intended for bounded buffers; request handling uses the streaming upload parser so
/// object bytes are not buffered in memory. Returns an error for malformed control lines, invalid
/// chunk sizes, missing chunk terminators, malformed trailers, or duplicate trailer names.
pub fn decode_aws_chunked_body(encoded: &[u8]) -> (result: Result<
    DecodedAwsChunkedBody,
    AwsChunkedError,
>)
    ensures
        result_view(result) == decoded_body(encoded@),
{
    let mut cursor: usize = 0;
    let mut data: Vec<u8> = Vec::new();
    assert(encoded@.skip(0) =~= encoded@);
    proof {
        match decoded_body(encoded@) {
            Ok(more) => {
                assert(data@ + more.data =~= more.data);
            },
            Err(_) => {},
        }
    }
    loop
        invariant
            cursor <= encoded@.len(),
            decoded_body(encoded@) == prepend(data@, decoded_body(encoded@.skip(cursor as int))),
        decreases encoded@.len() - cursor,
    {
        let ghost here = encoded@.skip(cursor as int);
        let (line, next) = match read_crlf_line(encoded, cursor) {
            Ok(read) => read,
            Err(error) => {
                return Err(error);
            },
        };
        let ghost rest = encoded@.skip(next as int);
        assert(here.skip(next - cursor) =~= rest);
        let token = read_size_token(line.as_str());
        let size: usize = match parse_chunk_size(token.as_str()) {
            Some(size) => size,
            None => {
                return Err(AwsChunkedError::InvalidChunkSize(token));
            },
        };
        if size == 0 {
            let trailers = match read_trailers(encoded, next) {
                Ok(trailers) => trailers,
                Err(error) => {
                    return Err(error);
                },
            };
            assert(data@ + Seq::<u8>::empty() =~= data@);
            return Ok(DecodedAwsChunkedBody { data, trailers });
        }
        let left: usize = encoded.len() - next;
        if left < 2 || left - 2 < size {
            return Err(AwsChunkedError::UnexpectedEndOfBody);
        }
        let end: usize = next + size;
        assert(rest[size as int] == encoded@[end as int]);
        assert(rest[size + 1] == encoded@[end + 1]);
        if encoded[end] != 13 || encoded[end + 1] != 10 {
            return Err(AwsChunkedError::MissingChunkTerminator);
        }
        let chunk = copy_range(encoded, next, end);
        let ghost before = data@;
        data.extend_from_slice(chunk.as_slice());
        proof {
            assert(chunk@ =~= rest.take(size as int));
            assert(data@ =~= before + chunk@);
            assert(rest.skip(size + 2) =~= encoded@.skip(end + 2));
            match decoded_body(encoded@.skip(end + 2)) {
                Ok(more) => {
                    assert(before + (chunk@ + more.data) =~= data@ + more.data);
                },
                Err(_) => {},
            }
        }
        cursor = end + 2;
    }
}

// ---------------------------------------------------------------------------------------------
// Encoding
// ---------------------------------------------------------------------------------------------
/// The lowercase hexadecimal digits of `n`, without leading zeros.
pub open spec fn hex_number(n: nat) -> Seq<char>
    decreases n,
{
    if n < 16 {
        seq![hex_digit(n)]
    } else {
        hex_number(n / 16).push(hex_digit(n % 16))
    }
}

/// A chunk as a client sends it: its data, and what its line says after the size.
pub struct SentChunk {
    pub data: Seq<u8>,
    pub extension: Seq<char>,
}

/// Whether a carriage return with a line feed after it stands at position `i` of a text.
pub open spec fn is_line_end_at(text: Seq<char>, i: int) -> bool {
    0 <= i && i + 1 < text.len() && text[i] == '\r' && text[i + 1] == '\n'
}

/// Whether a text holds no line end.
pub open spec fn is_one_line(text: Seq<char>) -> bool {
    forall|i: int| !#[trigger] is_line_end_at(text, i)
}

/// Whether a text can follow the size in the line of a chunk: nothing, or a semicolon and any text
/// without a line end.
pub open spec fn is_extension(text: Seq<char>) -> bool {
    (text.len() > 0 ==> text[0] == ';') && is_one_line(text)
}

/// Whether a chunk can be sent before the last one.
pub open spec fn is_sendable(chunk: SentChunk) -> bool {
    0 < chunk.data.len() <= usize::MAX && is_extension(chunk.extension)
}

/// A line end.
pub open spec fn line_end() -> Seq<u8> {
    seq![13u8, 10u8]
}

/// The bytes of a chunk line.
pub open spec fn chunk_line(size: nat, extension: Seq<char>) -> Seq<u8> {
    encode_utf8(hex_number(size) + extension) + line_end()
}

/// Whether a trailer can be sent: a lowercase name without a colon, and a value, both without line
/// ends and without white space around them.
pub open spec fn is_trailer(trailer: (Seq<char>, Seq<char>)) -> bool {
    &&& lowercase(trailer.0) == trailer.0
    &&& !trailer.0.contains(':')
    &&& trim(trailer.0) == trailer.0
    &&& trim(trailer.1) == trailer.1
    &&& is_one_line(trailer.0)
    &&& is_one_line(trailer.1)
}

/// The bytes of trailer lines, and of the empty line that ends the body.
pub open spec fn trailer_lines(trailers: Seq<(Seq<char>, Seq<char>)>) -> Seq<u8>
    decreases trailers.len(),
{
    if trailers.len() == 0 {
        line_end()
    } else {
        encode_utf8(trailers[0].0 + ":"@ + trailers[0].1) + line_end() + trailer_lines(
            trailers.skip(1),
        )
    }
}

/// The bytes of a body of chunks and trailers; the last chunk is a line alone.
pub open spec fn encoded_body(
    chunks: Seq<SentChunk>,
    last_extension: Seq<char>,
    trailers: Seq<(Seq<char>, Seq<char>)>,
) -> Seq<u8>
    decreases chunks.len(),
{
    if chunks.len() == 0 {
        chunk_line(0, last_extension) + trailer_lines(trailers)
    } else {
        chunk_line(chunks[0].data.len(), chunks[0].extension) + (chunks[0].data + (line_end()
            + encoded_body(chunks.skip(1), last_extension, trailers)))
    }
}

/// The data of chunks.
pub open spec fn chunk_data(chunks: Seq<SentChunk>) -> Seq<u8>
    decreases chunks.len(),
{
    if chunks.len() == 0 {
        Seq::empty()
    } else {
        chunks[0].data + chunk_data(chunks.skip(1))
    }
}

proof fn lemma_hex_digit(n: nat)
    requires
        n < 16,
    ensures
        digit_value(hex_digit(n)) == n,
        '0' <= hex_digit(n) <= 'f',
        hex_digit(n) != ';',
        !is_whitespace(hex_digit(n)),
{
}

/// What is known of hexadecimal numbers.
pub proof fn lemma_hex_number(n: nat)
    ensures
        hex_number(n).len() > 0,
        digits_value(hex_number(n), 16) == n,
        forall|i: int|
            0 <= i < hex_number(n).len() ==> {
                &&& digit_value(#[trigger] hex_number(n)[i]) < 16
                &&& '0' <= hex_number(n)[i] <= 'f'
                &&& hex_number(n)[i] != ';'
                &&& !is_whitespace(hex_number(n)[i])
            },
    decreases n,
{
    let text = hex_number(n);
    if n < 16 {
        lemma_hex_digit(n);
        assert(text.drop_last() =~= Seq::<char>::empty());
        assert(digits_value(text.drop_last(), 16) == 0);
    } else {
        lemma_hex_number(n / 16);
        lemma_hex_digit(n % 16);
        assert(text.drop_last() =~= hex_number(n / 16));
        assert forall|i: int| 0 <= i < text.len() implies {
            &&& digit_value(#[trigger] text[i]) < 16
            &&& '0' <= text[i] <= 'f'
            &&& text[i] != ';'
            &&& !is_whitespace(text[i])
        } by {
            if i < text.len() - 1 {
                assert(text[i] == hex_number(n / 16)[i]);
            }
        }
    }
}

proof fn lemma_encoded_scalar(c: char)
    ensures
        (c as u32) < 0x80 ==> encode_scalar(c as u32) == seq![c as u8],
        (c as u32) >= 0x80 ==> forall|k: int|
            0 <= k < encode_scalar(c as u32).len() ==> #[trigger] encode_scalar(c as u32)[k] >= 0x80,
        encode_scalar(c as u32).len() > 0,
        encode_scalar(c as u32)[0] == 13 ==> c == '\r',
        encode_scalar(c as u32)[0] == 10 ==> c == '\n',
{
    let v = c as u32;
    assert(v < 0x80 ==> (v & 0x7F) as u8 == v as u8) by (bit_vector);
    assert(0xC0 | ((v >> 6) & 0x1F) as u8 >= 0x80) by (bit_vector);
    assert(0xE0 | ((v >> 12) & 0x0F) as u8 >= 0x80) by (bit_vector);
    assert(0xF0 | ((v >> 18) & 0x7) as u8 >= 0x80) by (bit_vector);
    assert(0x80 | (v & 0x3F) as u8 >= 0x80) by (bit_vector);
    assert(0x80 | ((v >> 6) & 0x3F) as u8 >= 0x80) by (bit_vector);
    assert(0x80 | ((v >> 12) & 0x3F) as u8 >= 0x80) by (bit_vector);
    if v < 0x80 {
        assert(encode_scalar(v) =~= seq![c as u8]);
    }
}

proof fn lemma_one_line_bytes(text: Seq<char>)
    requires
        is_one_line(text),
    ensures
        forall|j: int| !#[trigger] is_crlf_at(encode_utf8(text), j),
    decreases text.len(),
{
    if text.len() > 0 {
        let rest = text.drop_first();
        let head = encode_scalar(text[0] as u32);
        let bytes = encode_utf8(text);
        assert forall|i: int| !#[trigger] is_line_end_at(rest, i) by {
            if 0 <= i {
                assert(!is_line_end_at(text, i + 1));
            }
        }
        lemma_one_line_bytes(rest);
        lemma_encoded_scalar(text[0]);
        if rest.len() > 0 {
            lemma_encoded_scalar(rest[0]);
            assert(encode_utf8(rest)[0] == encode_scalar(rest[0] as u32)[0]);
        }
        assert forall|j: int| !#[trigger] is_crlf_at(bytes, j) by {
            if is_crlf_at(bytes, j) {
                if j >= head.len() {
                    assert(bytes[j] == encode_utf8(rest)[j - head.len()]);
                    assert(bytes[j + 1] == encode_utf8(rest)[j + 1 - head.len()]);
                    assert(is_crlf_at(encode_utf8(rest), j - head.len()));
                } else {
                    assert(bytes[j] == head[j]);
                    assert(head =~= seq![text[0] as u8]);
                    assert(bytes[j + 1] == encode_utf8(rest)[0]);
                    assert(rest.len() > 0);
                    assert(is_line_end_at(text, 0));
                }
            }
        }
    }
}

/// The first line of bytes that begin with one.
pub proof fn lemma_first_line(line: Seq<char>, rest: Seq<u8>)
    requires
        is_one_line(line),
    ensures
        first_line(encode_utf8(line) + line_end() + rest) == Ok::<_, ChunkedErrorView>(
            (line, encode_utf8(line).len() as int + 2),
        ),
{
    let bytes = encode_utf8(line);
    let all = bytes + line_end() + rest;
    let at = bytes.len() as int;
    lemma_one_line_bytes(line);
    encode_utf8_decode_utf8(line);
    encode_utf8_valid_utf8(line);
    assert forall|j: int| 0 <= j < at implies !is_crlf_at(all, j) by {
        assert(!is_crlf_at(bytes, j));
        assert(all[j] == bytes[j]);
        if j + 1 < at {
            assert(all[j + 1] == bytes[j + 1]);
        } else {
            assert(all[j + 1] == 13);
        }
    }
    assert(all[at] == 13);
    assert(all[at + 1] == 10);
    lemma_find_crlf_is(all, at);
    assert(all.take(at) =~= bytes);
}

/// A chunk line is read back: it is the first line, and its size is the one it was made with.
pub proof fn lemma_chunk_line(size: nat, extension: Seq<char>, rest: Seq<u8>)
    requires
        size <= usize::MAX,
        is_extension(extension),
    ensures
        ({
            let line = hex_number(size) + extension;
            &&& first_line(chunk_line(size, extension) + rest) == Ok::<_, ChunkedErrorView>(
                (line, chunk_line(size, extension).len() as int),
            )
            &&& chunk_size(line) == Some(size)
        }),
{
    let digits = hex_number(size);
    let line = digits + extension;
    lemma_hex_number(size);
    assert forall|i: int| !#[trigger] is_line_end_at(line, i) by {
        if 0 <= i < digits.len() {
            assert(line[i] == digits[i]);
        } else if digits.len() <= i {
            assert(!is_line_end_at(extension, i - digits.len()));
        }
    }
    lemma_first_line(line, rest);
    // The size token is what stands before the extension.
    assert(trim_start(digits) == digits);
    assert(trim(digits) == digits);
    if extension.len() > 0 {
        assert forall|j: int| 0 <= j < digits.len() implies line[j] != ';' by {
            assert(line[j] == digits[j]);
        }
        assert(line[digits.len() as int] == ';');
        lemma_first_index_is(line, ';', digits.len() as int);
        assert(line.take(digits.len() as int) =~= digits);
    } else {
        assert(line =~= digits);
        lemma_first_index(line, ';');
    }
    assert(size_token(line) == digits);
    assert(digits[0] != '+');
}

/// Entries in ascending order with a list of others, each at its place.
pub open spec fn insert_entries(
    entries: Seq<(Seq<char>, Seq<char>)>,
    more: Seq<(Seq<char>, Seq<char>)>,
) -> Seq<(Seq<char>, Seq<char>)>
    decreases more.len(),
{
    if more.len() == 0 {
        entries
    } else {
        insert_entries(insert_entry(entries, more[0].0, more[0].1), more.skip(1))
    }
}

/// A trailer line is read back: it is the first line, and it adds the trailer.
pub proof fn lemma_trailer_line(
    before: Seq<(Seq<char>, Seq<char>)>,
    trailer: (Seq<char>, Seq<char>),
    rest: Seq<u8>,
)
    requires
        is_trailer(trailer),
        !keys(before).contains(trailer.0),
    ensures
        ({
            let line = trailer.0 + ":"@ + trailer.1;
            &&& line.len() > 0
            &&& first_line(encode_utf8(line) + line_end() + rest) == Ok::<_, ChunkedErrorView>(
                (line, encode_utf8(line).len() as int + 2),
            )
            &&& add_trailer(before, line) == Ok::<_, ChunkedErrorView>(
                insert_entry(before, trailer.0, trailer.1),
            )
        }),
{
    let (name, value) = trailer;
    let line = name + ":"@ + value;
    reveal_strlit(":");
    assert forall|i: int| !#[trigger] is_line_end_at(line, i) by {
        if is_line_end_at(line, i) {
            if i < name.len() {
                if i + 1 < name.len() {
                    assert(is_line_end_at(name, i));
                }
            } else if i > name.len() {
                assert(is_line_end_at(value, i - name.len() - 1));
            }
        }
    }
    lemma_first_line(line, rest);
    assert forall|j: int| 0 <= j < name.len() implies line[j] != ':' by {
        assert(name.contains(name[j]));
    }
    lemma_first_index_is(line, ':', name.len() as int);
    assert(line.take(name.len() as int) =~= name);
    assert(line.skip(name.len() as int + 1) =~= value);
}

proof fn lemma_trailer_lines(
    sent: Seq<(Seq<char>, Seq<char>)>,
    before: Seq<(Seq<char>, Seq<char>)>,
)
    requires
        forall|i: int| 0 <= i < sent.len() ==> is_trailer(#[trigger] sent[i]),
        keys(sent).no_duplicates(),
        is_sorted(keys(before)),
        forall|i: int| 0 <= i < sent.len() ==> !keys(before).contains((#[trigger] sent[i]).0),
    ensures
        trailers_from(trailer_lines(sent), before) == Ok::<_, ChunkedErrorView>(
            insert_entries(before, sent),
        ),
        is_sorted(keys(insert_entries(before, sent))),
        forall|k: Seq<char>| #[trigger]
            mapping(insert_entries(before, sent)).dom().contains(k) <==> mapping(
                before,
            ).dom().contains(k) || keys(sent).contains(k),
        forall|k: Seq<char>|
            mapping(before).dom().contains(k) ==> #[trigger] mapping(insert_entries(before, sent))[k]
                == mapping(before)[k],
        forall|i: int|
            0 <= i < sent.len() ==> mapping(insert_entries(before, sent))[(#[trigger] sent[i]).0]
                == sent[i].1,
    decreases sent.len(),
{
    if sent.len() == 0 {
        let none = Seq::<char>::empty();
        lemma_first_line(none, Seq::empty());
        assert(encode_utf8(none) + line_end() + Seq::<u8>::empty() =~= line_end());
        assert(keys(sent) =~= Seq::<Seq<char>>::empty());
    } else {
        let (name, value) = sent[0];
        let rest = sent.skip(1);
        let line = name + ":"@ + value;
        let bytes = trailer_lines(sent);
        let after = insert_entry(before, name, value);
        assert(is_trailer(sent[0]));
        assert(!keys(before).contains(sent[0].0));
        lemma_trailer_line(before, sent[0], trailer_lines(rest));
        let taken = encode_utf8(line).len() as int + 2;
        assert(bytes.skip(taken) =~= trailer_lines(rest));
        assert(add_trailer(before, line) == Ok::<_, ChunkedErrorView>(after));
        lemma_insert_entry(before, name, value);
        lemma_mapping(before);
        lemma_mapping(after);
        assert(keys(rest) =~= keys(sent).skip(1));
        assert(keys(rest).no_duplicates());
        assert forall|i: int| 0 <= i < rest.len() implies is_trailer(#[trigger] rest[i]) by {
            assert(rest[i] == sent[i + 1]);
        }
        assert forall|i: int| 0 <= i < rest.len() implies !keys(after).contains(
            (#[trigger] rest[i]).0,
        ) by {
            assert(rest[i] == sent[i + 1]);
            assert(keys(sent)[i + 1] == sent[i + 1].0);
            assert(keys(sent)[0] == name);
            assert(!keys(before).contains(sent[i + 1].0));
            assert(!mapping(before).dom().contains(rest[i].0));
            assert(!mapping(after).dom().contains(rest[i].0));
        }
        lemma_trailer_lines(rest, after);
        let all = insert_entries(before, sent);
        assert(all == insert_entries(after, rest));
        assert forall|k: Seq<char>| #[trigger] mapping(all).dom().contains(k) <==> mapping(
            before,
        ).dom().contains(k) || keys(sent).contains(k) by {
            assert(keys(sent)[0] == name);
            if keys(rest).contains(k) {
                let i = choose|i: int| 0 <= i < rest.len() && keys(rest)[i] == k;
                assert(keys(sent)[i + 1] == k);
            }
            if keys(sent).contains(k) && k != name {
                let i = choose|i: int| 0 <= i < sent.len() && keys(sent)[i] == k;
                assert(keys(rest)[i - 1] == k);
            }
        }
        assert forall|k: Seq<char>| mapping(before).dom().contains(k) implies #[trigger] mapping(
            all,
        )[k] == mapping(before)[k] by {
            assert(keys(before).contains(k));
            assert(mapping(after).dom().contains(k));
            assert(mapping(all)[k] == mapping(after)[k]);
        }
        assert forall|i: int| 0 <= i < sent.len() implies mapping(all)[(#[trigger] sent[i]).0]
            == sent[i].1 by {
            if i == 0 {
                assert(mapping(after).dom().contains(name));
                assert(mapping(all)[name] == mapping(after)[name]);
            } else {
                assert(rest[i - 1] == sent[i]);
            }
        }
    }
}

/// Trailers that were sent are read back, in the order of their names.
pub proof fn lemma_sent_trailers(trailers: Seq<(Seq<char>, Seq<char>)>)
    requires
        forall|i: int| 0 <= i < trailers.len() ==> is_trailer(#[trigger] trailers[i]),
        keys(trailers).no_duplicates(),
    ensures
        trailers_from(trailer_lines(trailers), Seq::empty()) == Ok::<_, ChunkedErrorView>(
            insert_entries(Seq::empty(), trailers),
        ),
        ({
            let read = trailers_from(trailer_lines(trailers), Seq::empty());
            &&& read is Ok
            &&& is_sorted(keys(read->Ok_0))
            &&& mapping(read->Ok_0) == mapping(trailers)
        }),
{
    let none = Seq::<(Seq<char>, Seq<char>)>::empty();
    assert(keys(none) =~= Seq::<Seq<char>>::empty());
    lemma_trailer_lines(trailers, none);
    lemma_mapping(trailers);
    let found = insert_entries(none, trailers);
    assert forall|k: Seq<char>| mapping(trailers).dom().contains(k) implies mapping(found)[k]
        == mapping(trailers)[k] by {
        assert(keys(trailers).contains(k));
        let i = choose|i: int| 0 <= i < trailers.len() && keys(trailers)[i] == k;
        assert(trailers[i].0 == k);
    }
    assert(mapping(found) =~= mapping(trailers));
}

proof fn lemma_end_of_body(last_extension: Seq<char>, trailers: Seq<(Seq<char>, Seq<char>)>)
    requires
        is_extension(last_extension),
        trailers_from(trailer_lines(trailers), Seq::empty()) is Ok,
    ensures
        decoded_body(chunk_line(0, last_extension) + trailer_lines(trailers)) == Ok::<
            _,
            ChunkedErrorView,
        >(
            DecodedView {
                data: Seq::empty(),
                trailers: trailers_from(trailer_lines(trailers), Seq::empty())->Ok_0,
            },
        ),
{
    let line = chunk_line(0, last_extension);
    let bytes = line + trailer_lines(trailers);
    lemma_chunk_line(0, last_extension, trailer_lines(trailers));
    assert(bytes.skip(line.len() as int) =~= trailer_lines(trailers));
}

/// Decoding gives back what was encoded: the data of all chunks, in order, whatever the extensions
/// of their lines, and the trailers with their values, listed in the order of their names.
pub proof fn law_encoded_bodies_are_decoded(
    chunks: Seq<SentChunk>,
    last_extension: Seq<char>,
    trailers: Seq<(Seq<char>, Seq<char>)>,
)
    requires
        forall|i: int| 0 <= i < chunks.len() ==> is_sendable(#[trigger] chunks[i]),
        is_extension(last_extension),
        forall|i: int| 0 <= i < trailers.len() ==> is_trailer(#[trigger] trailers[i]),
        keys(trailers).no_duplicates(),
    ensures
        ({
            let decoded = decoded_body(encoded_body(chunks, last_extension, trailers));
            &&& decoded is Ok
            &&& decoded->Ok_0.data == chunk_data(chunks)
            &&& is_sorted(keys(decoded->Ok_0.trailers))
            &&& mapping(decoded->Ok_0.trailers) == mapping(trailers)
        }),
    decreases chunks.len(),
{
    let bytes = encoded_body(chunks, last_extension, trailers);
    if chunks.len() == 0 {
        lemma_sent_trailers(trailers);
        lemma_end_of_body(last_extension, trailers);
    } else {
        let chunk = chunks[0];
        let line = chunk_line(chunk.data.len(), chunk.extension);
        let more = encoded_body(chunks.skip(1), last_extension, trailers);
        let tail = chunk.data + (line_end() + more);
        assert(is_sendable(chunk));
        lemma_chunk_line(chunk.data.len(), chunk.extension, tail);
        assert forall|i: int| 0 <= i < chunks.skip(1).len() implies is_sendable(
            #[trigger] chunks.skip(1)[i],
        ) by {
            assert(chunks.skip(1)[i] == chunks[i + 1]);
        }
        law_encoded_bodies_are_decoded(chunks.skip(1), last_extension, trailers);
        let rest = bytes.skip(line.len() as int);
        let size = chunk.data.len() as int;
        assert(rest =~= tail);
        assert(is_crlf_at(rest, size));
        assert(rest.take(size) =~= chunk.data);
        assert(rest.skip(size + 2) =~= more);
    }
}

} // verus!
