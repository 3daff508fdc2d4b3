//! The streaming aws-chunked parser.
use crate::body::aws_chunked::{
    add_trailer, chunked_error_message, copy_range, decoded_body, find_crlf, find_line_end,
    is_crlf_at, lemma_find_crlf, lemma_find_crlf_is, push_trailer, trailers_from, ChunkedErrorView,
    DecodedView,
};
use crate::body::chunked_upload::{
    chunk_header, opt_verifier, parse_aws_chunk_header, verify_chunk, verify_trailers,
    AwsChunkSignatureVerifier, VerifierView,
};
use crate::body::payload::{size_limit_error, validate_decoded_size_limit};
use crate::collections::TextMap;
use crate::error::{entity_too_large, invalid_request, ErrorView, S3Error};
use crate::text::{opt_text, utf8_text};
use vstd::prelude::*;
use vstd::utf8::{decode_utf8, valid_utf8};

verus! {

/// The most bytes that may arrive without a line end where a control line is due.
pub const MAX_AWS_CHUNKED_CONTROL_LINE_BYTES: usize = 16_384;

/// What an aws-chunked parser expects next.
#[derive(Debug, PartialEq, Eq)]
pub enum AwsChunkedParserState {
    /// A chunk line.
    ChunkHeader,
    /// The data of a chunk.
    ChunkData {
        /// Size of the chunk in bytes.
        size: usize,
        /// Signature of the chunk.
        signature: Option<String>,
    },
    /// A trailer line.
    Trailer,
    /// Nothing: the body is complete.
    Done,
}

/// An [`AwsChunkedParserState`] as a mathematical value.
pub enum ParserMode {
    ChunkHeader,
    ChunkData { size: nat, signature: Option<Seq<char>> },
    Trailer,
    Done,
}

impl View for AwsChunkedParserState {
    type V = ParserMode;

    open spec fn view(&self) -> ParserMode {
        match self {
            AwsChunkedParserState::ChunkHeader => ParserMode::ChunkHeader,
            AwsChunkedParserState::ChunkData { size, signature } => ParserMode::ChunkData {
                size: *size as nat,
                signature: opt_text(*signature),
            },
            AwsChunkedParserState::Trailer => ParserMode::Trailer,
            AwsChunkedParserState::Done => ParserMode::Done,
        }
    }
}

/// Parses an aws-chunked body that arrives in pieces.
#[derive(Debug)]
pub struct AwsChunkedUploadParser {
    buffer: Vec<u8>,
    state: AwsChunkedParserState,
    trailers: TextMap,
    signature_verifier: Option<AwsChunkSignatureVerifier>,
}

/// An [`AwsChunkedUploadParser`] as a mathematical value: the bytes that have arrived and are not
/// read yet, what is expected next, the trailers read so far, and the signature verifier.
#[verifier::ext_equal]
pub struct ParserView {
    pub buffer: Seq<u8>,
    pub mode: ParserMode,
    pub trailers: Seq<(Seq<char>, Seq<char>)>,
    pub verifier: Option<VerifierView>,
}

impl View for AwsChunkedUploadParser {
    type V = ParserView;

    closed spec fn view(&self) -> ParserView {
        ParserView {
            buffer: self.buffer@,
            mode: self.state@,
            trailers: self.trailers@,
            verifier: opt_verifier(self.signature_verifier),
        }
    }
}

/// A parser to which nothing has arrived.
pub open spec fn new_parser(verifier: Option<VerifierView>) -> ParserView {
    ParserView {
        buffer: Seq::empty(),
        mode: ParserMode::ChunkHeader,
        trailers: Seq::empty(),
        verifier,
    }
}

/// A parser to which more bytes have arrived.
pub open spec fn fed(p: ParserView, bytes: Seq<u8>) -> ParserView {
    ParserView { buffer: p.buffer + bytes, ..p }
}

/// The control line at the front of the buffer and the number of bytes it takes; nothing where its
/// end has not arrived.
pub open spec fn control_line(buffer: Seq<u8>) -> Result<Option<(Seq<char>, int)>, ErrorView> {
    match find_crlf(buffer) {
        None => if buffer.len() > MAX_AWS_CHUNKED_CONTROL_LINE_BYTES {
            Err(invalid_request("aws-chunked control line is too large"@))
        } else {
            Ok(None)
        },
        Some(i) => if valid_utf8(buffer.take(i)) {
            Ok(Some((decode_utf8(buffer.take(i)), i + 2)))
        } else {
            Err(invalid_request("aws-chunked control line is not UTF-8"@))
        },
    }
}

/// The error of a chunk that would make the body too large, or larger than can be counted.
pub open spec fn write_error(written: nat, next: nat, max: nat) -> Option<ErrorView> {
    match size_limit_error(written, next, max) {
        Some(error) => Some(error),
        None => if written + next > u64::MAX {
            Some(entity_too_large("Your proposed upload exceeds the maximum allowed size."@))
        } else {
            None
        },
    }
}

/// What one step of a parser gives.
#[verifier::ext_equal]
pub enum StepView {
    /// More bytes have to arrive first.
    NeedMore,
    /// The body is refused.
    Fail(ErrorView),
    /// A line or a chunk was read; a chunk gives its data.
    Advance { parser: ParserView, data: Seq<u8> },
    /// The body is complete.
    Finished { parser: ParserView, trailers: Seq<(Seq<char>, Seq<char>)> },
}

/// The step that reads a chunk line.
pub open spec fn header_step(p: ParserView) -> StepView {
    match control_line(p.buffer) {
        Err(error) => StepView::Fail(error),
        Ok(None) => StepView::NeedMore,
        Ok(Some((line, taken))) => match chunk_header(line) {
            Err(error) => StepView::Fail(error),
            Ok(header) => if header.size == 0 {
                match verify_chunk(p.verifier, header.signature, Seq::empty()) {
                    Err(error) => StepView::Fail(error),
                    Ok(verifier) => StepView::Advance {
                        parser: ParserView {
                            buffer: p.buffer.skip(taken),
                            mode: ParserMode::Trailer,
                            verifier,
                            ..p
                        },
                        data: Seq::empty(),
                    },
                }
            } else {
                StepView::Advance {
                    parser: ParserView {
                        buffer: p.buffer.skip(taken),
                        mode: ParserMode::ChunkData {
                            size: header.size,
                            signature: header.signature,
                        },
                        ..p
                    },
                    data: Seq::empty(),
                }
            },
        },
    }
}

/// The step that reads the data of a chunk.
pub open spec fn data_step(
    p: ParserView,
    size: nat,
    signature: Option<Seq<char>>,
    written: nat,
    max: nat,
) -> StepView {
    if p.buffer.len() < size + 2 {
        StepView::NeedMore
    } else if !is_crlf_at(p.buffer, size as int) {
        StepView::Fail(invalid_request("aws-chunked chunk is missing trailing CRLF"@))
    } else {
        let data = p.buffer.take(size as int);
        match verify_chunk(p.verifier, signature, data) {
            Err(error) => StepView::Fail(error),
            Ok(verifier) => match write_error(written, size, max) {
                Some(error) => StepView::Fail(error),
                None => StepView::Advance {
                    parser: ParserView {
                        buffer: p.buffer.skip(size as int + 2),
                        mode: ParserMode::ChunkHeader,
                        verifier,
                        ..p
                    },
                    data,
                },
            },
        }
    }
}

/// The step that reads a trailer line.
pub open spec fn trailer_step(p: ParserView) -> StepView {
    match control_line(p.buffer) {
        Err(error) => StepView::Fail(error),
        Ok(None) => StepView::NeedMore,
        Ok(Some((line, taken))) => if line.len() == 0 {
            match verify_trailers(p.verifier, p.trailers) {
                Err(error) => StepView::Fail(error),
                Ok(verifier) => if p.buffer.skip(taken).len() > 0 {
                    StepView::Fail(invalid_request("aws-chunked body has data after final trailer"@))
                } else {
                    StepView::Finished {
                        parser: ParserView {
                            buffer: Seq::empty(),
                            mode: ParserMode::Done,
                            trailers: Seq::empty(),
                            verifier,
                        },
                        trailers: p.trailers,
                    }
                },
            }
        } else {
            match add_trailer(p.trailers, line) {
                Err(error) => StepView::Fail(invalid_request(chunked_error_message(error))),
                Ok(trailers) => StepView::Advance {
                    parser: ParserView { buffer: p.buffer.skip(taken), trailers, ..p },
                    data: Seq::empty(),
                },
            }
        },
    }
}

/// One step of a parser, after `written` bytes of data.
pub open spec fn step(p: ParserView, written: nat, max: nat) -> StepView {
    match p.mode {
        ParserMode::ChunkHeader => header_step(p),
        ParserMode::ChunkData { size, signature } => data_step(p, size, signature, written, max),
        ParserMode::Trailer => trailer_step(p),
        ParserMode::Done => if p.buffer.len() == 0 {
            StepView::Finished {
                parser: ParserView { trailers: Seq::empty(), ..p },
                trailers: p.trailers,
            }
        } else {
            StepView::Fail(invalid_request("aws-chunked body has data after final trailer"@))
        },
    }
}

/// What a run of steps gives, up to the point where it stops.
#[verifier::ext_equal]
pub enum Outcome {
    /// More bytes have to arrive first.
    NeedMore(ParserView),
    /// The body is refused.
    Fail(ErrorView),
    /// The body is complete.
    Finished(ParserView, Seq<(Seq<char>, Seq<char>)>),
}

/// All the steps that a parser can take with the bytes it has: the data they give, and where they
/// stop.
pub open spec fn run(p: ParserView, written: nat, max: nat) -> (Seq<u8>, Outcome)
    decreases p.buffer.len(),
{
    match step(p, written, max) {
        StepView::NeedMore => (Seq::empty(), Outcome::NeedMore(p)),
        StepView::Fail(error) => (Seq::empty(), Outcome::Fail(error)),
        StepView::Finished { parser, trailers } => (
            Seq::empty(),
            Outcome::Finished(parser, trailers),
        ),
        StepView::Advance { parser, data } => if parser.buffer.len() < p.buffer.len() {
            let (more, outcome) = run(parser, written + data.len(), max);
            (data + more, outcome)
        } else {
            (data, Outcome::NeedMore(parser))
        },
    }
}

/// Every step that reads something takes bytes off the buffer.
pub proof fn lemma_step_consumes(p: ParserView, written: nat, max: nat)
    ensures
        step(p, written, max) matches StepView::Advance { parser, data } ==> parser.buffer.len()
            < p.buffer.len(),
{
    lemma_find_crlf(p.buffer);
}

// ---------------------------------------------------------------------------------------------
// The executable parser
// ---------------------------------------------------------------------------------------------
/// What one step of the parser gives.
#[derive(Debug)]
pub enum ParserEvent {
    /// More bytes have to arrive first.
    NeedMore,
    /// A control line was read.
    Progress,
    /// A chunk with data was read.
    Data(Vec<u8>),
    /// The body is complete; these are its trailers.
    Finished(TextMap),
}

/// What a push of bytes gives.
#[derive(Debug)]
pub struct Pushed {
    /// The data of the chunks that are complete.
    pub data: Vec<u8>,
    /// The trailers, once the body is complete.
    pub trailers: Option<TextMap>,
}

fn clone_signature(signature: &Option<String>) -> (copy: Option<String>)
    ensures
        opt_text(copy) == opt_text(*signature),
{
    match signature {
        Some(text) => Some(text.clone()),
        None => None,
    }
}

impl AwsChunkedUploadParser {
    /// A parser to which nothing has arrived.
    pub fn new(signature_verifier: Option<AwsChunkSignatureVerifier>) -> (parser: Self)
        ensures
            parser@ == new_parser(opt_verifier(signature_verifier)),
    {
        let buffer: Vec<u8> = Vec::new();
        assert(buffer@ =~= Seq::<u8>::empty());
        AwsChunkedUploadParser {
            buffer,
            state: AwsChunkedParserState::ChunkHeader,
            trailers: TextMap::new(),
            signature_verifier,
        }
    }

    /// Takes in bytes of the body.
    pub fn feed(&mut self, bytes: &[u8])
        ensures
            final(self)@ == fed(old(self)@, bytes@),
    {
        let ghost before = self.buffer@;
        self.buffer.extend_from_slice(bytes);
        assert(self.buffer@ =~= before + bytes@);
    }

    /// Takes the first `count` bytes off the buffer.
    fn take_front(&mut self, count: usize) -> (front: Vec<u8>)
        requires
            count <= old(self)@.buffer.len(),
        ensures
            front@ == old(self)@.buffer.take(count as int),
            final(self)@ == (ParserView {
                buffer: old(self)@.buffer.skip(count as int),
                ..old(self)@
            }),
    {
        let ghost before = self.buffer@;
        let mut front: Vec<u8> = self.buffer.split_off(count);
        core::mem::swap(&mut self.buffer, &mut front);
        assert(front@ =~= before.take(count as int));
        assert(self.buffer@ =~= before.skip(count as int));
        front
    }

    fn read_line(&mut self) -> (result: Result<Option<String>, S3Error>)
        ensures
            match result {
                Ok(None) => control_line(old(self)@.buffer) == Ok::<_, ErrorView>(
                    None::<(Seq<char>, int)>,
                ) && final(self)@ == old(self)@,
                Ok(Some(line)) => match control_line(old(self)@.buffer) {
                    Ok(Some((text, taken))) => text == line@ && final(self)@ == (ParserView {
                        buffer: old(self)@.buffer.skip(taken),
                        ..old(self)@
                    }),
                    _ => false,
                },
                Err(error) => control_line(old(self)@.buffer) == Err::<
                    Option<(Seq<char>, int)>,
                    _,
                >(error@),
            },
    {
        assert(self.buffer@.skip(0) =~= self.buffer@);
        let total: usize = self.buffer.len();
        match find_line_end(self.buffer.as_slice(), 0) {
            None => {
                if total > MAX_AWS_CHUNKED_CONTROL_LINE_BYTES {
                    return Err(S3Error::invalid_request("aws-chunked control line is too large"));
                }
                Ok(None)
            },
            Some(end) => {
                assert(end + 2 <= total);
                let line = copy_range(self.buffer.as_slice(), 0, end);
                assert(line@ =~= self.buffer@.take(end as int));
                match utf8_text(line) {
                    Some(text) => {
                        let _front = self.take_front(end + 2);
                        Ok(Some(text))
                    },
                    None => Err(S3Error::invalid_request("aws-chunked control line is not UTF-8")),
                }
            },
        }
    }

    fn verify_chunk_signature(&mut self, provided_signature: &Option<String>, chunk_data: &Vec<u8>)
        -> (result: Result<(), S3Error>)
        ensures
            match result {
                Ok(()) => verify_chunk(
                    old(self)@.verifier,
                    opt_text(*provided_signature),
                    chunk_data@,
                ) == Ok::<_, ErrorView>(final(self)@.verifier) && final(self)@ == (ParserView {
                    verifier: final(self)@.verifier,
                    ..old(self)@
                }),
                Err(error) => verify_chunk(
                    old(self)@.verifier,
                    opt_text(*provided_signature),
                    chunk_data@,
                ) == Err::<Option<VerifierView>, _>(error@),
            },
    {
        match self.signature_verifier.as_mut() {
            None => Ok(()),
            Some(verifier) => verifier.verify(provided_signature, chunk_data),
        }
    }

    fn verify_trailer_signature(&mut self) -> (result: Result<(), S3Error>)
        ensures
            match result {
                Ok(()) => verify_trailers(old(self)@.verifier, old(self)@.trailers) == Ok::<
                    _,
                    ErrorView,
                >(final(self)@.verifier) && final(self)@ == (ParserView {
                    verifier: final(self)@.verifier,
                    ..old(self)@
                }),
                Err(error) => verify_trailers(old(self)@.verifier, old(self)@.trailers) == Err::<
                    Option<VerifierView>,
                    _,
                >(error@),
            },
    {
        match self.signature_verifier.as_mut() {
            None => Ok(()),
            Some(verifier) => verifier.verify_trailer(&self.trailers),
        }
    }

    fn read_header(&mut self) -> (result: Result<ParserEvent, S3Error>)
        requires
            old(self)@.mode is ChunkHeader,
        ensures
            match result {
                Err(error) => header_step(old(self)@) == StepView::Fail(error@),
                Ok(ParserEvent::NeedMore) => header_step(old(self)@) == StepView::NeedMore && final(self)@ == old(self)@,
                Ok(ParserEvent::Progress) => header_step(old(self)@) == (StepView::Advance {
                    parser: final(self)@,
                    data: Seq::empty(),
                }),
                Ok(_) => false,
            },
    {
        let line = match self.read_line() {
            Err(error) => {
                return Err(error);
            },
            Ok(None) => {
                return Ok(ParserEvent::NeedMore);
            },
            Ok(Some(line)) => line,
        };
        let header = match parse_aws_chunk_header(line.as_str()) {
            Err(error) => {
                return Err(error);
            },
            Ok(header) => header,
        };
        if header.size == 0 {
            let nothing: Vec<u8> = Vec::new();
            assert(nothing@ =~= Seq::<u8>::empty());
            match self.verify_chunk_signature(&header.signature, &nothing) {
                Ok(()) => {},
                Err(error) => {
                    return Err(error);
                },
            }
            self.state = AwsChunkedParserState::Trailer;
        } else {
            self.state = AwsChunkedParserState::ChunkData {
                size: header.size,
                signature: header.signature,
            };
        }
        Ok(ParserEvent::Progress)
    }

    fn read_data(
        &mut self,
        size: usize,
        signature: &Option<String>,
        written: u64,
        max_decoded_size: u64,
    ) -> (result: Result<ParserEvent, S3Error>)
        ensures
            match result {
                Err(error) => data_step(
                    old(self)@,
                    size as nat,
                    opt_text(*signature),
                    written as nat,
                    max_decoded_size as nat,
                ) == StepView::Fail(error@),
                Ok(ParserEvent::NeedMore) => data_step(
                    old(self)@,
                    size as nat,
                    opt_text(*signature),
                    written as nat,
                    max_decoded_size as nat,
                ) == StepView::NeedMore && final(self)@ == old(self)@,
                Ok(ParserEvent::Data(data)) => data_step(
                    old(self)@,
                    size as nat,
                    opt_text(*signature),
                    written as nat,
                    max_decoded_size as nat,
                ) == (StepView::Advance { parser: final(self)@, data: data@ }) && data@.len()
                    == size && written + size <= u64::MAX,
                Ok(_) => false,
            },
    {
        let total: usize = self.buffer.len();
        if total < 2 || total - 2 < size {
            return Ok(ParserEvent::NeedMore);
        }
        if self.buffer[size] != 13 || self.buffer[size + 1] != 10 {
            return Err(S3Error::invalid_request("aws-chunked chunk is missing trailing CRLF"));
        }
        let ghost before = self.buffer@;
        let data = self.take_front(size);
        let _end = self.take_front(2);
        assert(before.skip(size as int).skip(2) =~= before.skip(size + 2));
        match self.verify_chunk_signature(signature, &data) {
            Ok(()) => {},
            Err(error) => {
                return Err(error);
            },
        }
        match validate_decoded_size_limit(written, data.len(), max_decoded_size) {
            Ok(()) => {},
            Err(error) => {
                return Err(error);
            },
        }
        if written > u64::MAX - size as u64 {
            return Err(
                S3Error::entity_too_large("Your proposed upload exceeds the maximum allowed size."),
            );
        }
        self.state = AwsChunkedParserState::ChunkHeader;
        Ok(ParserEvent::Data(data))
    }

    fn read_trailer(&mut self) -> (result: Result<ParserEvent, S3Error>)
        requires
            old(self)@.mode is Trailer,
        ensures
            match result {
                Err(error) => trailer_step(old(self)@) == StepView::Fail(error@),
                Ok(ParserEvent::NeedMore) => trailer_step(old(self)@) == StepView::NeedMore
                    && final(self)@ == old(self)@,
                Ok(ParserEvent::Progress) => trailer_step(old(self)@) == (StepView::Advance {
                    parser: final(self)@,
                    data: Seq::empty(),
                }),
                Ok(ParserEvent::Finished(trailers)) => trailer_step(old(self)@) == (
                StepView::Finished { parser: final(self)@, trailers: trailers@ }),
                Ok(_) => false,
            },
    {
        let line = match self.read_line() {
            Err(error) => {
                return Err(error);
            },
            Ok(None) => {
                return Ok(ParserEvent::NeedMore);
            },
            Ok(Some(line)) => line,
        };
        if line.as_str().is_empty() {
            match self.verify_trailer_signature() {
                Ok(()) => {},
                Err(error) => {
                    return Err(error);
                },
            }
            self.state = AwsChunkedParserState::Done;
            if self.buffer.len() > 0 {
                return Err(
                    S3Error::invalid_request("aws-chunked body has data after final trailer"),
                );
            }
            assert(self.buffer@ =~= Seq::<u8>::empty());
            let mut trailers = TextMap::new();
            core::mem::swap(&mut self.trailers, &mut trailers);
            return Ok(ParserEvent::Finished(trailers));
        }
        match push_trailer(&mut self.trailers, line.as_str()) {
            Ok(()) => Ok(ParserEvent::Progress),
            Err(error) => Err(S3Error::invalid_request(error.message().as_str())),
        }
    }

    /// Reads one control line or one chunk, after `written` bytes of data.
    pub fn next_event(&mut self, written: u64, max_decoded_size: u64) -> (result: Result<
        ParserEvent,
        S3Error,
    >)
        ensures
            match result {
                Err(error) => step(old(self)@, written as nat, max_decoded_size as nat)
                    == StepView::Fail(error@),
                Ok(ParserEvent::NeedMore) => step(
                    old(self)@,
                    written as nat,
                    max_decoded_size as nat,
                ) == StepView::NeedMore && final(self)@ == old(self)@,
                Ok(ParserEvent::Progress) => step(
                    old(self)@,
                    written as nat,
                    max_decoded_size as nat,
                ) == (StepView::Advance { parser: final(self)@, data: Seq::empty() }),
                Ok(ParserEvent::Data(data)) => step(
                    old(self)@,
                    written as nat,
                    max_decoded_size as nat,
                ) == (StepView::Advance { parser: final(self)@, data: data@ }) && written
                    + data@.len() <= u64::MAX,
                Ok(ParserEvent::Finished(trailers)) => step(
                    old(self)@,
                    written as nat,
                    max_decoded_size as nat,
                ) == (StepView::Finished { parser: final(self)@, trailers: trailers@ }),
            },
    {
        match &self.state {
            AwsChunkedParserState::ChunkHeader => self.read_header(),
            AwsChunkedParserState::ChunkData { size, signature } => {
                let size: usize = *size;
                let signature = clone_signature(signature);
                self.read_data(size, &signature, written, max_decoded_size)
            },
            AwsChunkedParserState::Trailer => self.read_trailer(),
            AwsChunkedParserState::Done => {
                if self.buffer.len() > 0 {
                    return Err(
                        S3Error::invalid_request("aws-chunked body has data after final trailer"),
                    );
                }
                let mut trailers = TextMap::new();
                core::mem::swap(&mut self.trailers, &mut trailers);
                Ok(ParserEvent::Finished(trailers))
            },
        }
    }

    /// Takes in bytes of the body and reads all that is complete, after `written` bytes of data.
    pub fn push(&mut self, bytes: &[u8], written: u64, max_decoded_size: u64) -> (result: Result<
        Pushed,
        S3Error,
    >)
        ensures
            match result {
                Err(error) => run(
                    fed(old(self)@, bytes@),
                    written as nat,
                    max_decoded_size as nat,
                ).1 == Outcome::Fail(error@),
                Ok(pushed) => {
                    let (data, outcome) = run(
                        fed(old(self)@, bytes@),
                        written as nat,
                        max_decoded_size as nat,
                    );
                    &&& pushed.data@ == data
                    &&& written + data.len() <= u64::MAX
                    &&& match pushed.trailers {
                        None => outcome == Outcome::NeedMore(final(self)@),
                        Some(trailers) => outcome == Outcome::Finished(final(self)@, trailers@),
                    }
                },
            },
    {
        self.feed(bytes);
        let ghost start = self@;
        let ghost total = run(start, written as nat, max_decoded_size as nat);
        let mut data: Vec<u8> = Vec::new();
        assert(Seq::<u8>::empty() + total.0 =~= total.0);
        assert(data@ =~= Seq::<u8>::empty());
        loop
            invariant
                written + data@.len() <= u64::MAX,
                total == run(start, written as nat, max_decoded_size as nat),
                start == fed(old(self)@, bytes@),
                ({
                    let rest = run(
                        self@,
                        (written + data@.len()) as nat,
                        max_decoded_size as nat,
                    );
                    total.0 == data@ + rest.0 && total.1 == rest.1
                }),
            decreases self@.buffer.len(),
        {
            let so_far: u64 = written + data.len() as u64;
            let ghost here = self@;
            proof {
                lemma_step_consumes(here, so_far as nat, max_decoded_size as nat);
            }
            match self.next_event(so_far, max_decoded_size) {
                Err(error) => {
                    return Err(error);
                },
                Ok(ParserEvent::NeedMore) => {
                    assert(data@ + Seq::<u8>::empty() =~= data@);
                    return Ok(Pushed { data, trailers: None });
                },
                Ok(ParserEvent::Progress) => {
                    proof {
                        let rest = run(self@, so_far as nat, max_decoded_size as nat);
                        assert(Seq::<u8>::empty() + rest.0 =~= rest.0);
                    }
                },
                Ok(ParserEvent::Data(chunk)) => {
                    let ghost before = data@;
                    data.extend_from_slice(chunk.as_slice());
                    proof {
                        assert(data@ =~= before + chunk@);
                        let rest = run(
                            self@,
                            (so_far + chunk@.len()) as nat,
                            max_decoded_size as nat,
                        );
                        assert(before + (chunk@ + rest.0) =~= data@ + rest.0);
                    }
                },
                Ok(ParserEvent::Finished(trailers)) => {
                    assert(data@ + Seq::<u8>::empty() =~= data@);
                    return Ok(Pushed { data, trailers: Some(trailers) });
                },
            }
        }
    }

    /// The trailers of a body that is complete.
    pub fn finish(self) -> (result: Option<TextMap>)
        ensures
            match result {
                Some(trailers) => self@.mode is Done && trailers@ == self@.trailers,
                None => !(self@.mode is Done),
            },
    {
        match self.state {
            AwsChunkedParserState::Done => Some(self.trailers),
            _ => None,
        }
    }
}

// ---------------------------------------------------------------------------------------------
// Laws
// ---------------------------------------------------------------------------------------------
/// A line end that has arrived stays the first when more bytes arrive.
proof fn lemma_find_crlf_extend(a: Seq<u8>, b: Seq<u8>)
    requires
        find_crlf(a) is Some,
    ensures
        find_crlf(a + b) == find_crlf(a),
{
    lemma_find_crlf(a);
    let i = find_crlf(a)->0;
    let c = a + b;
    assert(is_crlf_at(c, i));
    assert forall|j: int| 0 <= j < i implies !is_crlf_at(c, j) by {
        assert(!is_crlf_at(a, j));
    }
    lemma_find_crlf_is(c, i);
}

/// A step that reads something reads the same when more bytes have arrived.
proof fn lemma_step_extend(p: ParserView, bytes: Seq<u8>, written: nat, max: nat)
    requires
        step(p, written, max) is Advance,
    ensures
        step(fed(p, bytes), written, max) == (StepView::Advance {
            parser: fed(step(p, written, max)->Advance_parser, bytes),
            data: step(p, written, max)->data,
        }),
{
    let q = fed(p, bytes);
    match p.mode {
        ParserMode::ChunkHeader => {
            lemma_find_crlf(p.buffer);
            lemma_find_crlf_extend(p.buffer, bytes);
            let i = find_crlf(p.buffer)->0;
            assert(q.buffer.take(i) =~= p.buffer.take(i));
            assert(q.buffer.skip(i + 2) =~= p.buffer.skip(i + 2) + bytes);
        },
        ParserMode::ChunkData { size, signature } => {
            assert(q.buffer.take(size as int) =~= p.buffer.take(size as int));
            assert(q.buffer.skip(size as int + 2) =~= p.buffer.skip(size as int + 2) + bytes);
        },
        ParserMode::Trailer => {
            lemma_find_crlf(p.buffer);
            lemma_find_crlf_extend(p.buffer, bytes);
            let i = find_crlf(p.buffer)->0;
            assert(q.buffer.take(i) =~= p.buffer.take(i));
            assert(q.buffer.skip(i + 2) =~= p.buffer.skip(i + 2) + bytes);
        },
        ParserMode::Done => {},
    }
}

proof fn lemma_run_extend(p: ParserView, bytes: Seq<u8>, written: nat, max: nat)
    requires
        run(p, written, max).1 is NeedMore,
    ensures
        ({
            let (data, outcome) = run(p, written, max);
            let (more, end) = run(fed(outcome->NeedMore_0, bytes), written + data.len(), max);
            run(fed(p, bytes), written, max) == (data + more, end)
        }),
    decreases p.buffer.len(),
{
    let (data, outcome) = run(p, written, max);
    match step(p, written, max) {
        StepView::NeedMore => {
            let (more, end) = run(fed(p, bytes), written, max);
            assert(Seq::<u8>::empty() + more =~= more);
        },
        StepView::Advance { parser, data: first } => {
            lemma_step_consumes(p, written, max);
            lemma_step_extend(p, bytes, written, max);
            let (rest, _) = run(parser, written + first.len(), max);
            lemma_run_extend(parser, bytes, written + first.len(), max);
            let (more, end) = run(
                fed(outcome->NeedMore_0, bytes),
                written + first.len() + rest.len(),
                max,
            );
            assert(written + first.len() + rest.len() == written + data.len());
            assert(first + (rest + more) =~= data + more);
        },
        _ => {},
    }
}

/// The pieces in which a body arrives do not matter: whenever the parser asks for more after one
/// piece, pushing the next piece gives what pushing both at once would have given.
pub proof fn law_pieces_do_not_matter(
    p: ParserView,
    first: Seq<u8>,
    second: Seq<u8>,
    written: nat,
    max: nat,
)
    requires
        run(fed(p, first), written, max).1 is NeedMore,
    ensures
        ({
            let (data, outcome) = run(fed(p, first), written, max);
            let (more, end) = run(fed(outcome->NeedMore_0, second), written + data.len(), max);
            run(fed(p, first + second), written, max) == (data + more, end)
        }),
{
    lemma_run_extend(fed(p, first), second, written, max);
    assert(fed(fed(p, first), second) == fed(p, first + second)) by {
        assert(p.buffer + first + second =~= p.buffer + (first + second));
    }
}

/// However a body is framed, no more data comes out of it than the largest allowed size.
pub proof fn law_data_stays_within_limit(p: ParserView, written: nat, max: nat)
    requires
        written <= max <= u64::MAX,
    ensures
        written + run(p, written, max).0.len() <= max,
    decreases p.buffer.len(),
{
    match step(p, written, max) {
        StepView::Advance { parser, data } => {
            lemma_step_consumes(p, written, max);
            law_data_stays_within_limit(parser, written + data.len(), max);
        },
        _ => {},
    }
}

/// In a signed upload every chunk that is accepted carries the signature that continues from the
/// one before, and becomes the one that the next continues from.
pub proof fn law_signatures_chain(p: ParserView, written: nat, max: nat)
    requires
        p.verifier is Some,
        p.mode is ChunkData,
        step(p, written, max) is Advance,
    ensures
        ({
            let next = step(p, written, max);
            let signature = crate::body::chunked_upload::chunk_signature(
                p.verifier->0,
                next->data,
            );
            &&& p.mode->signature == Some(signature)
            &&& next->Advance_parser.verifier == Some(
                VerifierView { previous_signature: signature, ..p.verifier->0 },
            )
        }),
{
}

proof fn lemma_trailers_agree(p: ParserView, written: nat, max: nat)
    requires
        p.mode is Trailer,
        p.verifier is None,
        run(p, written, max).1 is Finished,
    ensures
        run(p, written, max).0 == Seq::<u8>::empty(),
        trailers_from(p.buffer, p.trailers) == Ok::<_, ChunkedErrorView>(
            run(p, written, max).1->Finished_1,
        ),
    decreases p.buffer.len(),
{
    lemma_find_crlf(p.buffer);
    match step(p, written, max) {
        StepView::Advance { parser, data } => {
            lemma_step_consumes(p, written, max);
            lemma_trailers_agree(parser, written, max);
            assert(Seq::<u8>::empty() + Seq::<u8>::empty() =~= Seq::<u8>::empty());
        },
        _ => {},
    }
}

proof fn lemma_chunks_agree(p: ParserView, written: nat, max: nat)
    requires
        p.mode is ChunkHeader,
        p.verifier is None,
        p.trailers == Seq::<(Seq<char>, Seq<char>)>::empty(),
        run(p, written, max).1 is Finished,
    ensures
        decoded_body(p.buffer) == Ok::<_, ChunkedErrorView>(
            DecodedView {
                data: run(p, written, max).0,
                trailers: run(p, written, max).1->Finished_1,
            },
        ),
    decreases p.buffer.len(),
{
    lemma_find_crlf(p.buffer);
    lemma_step_consumes(p, written, max);
    match step(p, written, max) {
        StepView::Advance { parser: q, data } => {
            let (rest, end) = run(q, written, max);
            assert(run(p, written, max).0 =~= rest);
            if q.mode is Trailer {
                lemma_trailers_agree(q, written, max);
            } else {
                let size = q.mode->size;
                lemma_step_consumes(q, written, max);
                match step(q, written, max) {
                    StepView::Advance { parser: r, data: chunk } => {
                        lemma_chunks_agree(r, written + chunk.len(), max);
                        assert(run(q, written, max).0 == chunk + run(
                            r,
                            written + chunk.len(),
                            max,
                        ).0);
                    },
                    _ => {},
                }
            }
        },
        _ => {},
    }
}

/// The streaming parser and the decoder of whole buffers agree: an unsigned body that the parser
/// accepts is decoded to the same data and the same trailers.
pub proof fn law_streaming_agrees_with_decoder(body: Seq<u8>, max: nat)
    requires
        run(fed(new_parser(None), body), 0, max).1 is Finished,
    ensures
        decoded_body(body) == Ok::<_, ChunkedErrorView>(
            DecodedView {
                data: run(fed(new_parser(None), body), 0, max).0,
                trailers: run(fed(new_parser(None), body), 0, max).1->Finished_1,
            },
        ),
{
    let p = fed(new_parser(None), body);
    assert(p.buffer =~= body);
    lemma_chunks_agree(p, 0, max);
}

} // verus!
