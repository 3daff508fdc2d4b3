//! Taking in an upload: framing, size limits, signatures and checksums.
use crate::auth::{StreamingSigningContext, StreamingView};
use crate::body::checksum::{
    be_bytes, checksum_at, checksum_header, declaration_error, declared_names, digest_bytes,
    mismatch_error, requested_checksums, requested_digest, supplied_digest, undeclared_error,
    ChecksumDigests, ChecksumName, ChecksumRequest, DigestsView, RequestedView,
};
use crate::body::chunked_upload::{opt_streaming, streaming_signature_verifier, upload_verifier};
use crate::body::digests::{
    all_digests, digest_more, digesting, digests_of, finished_digests,
    law_digests_do_not_depend_on_pieces, lemma_digest_more, CrcEngines, DigestState,
    DigestStateView, EnabledDigests,
};
use crate::body::parser::{
    fed, law_data_stays_within_limit, lemma_step_consumes, new_parser, run, step, write_error,
    AwsChunkedUploadParser, Outcome, ParserEvent, ParserView, StepView,
};
use crate::body::payload::{
    body_length_error, checksum_header_or_declared_trailer, chunk_length_error, content_length,
    declared_length, declares_trailer, decoded_length_error, fixed_hash_error, is_aws_chunked,
    is_aws_chunked_request, lists_item, needs_payload_sha256, opt_length, payload_mode,
    requires_actual_sha256_payload_hash, saturated, upload_mode_error,
    validate_actual_sha256_payload_hash, validate_decoded_content_length,
    validate_decoded_size_limit, validate_payload_hash_mode, validate_plain_body_chunk_length,
    validate_plain_content_length,
};
use crate::collections::{mapping, TextMap};
use crate::error::{entity_too_large, invalid_request, ErrorView, S3Error};
use crate::hashing::{crc_checksum, md5_digest, sha1_digest, sha256_digest, sha512_digest};
use crate::http::{field_text, has_field, values, HeaderMap};
use crate::s3::types::{ContentLength, PayloadHashModeView};
use crate::text::{lowercase, result_view, split, trim};
use vstd::prelude::*;

verus! {

/// What an upload amounts to once it is accepted.
#[derive(Debug, PartialEq, Eq)]
pub struct UploadedBody {
    /// The number of bytes of data.
    pub size: ContentLength,
    /// The MD5 digest of the data.
    pub md5_digest: Vec<u8>,
    /// The checksums as the request gave them.
    pub checksums: TextMap,
}

/// An [`UploadedBody`] as a mathematical value.
#[verifier::ext_equal]
pub struct UploadedView {
    pub size: nat,
    pub md5: Seq<u8>,
    pub checksums: Map<Seq<char>, Seq<char>>,
}

impl View for UploadedBody {
    type V = UploadedView;

    open spec fn view(&self) -> UploadedView {
        UploadedView {
            size: self.size@,
            md5: self.md5_digest@,
            checksums: mapping(self.checksums@),
        }
    }
}

/// The size and all digests of a staged upload.
#[derive(Debug, PartialEq, Eq)]
pub struct FinalUploadBody {
    /// The number of bytes.
    pub size: ContentLength,
    /// The digests of the bytes.
    pub digests: ChecksumDigests,
}

/// A [`FinalUploadBody`] as a mathematical value.
#[verifier::ext_equal]
pub struct FinalView {
    pub size: nat,
    pub digests: DigestsView,
}

impl View for FinalUploadBody {
    type V = FinalView;

    open spec fn view(&self) -> FinalView {
        FinalView { size: self.size@, digests: self.digests@ }
    }
}

/// Computes size and digests of a staged upload that is read in pieces.
pub struct StagedUploadSummary<'a> {
    digests: DigestState<'a>,
    size: u64,
}

/// A [`StagedUploadSummary`] as a mathematical value.
#[verifier::ext_equal]
pub struct SummaryView {
    pub digests: DigestStateView,
    pub size: nat,
}

impl<'a> View for StagedUploadSummary<'a> {
    type V = SummaryView;

    closed spec fn view(&self) -> SummaryView {
        SummaryView { digests: self.digests@, size: self.size as nat }
    }
}

/// The summary of the bytes read so far.
pub open spec fn summary_of(bytes: Seq<u8>) -> SummaryView {
    SummaryView { digests: digesting(all_digests(), bytes), size: saturated(bytes.len()) }
}

/// A summary after more bytes.
pub open spec fn summary_more(summary: SummaryView, bytes: Seq<u8>) -> SummaryView {
    SummaryView {
        digests: digest_more(summary.digests, bytes),
        size: saturated(summary.size + bytes.len()),
    }
}

impl<'a> StagedUploadSummary<'a> {
    /// The summary of nothing.
    pub fn new(engines: &'a CrcEngines) -> (summary: Self)
        ensures
            summary@ == summary_of(Seq::empty()),
    {
        let enabled = EnabledDigests {
            md5: true,
            sha1: true,
            sha256: true,
            sha512: true,
            crc32: true,
            crc32c: true,
        };
        StagedUploadSummary { digests: DigestState::new(enabled, engines), size: 0 }
    }

    /// Takes in the next piece.
    pub fn update(&mut self, piece: &[u8])
        ensures
            final(self)@ == summary_more(old(self)@, piece@),
    {
        let total: u128 = self.size as u128 + piece.len() as u128;
        self.size = if total > u64::MAX as u128 {
            u64::MAX
        } else {
            total as u64
        };
        self.digests.update(piece);
    }

    /// The size and the digests.
    pub fn finish(self) -> (body: FinalUploadBody)
        ensures
            body@ == (FinalView { size: self@.size, digests: finished_digests(self@.digests) }),
    {
        FinalUploadBody {
            size: ContentLength::new(self.size),
            digests: self.digests.finalize(),
        }
    }
}

/// The pieces in which a staged upload is read do not matter to its summary.
pub proof fn law_summary_does_not_depend_on_pieces(first: Seq<u8>, second: Seq<u8>)
    ensures
        summary_more(summary_of(first), second) == summary_of(first + second),
{
    law_digests_do_not_depend_on_pieces(all_digests(), first, second);
}

// ---------------------------------------------------------------------------------------------
// The state of an upload
// ---------------------------------------------------------------------------------------------
/// Whether a checksum is given as a header field or declared as a trailer.
pub open spec fn expects_checksum(
    headers: Seq<(Seq<char>, Seq<u8>)>,
    name: Seq<char>,
) -> bool {
    has_field(headers, name) || declares_trailer(headers, name)
}

/// The digests that an upload with these headers needs.
pub open spec fn upload_digests(headers: Seq<(Seq<char>, Seq<u8>)>) -> EnabledDigests {
    EnabledDigests {
        md5: true,
        sha1: expects_checksum(headers, "x-amz-checksum-sha1"@),
        sha256: needs_payload_sha256(headers) || expects_checksum(
            headers,
            "x-amz-checksum-sha256"@,
        ),
        sha512: expects_checksum(headers, "x-amz-checksum-sha512"@),
        crc32: expects_checksum(headers, "x-amz-checksum-crc32"@),
        crc32c: expects_checksum(headers, "x-amz-checksum-crc32c"@),
    }
}

/// The data of an upload that has arrived so far, as far as it is remembered: digests and size.
pub struct UploadBodyState<'a> {
    digests: DigestState<'a>,
    size: u64,
}

/// An [`UploadBodyState`] as a mathematical value.
#[verifier::ext_equal]
pub struct BodyStateView {
    pub digests: DigestStateView,
    pub size: nat,
}

impl<'a> View for UploadBodyState<'a> {
    type V = BodyStateView;

    closed spec fn view(&self) -> BodyStateView {
        BodyStateView { digests: self.digests@, size: self.size as nat }
    }
}

/// The state of an upload after some data.
pub open spec fn received(enabled: EnabledDigests, data: Seq<u8>) -> BodyStateView {
    BodyStateView { digests: digesting(enabled, data), size: data.len() }
}

impl<'a> UploadBodyState<'a> {
    /// The state of an upload of which nothing has arrived.
    pub fn new(headers: &HeaderMap, engines: &'a CrcEngines) -> (state: Self)
        ensures
            state@ == received(upload_digests(headers@), Seq::empty()),
    {
        let enabled = EnabledDigests {
            md5: true,
            sha1: checksum_header_or_declared_trailer(headers, "x-amz-checksum-sha1"),
            sha256: requires_actual_sha256_payload_hash(headers)
                || checksum_header_or_declared_trailer(headers, "x-amz-checksum-sha256"),
            sha512: checksum_header_or_declared_trailer(headers, "x-amz-checksum-sha512"),
            crc32: checksum_header_or_declared_trailer(headers, "x-amz-checksum-crc32"),
            crc32c: checksum_header_or_declared_trailer(headers, "x-amz-checksum-crc32c"),
        };
        UploadBodyState { digests: DigestState::new(enabled, engines), size: 0 }
    }

    /// Which digests are computed.
    pub fn enabled_digests(&self) -> (enabled: EnabledDigests)
        ensures
            enabled.md5 == self@.digests.md5 is Some,
            enabled.sha1 == self@.digests.sha1 is Some,
            enabled.sha256 == self@.digests.sha256 is Some,
            enabled.sha512 == self@.digests.sha512 is Some,
            enabled.crc32 == self@.digests.crc32 is Some,
            enabled.crc32c == self@.digests.crc32c is Some,
    {
        self.digests.enabled_digests()
    }

    /// The number of bytes of data that have arrived.
    pub fn size(&self) -> (size: u64)
        ensures
            size as nat == self@.size,
    {
        self.size
    }

    /// Takes in a chunk of data.
    pub fn absorb(&mut self, chunk: &[u8])
        requires
            old(self)@.size + chunk@.len() <= u64::MAX,
        ensures
            final(self)@ == (BodyStateView {
                digests: digest_more(old(self)@.digests, chunk@),
                size: old(self)@.size + chunk@.len(),
            }),
    {
        self.size = self.size + chunk.len() as u64;
        self.digests.update(chunk);
    }
}

// ---------------------------------------------------------------------------------------------
// Receiving the pieces of a request body
// ---------------------------------------------------------------------------------------------
/// How the body of an upload is framed.
pub enum BodyFraming {
    /// The pieces are the data.
    Plain {
        /// The declared length.
        expected: Option<ContentLength>,
        /// The piece that has arrived and was not handed out yet.
        pending: Option<Vec<u8>>,
    },
    /// The pieces are aws-chunked, and the body is not complete.
    Chunked(AwsChunkedUploadParser),
    /// The pieces were aws-chunked, and the body is complete with these trailers.
    Complete(TextMap),
}

/// A [`BodyFraming`] as a mathematical value.
#[verifier::ext_equal]
pub enum FramingView {
    Plain { expected: Option<nat>, pending: Option<Seq<u8>> },
    Chunked(ParserView),
    Complete(Seq<(Seq<char>, Seq<char>)>),
}

impl View for BodyFraming {
    type V = FramingView;

    open spec fn view(&self) -> FramingView {
        match self {
            BodyFraming::Plain { expected, pending } => FramingView::Plain {
                expected: opt_length(*expected),
                pending: match pending {
                    Some(piece) => Some(piece@),
                    None => None,
                },
            },
            BodyFraming::Chunked(parser) => FramingView::Chunked(parser@),
            BodyFraming::Complete(trailers) => FramingView::Complete(trailers@),
        }
    }
}

/// Takes in the pieces of an upload's request body and hands out its data.
pub struct UploadReceiver<'a> {
    state: UploadBodyState<'a>,
    framing: BodyFraming,
    max_decoded_size: u64,
}

/// An [`UploadReceiver`] as a mathematical value.
#[verifier::ext_equal]
pub struct ReceiverView {
    pub state: BodyStateView,
    pub framing: FramingView,
    pub max: nat,
}

impl<'a> View for UploadReceiver<'a> {
    type V = ReceiverView;

    closed spec fn view(&self) -> ReceiverView {
        ReceiverView {
            state: self.state@,
            framing: self.framing@,
            max: self.max_decoded_size as nat,
        }
    }
}

/// The framing with which an upload starts.
pub open spec fn initial_framing(
    headers: Seq<(Seq<char>, Seq<u8>)>,
    context: Option<StreamingView>,
) -> Result<FramingView, ErrorView> {
    match upload_mode_error(headers) {
        Some(error) => Err(error),
        None => if is_aws_chunked(headers) {
            match upload_verifier(headers, context) {
                Err(error) => Err(error),
                Ok(verifier) => Ok(FramingView::Chunked(new_parser(verifier))),
            }
        } else {
            match declared_length(headers) {
                Err(error) => Err(error),
                Ok(expected) => Ok(FramingView::Plain { expected, pending: None }),
            }
        },
    }
}

/// What a receiver hands out next.
#[verifier::ext_equal]
pub enum HandOut {
    /// A chunk of data.
    Data { framing: FramingView, data: Seq<u8> },
    /// Nothing until another piece arrives, or nothing at all.
    Nothing(FramingView),
    /// The body is refused.
    Fail(ErrorView),
}

/// The steps of a parser up to the next chunk of data, or as far as they go.
pub open spec fn next_data(p: ParserView, written: nat, max: nat) -> HandOut
    decreases p.buffer.len(),
{
    match step(p, written, max) {
        StepView::NeedMore => HandOut::Nothing(FramingView::Chunked(p)),
        StepView::Fail(error) => HandOut::Fail(error),
        StepView::Finished { parser, trailers } => HandOut::Nothing(FramingView::Complete(trailers)),
        StepView::Advance { parser, data } => if data.len() > 0 {
            HandOut::Data { framing: FramingView::Chunked(parser), data }
        } else if parser.buffer.len() < p.buffer.len() {
            next_data(parser, written, max)
        } else {
            HandOut::Nothing(FramingView::Chunked(parser))
        },
    }
}

/// What a receiver hands out next, after `written` bytes of data.
pub open spec fn hand_out(framing: FramingView, written: nat, max: nat) -> HandOut {
    match framing {
        FramingView::Plain { expected, pending } => match pending {
            None => HandOut::Nothing(framing),
            Some(piece) => match chunk_length_error(expected, written, piece.len()) {
                Some(error) => HandOut::Fail(error),
                None => match write_error(written, piece.len(), max) {
                    Some(error) => HandOut::Fail(error),
                    None => HandOut::Data {
                        framing: FramingView::Plain { expected, pending: None },
                        data: piece,
                    },
                },
            },
        },
        FramingView::Chunked(parser) => next_data(parser, written, max),
        FramingView::Complete(_) => HandOut::Nothing(framing),
    }
}

/// A receiver's framing after a piece has arrived.
pub open spec fn offered(framing: FramingView, piece: Seq<u8>) -> FramingView {
    match framing {
        FramingView::Plain { expected, pending } => FramingView::Plain {
            expected,
            pending: Some(piece),
        },
        FramingView::Chunked(parser) => FramingView::Chunked(fed(parser, piece)),
        FramingView::Complete(_) => framing,
    }
}

/// The trailers of a body whose pieces have all arrived, or the error of one that is incomplete.
pub open spec fn final_trailers(
    headers: Seq<(Seq<char>, Seq<u8>)>,
    framing: FramingView,
    size: nat,
) -> Result<Map<Seq<char>, Seq<char>>, ErrorView> {
    match framing {
        FramingView::Plain { expected, pending } => match body_length_error(expected, size) {
            Some(error) => Err(error),
            None => Ok(Map::empty()),
        },
        FramingView::Chunked(parser) => if parser.mode is Done {
            match decoded_length_error(headers, size) {
                Some(error) => Err(error),
                None => Ok(mapping(parser.trailers)),
            }
        } else {
            Err(invalid_request("aws-chunked body ended unexpectedly"@))
        },
        FramingView::Complete(trailers) => match decoded_length_error(headers, size) {
            Some(error) => Err(error),
            None => Ok(mapping(trailers)),
        },
    }
}

/// What an upload amounts to, given its trailers and the digests of its data.
pub open spec fn accepted_upload(
    headers: Seq<(Seq<char>, Seq<u8>)>,
    trailers: Map<Seq<char>, Seq<char>>,
    digests: DigestsView,
    size: nat,
) -> Result<UploadedView, ErrorView> {
    let hash_error = if is_aws_chunked(headers) {
        None
    } else {
        fixed_hash_error(headers, digests.sha256)
    };
    match hash_error {
        Some(error) => Err(error),
        None => match requested_checksums(headers, trailers) {
            Err(error) => Err(error),
            Ok(request) => match mismatch_error(request, digests) {
                Some(error) => Err(error),
                None => Ok(UploadedView { size, md5: digests.md5, checksums: request.values }),
            },
        },
    }
}

/// What the upload of a receiver amounts to once its pieces have all arrived.
pub open spec fn receiver_result(
    headers: Seq<(Seq<char>, Seq<u8>)>,
    framing: FramingView,
    state: BodyStateView,
) -> Result<UploadedView, ErrorView> {
    match final_trailers(headers, framing, state.size) {
        Err(error) => Err(error),
        Ok(trailers) => accepted_upload(
            headers,
            trailers,
            finished_digests(state.digests),
            state.size,
        ),
    }
}

impl<'a> UploadReceiver<'a> {
    /// Starts to receive an upload.
    pub fn new(
        headers: &HeaderMap,
        engines: &'a CrcEngines,
        streaming_signing: Option<&StreamingSigningContext>,
        max_decoded_size: u64,
    ) -> (result: Result<Self, S3Error>)
        ensures
            match result {
                Err(error) => initial_framing(headers@, opt_streaming(streaming_signing)) == Err::<
                    FramingView,
                    _,
                >(error@),
                Ok(receiver) => {
                    &&& initial_framing(headers@, opt_streaming(streaming_signing)) == Ok::<
                        _,
                        ErrorView,
                    >(receiver@.framing)
                    &&& receiver@.state == received(upload_digests(headers@), Seq::empty())
                    &&& receiver@.max == max_decoded_size
                },
            },
    {
        match validate_payload_hash_mode(headers) {
            Ok(()) => {},
            Err(error) => {
                return Err(error);
            },
        }
        let state = UploadBodyState::new(headers, engines);
        let framing = if is_aws_chunked_request(headers) {
            match streaming_signature_verifier(headers, streaming_signing) {
                Ok(verifier) => BodyFraming::Chunked(AwsChunkedUploadParser::new(verifier)),
                Err(error) => {
                    return Err(error);
                },
            }
        } else {
            match content_length(headers) {
                Ok(expected) => BodyFraming::Plain { expected, pending: None },
                Err(error) => {
                    return Err(error);
                },
            }
        };
        Ok(UploadReceiver { state, framing, max_decoded_size })
    }

    /// Takes in the next piece of the request body.
    pub fn offer(&mut self, piece: &[u8])
        ensures
            final(self)@ == (ReceiverView {
                framing: offered(old(self)@.framing, piece@),
                ..old(self)@
            }),
    {
        match &mut self.framing {
            BodyFraming::Plain { expected: _, pending } => {
                *pending = Some(vstd::slice::slice_to_vec(piece));
            },
            BodyFraming::Chunked(parser) => {
                parser.feed(piece);
            },
            BodyFraming::Complete(_) => {},
        }
    }

    /// Whether the body is complete, whatever else arrives.
    pub fn is_complete(&self) -> (result: bool)
        ensures
            result == self@.framing is Complete,
    {
        match &self.framing {
            BodyFraming::Complete(_) => true,
            _ => false,
        }
    }
}

/// What pulling on a parser gives.
enum Pulled {
    Data(Vec<u8>),
    NeedMore,
    Finished(TextMap),
}

/// Lets a parser read up to its next chunk of data.
fn pull(parser: &mut AwsChunkedUploadParser, written: u64, max: u64) -> (result: Result<
    Pulled,
    S3Error,
>)
    ensures
        match result {
            Err(error) => next_data(old(parser)@, written as nat, max as nat) == HandOut::Fail(
                error@,
            ),
            Ok(Pulled::Data(data)) => next_data(old(parser)@, written as nat, max as nat) == (
            HandOut::Data { framing: FramingView::Chunked(final(parser)@), data: data@ }) && written
                + data@.len() <= u64::MAX,
            Ok(Pulled::NeedMore) => next_data(old(parser)@, written as nat, max as nat)
                == HandOut::Nothing(FramingView::Chunked(final(parser)@)),
            Ok(Pulled::Finished(trailers)) => next_data(old(parser)@, written as nat, max as nat)
                == HandOut::Nothing(FramingView::Complete(trailers@)),
        },
{
    loop
        invariant
            next_data(parser@, written as nat, max as nat) == next_data(
                old(parser)@,
                written as nat,
                max as nat,
            ),
        decreases parser@.buffer.len(),
    {
        proof {
            lemma_step_consumes(parser@, written as nat, max as nat);
        }
        match parser.next_event(written, max) {
            Err(error) => {
                return Err(error);
            },
            Ok(ParserEvent::NeedMore) => {
                return Ok(Pulled::NeedMore);
            },
            Ok(ParserEvent::Progress) => {},
            Ok(ParserEvent::Data(data)) => {
                if data.len() > 0 {
                    return Ok(Pulled::Data(data));
                }
            },
            Ok(ParserEvent::Finished(trailers)) => {
                return Ok(Pulled::Finished(trailers));
            },
        }
    }
}

impl<'a> UploadReceiver<'a> {
    /// Hands out the next chunk of data, if the pieces that have arrived complete one.
    pub fn next_chunk(&mut self) -> (result: Result<Option<Vec<u8>>, S3Error>)
        ensures
            match result {
                Err(error) => hand_out(
                    old(self)@.framing,
                    old(self)@.state.size,
                    old(self)@.max,
                ) == HandOut::Fail(error@),
                Ok(None) => {
                    &&& hand_out(old(self)@.framing, old(self)@.state.size, old(self)@.max)
                        == HandOut::Nothing(final(self)@.framing)
                    &&& final(self)@.state == old(self)@.state
                    &&& final(self)@.max == old(self)@.max
                },
                Ok(Some(chunk)) => {
                    &&& hand_out(old(self)@.framing, old(self)@.state.size, old(self)@.max) == (
                    HandOut::Data { framing: final(self)@.framing, data: chunk@ })
                    &&& final(self)@.state == (BodyStateView {
                        digests: digest_more(old(self)@.state.digests, chunk@),
                        size: old(self)@.state.size + chunk@.len(),
                    })
                    &&& final(self)@.max == old(self)@.max
                },
            },
    {
        let written: u64 = self.state.size();
        let max: u64 = self.max_decoded_size;
        let chunk = match &mut self.framing {
            BodyFraming::Plain { expected, pending } => {
                let piece = match pending.take() {
                    None => {
                        return Ok(None);
                    },
                    Some(piece) => piece,
                };
                match validate_plain_body_chunk_length(*expected, written, piece.len()) {
                    Ok(()) => {},
                    Err(error) => {
                        return Err(error);
                    },
                }
                match validate_decoded_size_limit(written, piece.len(), max) {
                    Ok(()) => {},
                    Err(error) => {
                        return Err(error);
                    },
                }
                if piece.len() as u128 + written as u128 > u64::MAX as u128 {
                    return Err(
                        S3Error::entity_too_large(
                            "Your proposed upload exceeds the maximum allowed size.",
                        ),
                    );
                }
                piece
            },
            BodyFraming::Chunked(parser) => match pull(parser, written, max) {
                Err(error) => {
                    return Err(error);
                },
                Ok(Pulled::NeedMore) => {
                    return Ok(None);
                },
                Ok(Pulled::Data(data)) => data,
                Ok(Pulled::Finished(trailers)) => {
                    self.framing = BodyFraming::Complete(trailers);
                    return Ok(None);
                },
            },
            BodyFraming::Complete(_) => {
                return Ok(None);
            },
        };
        self.state.absorb(chunk.as_slice());
        Ok(Some(chunk))
    }

    /// Checks an upload whose pieces have all arrived.
    pub fn finish(self, headers: &HeaderMap) -> (result: Result<UploadedBody, S3Error>)
        ensures
            result_view(result) == receiver_result(headers@, self@.framing, self@.state),
    {
        let size: u64 = self.state.size;
        let trailers = match self.framing {
            BodyFraming::Plain { expected, pending: _ } => {
                match validate_plain_content_length(expected, size) {
                    Ok(()) => {},
                    Err(error) => {
                        return Err(error);
                    },
                }
                let none = TextMap::new();
                assert(mapping(none@) =~= Map::<Seq<char>, Seq<char>>::empty());
                none
            },
            BodyFraming::Chunked(parser) => match parser.finish() {
                None => {
                    return Err(S3Error::invalid_request("aws-chunked body ended unexpectedly"));
                },
                Some(trailers) => {
                    match validate_decoded_content_length(headers, size) {
                        Ok(()) => {},
                        Err(error) => {
                            return Err(error);
                        },
                    }
                    trailers
                },
            },
            BodyFraming::Complete(trailers) => {
                match validate_decoded_content_length(headers, size) {
                    Ok(()) => {},
                    Err(error) => {
                        return Err(error);
                    },
                }
                trailers
            },
        };
        let digests = self.state.digests.finalize();
        match validate_actual_sha256_payload_hash(headers, &digests.sha256) {
            Ok(()) => {},
            Err(error) => {
                return Err(error);
            },
        }
        let request = match ChecksumRequest::from_headers_and_trailers(headers, &trailers) {
            Ok(request) => request,
            Err(error) => {
                return Err(error);
            },
        };
        match request.validate(&digests) {
            Ok(()) => {},
            Err(error) => {
                return Err(error);
            },
        }
        Ok(
            UploadedBody {
                size: ContentLength::new(size),
                md5_digest: digests.md5,
                checksums: request.checksum_values(),
            },
        )
    }
}

// ---------------------------------------------------------------------------------------------
// Whole uploads
// ---------------------------------------------------------------------------------------------
/// The data of the pieces from the first on, and the framing after them.
pub open spec fn received_pieces(
    framing: FramingView,
    pieces: Seq<Seq<u8>>,
    written: nat,
    max: nat,
) -> (Seq<u8>, Result<FramingView, ErrorView>)
    decreases pieces.len(),
{
    if pieces.len() == 0 || framing is Complete {
        (Seq::empty(), Ok(framing))
    } else {
        let (data, result) = drained(offered(framing, pieces[0]), written, max);
        match result {
            Err(error) => (data, Err(error)),
            Ok(next) => {
                let (more, end) = received_pieces(next, pieces.skip(1), written + data.len(), max);
                (data + more, end)
            },
        }
    }
}

/// All that a receiver hands out of the pieces it has, and its framing after that.
pub open spec fn drained(framing: FramingView, written: nat, max: nat) -> (
    Seq<u8>,
    Result<FramingView, ErrorView>,
) {
    match framing {
        FramingView::Plain { expected, pending } => match hand_out(framing, written, max) {
            HandOut::Data { framing: next, data } => (data, Ok(next)),
            HandOut::Nothing(next) => (Seq::empty(), Ok(next)),
            HandOut::Fail(error) => (Seq::empty(), Err(error)),
        },
        FramingView::Chunked(parser) => {
            let (data, outcome) = run(parser, written, max);
            match outcome {
                Outcome::NeedMore(next) => (data, Ok(FramingView::Chunked(next))),
                Outcome::Fail(error) => (data, Err(error)),
                Outcome::Finished(_, trailers) => (data, Ok(FramingView::Complete(trailers))),
            }
        },
        FramingView::Complete(_) => (Seq::empty(), Ok(framing)),
    }
}

/// The first chunk that a parser hands out is the first of all its data.
proof fn lemma_next_data(p: ParserView, written: nat, max: nat)
    ensures
        match next_data(p, written, max) {
            HandOut::Data { framing, data } => {
                let (more, end) = drained(framing, written + data.len(), max);
                drained(FramingView::Chunked(p), written, max) == (data + more, end)
            },
            HandOut::Nothing(framing) => drained(FramingView::Chunked(p), written, max) == (
                Seq::<u8>::empty(),
                Ok::<_, ErrorView>(framing),
            ),
            HandOut::Fail(error) => drained(FramingView::Chunked(p), written, max) == (
                Seq::<u8>::empty(),
                Err::<FramingView, _>(error),
            ),
        },
    decreases p.buffer.len(),
{
    lemma_step_consumes(p, written, max);
    match step(p, written, max) {
        StepView::Advance { parser, data } => {
            if data.len() == 0 {
                lemma_next_data(parser, written, max);
                let (more, outcome) = run(parser, written, max);
                assert(data + more =~= more);
            }
        },
        _ => {},
    }
}

/// What remains to be taken in: what decreases while a receiver hands out data.
pub open spec fn unread(framing: FramingView) -> nat {
    match framing {
        FramingView::Plain { expected, pending } => if pending is Some {
            1
        } else {
            0
        },
        FramingView::Chunked(parser) => parser.buffer.len(),
        FramingView::Complete(_) => 0,
    }
}

proof fn lemma_next_data_consumes(p: ParserView, written: nat, max: nat)
    ensures
        next_data(p, written, max) matches HandOut::Data { framing, data } ==> framing is Chunked
            && unread(framing) < p.buffer.len(),
    decreases p.buffer.len(),
{
    lemma_step_consumes(p, written, max);
    match step(p, written, max) {
        StepView::Advance { parser, data } => {
            if data.len() == 0 {
                lemma_next_data_consumes(parser, written, max);
            }
        },
        _ => {},
    }
}

proof fn lemma_hand_out(framing: FramingView, written: nat, max: nat)
    ensures
        match hand_out(framing, written, max) {
            HandOut::Data { framing: next, data } => {
                let (more, end) = drained(next, written + data.len(), max);
                &&& drained(framing, written, max) == (data + more, end)
                &&& unread(next) < unread(framing)
            },
            HandOut::Nothing(next) => drained(framing, written, max) == (
                Seq::<u8>::empty(),
                Ok::<_, ErrorView>(next),
            ),
            HandOut::Fail(error) => drained(framing, written, max) == (
                Seq::<u8>::empty(),
                Err::<FramingView, _>(error),
            ),
        },
{
    match framing {
        FramingView::Plain { expected, pending } => {
            match hand_out(framing, written, max) {
                HandOut::Data { framing: next, data } => {
                    assert(data + Seq::<u8>::empty() =~= data);
                },
                _ => {},
            }
        },
        FramingView::Chunked(parser) => {
            lemma_next_data(parser, written, max);
            lemma_next_data_consumes(parser, written, max);
        },
        FramingView::Complete(_) => {},
    }
}

impl<'a> UploadReceiver<'a> {
    /// Appends to `writer` all that the pieces that have arrived complete.
    pub fn drain(&mut self, writer: &mut Vec<u8>) -> (result: Result<(), S3Error>)
        ensures
            ({
                let (data, end) = drained(
                    old(self)@.framing,
                    old(self)@.state.size,
                    old(self)@.max,
                );
                &&& final(writer)@ == old(writer)@ + data
                &&& match result {
                    Err(error) => end == Err::<FramingView, _>(error@),
                    Ok(()) => {
                        &&& end == Ok::<_, ErrorView>(final(self)@.framing)
                        &&& final(self)@.state == (BodyStateView {
                            digests: digest_more(old(self)@.state.digests, data),
                            size: old(self)@.state.size + data.len(),
                        })
                        &&& final(self)@.max == old(self)@.max
                    },
                }
            }),
    {
        let ghost from = self@;
        let ghost total = drained(from.framing, from.state.size, from.max);
        let ghost start = writer@;
        let ghost mut part = Seq::<u8>::empty();
        proof {
            assert(part + total.0 =~= total.0);
            assert(start + part =~= start);
            assert(digest_more(from.state.digests, part) =~= from.state.digests);
        }
        loop
            invariant
                from == old(self)@,
                start == old(writer)@,
                total == drained(from.framing, from.state.size, from.max),
                self@.max == from.max,
                self@.state == (BodyStateView {
                    digests: digest_more(from.state.digests, part),
                    size: from.state.size + part.len(),
                }),
                writer@ == start + part,
                ({
                    let more = drained(self@.framing, self@.state.size, from.max);
                    total.0 == part + more.0 && total.1 == more.1
                }),
            decreases unread(self@.framing),
        {
            proof {
                lemma_hand_out(self@.framing, self@.state.size, from.max);
                assert(part + Seq::<u8>::empty() =~= part);
            }
            match self.next_chunk() {
                Err(error) => {
                    return Err(error);
                },
                Ok(None) => {
                    return Ok(());
                },
                Ok(Some(chunk)) => {
                    let ghost before = part;
                    writer.extend_from_slice(chunk.as_slice());
                    proof {
                        part = before + chunk@;
                        assert(start + before + chunk@ =~= start + part);
                        lemma_digest_more(from.state.digests, before, chunk@);
                        let more = drained(self@.framing, self@.state.size, from.max);
                        assert(before + (chunk@ + more.0) =~= part + more.0);
                    }
                },
            }
        }
    }
}

/// The data of an upload, as far as it is accepted.
pub open spec fn upload_data(
    headers: Seq<(Seq<char>, Seq<u8>)>,
    pieces: Seq<Seq<u8>>,
    context: Option<StreamingView>,
    max: nat,
) -> Seq<u8> {
    match initial_framing(headers, context) {
        Err(_) => Seq::empty(),
        Ok(framing) => received_pieces(framing, pieces, 0, max).0,
    }
}

/// What an upload amounts to: the checks of its framing, its sizes, its signatures, its payload
/// hash and its checksums, in this order.
pub open spec fn upload_result(
    headers: Seq<(Seq<char>, Seq<u8>)>,
    pieces: Seq<Seq<u8>>,
    context: Option<StreamingView>,
    max: nat,
) -> Result<UploadedView, ErrorView> {
    match initial_framing(headers, context) {
        Err(error) => Err(error),
        Ok(framing) => {
            let (data, result) = received_pieces(framing, pieces, 0, max);
            match result {
                Err(error) => Err(error),
                Ok(end) => receiver_result(headers, end, received(upload_digests(headers), data)),
            }
        },
    }
}

/// The bytes of the pieces of a body.
pub open spec fn piece_views(pieces: Seq<Vec<u8>>) -> Seq<Seq<u8>> {
    pieces.map_values(|piece: Vec<u8>| piece@)
}

/// Receives the pieces of a request body, appends its data to `writer` and checks the upload.
pub fn write_upload_body(
    headers: &HeaderMap,
    pieces: &Vec<Vec<u8>>,
    writer: &mut Vec<u8>,
    streaming_signing: Option<&StreamingSigningContext>,
    max_decoded_size: u64,
) -> (result: Result<UploadedBody, S3Error>)
    ensures
        result_view(result) == upload_result(
            headers@,
            piece_views(pieces@),
            opt_streaming(streaming_signing),
            max_decoded_size as nat,
        ),
        final(writer)@ == old(writer)@ + upload_data(
            headers@,
            piece_views(pieces@),
            opt_streaming(streaming_signing),
            max_decoded_size as nat,
        ),
{
    let ghost start = writer@;
    let ghost context = opt_streaming(streaming_signing);
    let ghost all = piece_views(pieces@);
    let ghost max = max_decoded_size as nat;
    let ghost enabled = upload_digests(headers@);
    let engines = CrcEngines::new();
    let mut receiver = match UploadReceiver::new(
        headers,
        &engines,
        streaming_signing,
        max_decoded_size,
    ) {
        Ok(receiver) => receiver,
        Err(error) => {
            assert(writer@ =~= start + Seq::<u8>::empty());
            return Err(error);
        },
    };
    let ghost framing = initial_framing(headers@, context)->Ok_0;
    let ghost total = received_pieces(framing, all, 0, max);
    let ghost mut data = Seq::<u8>::empty();
    let mut i: usize = 0;
    proof {
        assert(all.skip(0) =~= all);
        assert(data + total.0 =~= total.0);
        assert(writer@ =~= start + data);
    }
    while i < pieces.len() && !receiver.is_complete()
        invariant
            i <= pieces@.len(),
            all == piece_views(pieces@),
            receiver@.max == max,
            receiver@.state == received(enabled, data),
            writer@ == start + data,
            ({
                let rest = received_pieces(
                    receiver@.framing,
                    all.skip(i as int),
                    data.len(),
                    max,
                );
                total.0 == data + rest.0 && total.1 == rest.1
            }),
            start == old(writer)@,
            total.0 == upload_data(headers@, all, context, max),
            match total.1 {
                Err(error) => upload_result(headers@, all, context, max) == Err::<UploadedView, _>(
                    error,
                ),
                Ok(end) => upload_result(headers@, all, context, max) == receiver_result(
                    headers@,
                    end,
                    received(enabled, total.0),
                ),
            },
            context == opt_streaming(streaming_signing),
            max == max_decoded_size,
        decreases pieces@.len() - i,
    {
        let ghost before = receiver@.framing;
        let ghost rest = all.skip(i as int);
        receiver.offer(pieces[i].as_slice());
        proof {
            assert(rest[0] == pieces@[i as int]@);
            assert(rest.skip(1) =~= all.skip(i + 1));
        }
        let ghost base = data;
        let ghost step_total = drained(receiver@.framing, base.len(), max);
        match receiver.drain(writer) {
            Err(error) => {
                assert(start + base + step_total.0 =~= start + total.0);
                return Err(error);
            },
            Ok(()) => {
                proof {
                    data = base + step_total.0;
                    law_digests_do_not_depend_on_pieces(enabled, base, step_total.0);
                    let end = received_pieces(
                        receiver@.framing,
                        all.skip(i + 1),
                        data.len(),
                        max,
                    );
                    assert(base + (step_total.0 + end.0) =~= data + end.0);
                    assert(start + base + step_total.0 =~= start + data);
                }
            },
        }
        i += 1;
    }
    proof {
        let rest = received_pieces(receiver@.framing, all.skip(i as int), data.len(), max);
        assert(rest.0 =~= Seq::<u8>::empty());
        assert(data + rest.0 =~= data);
    }
    receiver.finish(headers)
}

// ---------------------------------------------------------------------------------------------
// Laws
// ---------------------------------------------------------------------------------------------
/// The trailers of an upload that is complete.
pub open spec fn upload_trailers(
    headers: Seq<(Seq<char>, Seq<u8>)>,
    pieces: Seq<Seq<u8>>,
    context: Option<StreamingView>,
    max: nat,
) -> Map<Seq<char>, Seq<char>> {
    let (data, end) = received_pieces(initial_framing(headers, context)->Ok_0, pieces, 0, max);
    final_trailers(headers, end->Ok_0, data.len())->Ok_0
}

proof fn lemma_declared_item(
    pieces: Seq<Seq<char>>,
    trailers: Map<Seq<char>, Seq<char>>,
    name: Seq<char>,
) -> (i: int)
    requires
        declared_names(pieces, trailers) is Ok,
        declared_names(pieces, trailers)->Ok_0.contains(name),
    ensures
        0 <= i < pieces.len(),
        lowercase(trim(pieces[i])) == name,
    decreases pieces.len(),
{
    let before = pieces.drop_last();
    if declared_names(before, trailers)->Ok_0.contains(name) {
        lemma_declared_item(before, trailers, name)
    } else {
        pieces.len() - 1
    }
}

proof fn lemma_checksum_header_is_lowercase(name: ChecksumName)
    ensures
        lowercase(checksum_header(name)) == checksum_header(name),
{
    reveal_strlit("x-amz-checksum-crc32");
    reveal_strlit("x-amz-checksum-crc32c");
    reveal_strlit("x-amz-checksum-sha1");
    reveal_strlit("x-amz-checksum-sha256");
    reveal_strlit("x-amz-checksum-sha512");
    assert(lowercase(checksum_header(name)) =~= checksum_header(name));
}

/// Every checksum that a request gives, in a header field or as a trailer, is computed.
proof fn lemma_requested_is_enabled(
    headers: Seq<(Seq<char>, Seq<u8>)>,
    trailers: Map<Seq<char>, Seq<char>>,
    name: ChecksumName,
)
    requires
        requested_checksums(headers, trailers) is Ok,
        requested_digest(headers, trailers, name)->Ok_0 is Some,
    ensures
        expects_checksum(headers, checksum_header(name)),
{
    let header = checksum_header(name);
    if !has_field(headers, header) {
        assert(trailers.dom().contains(header));
        reveal_with_fuel(undeclared_error, 6);
        let found = values(headers, "x-amz-trailer"@);
        assert(checksum_at(0) == ChecksumName::Crc32);
        assert(checksum_at(1) == ChecksumName::Crc32c);
        assert(checksum_at(2) == ChecksumName::Sha1);
        assert(checksum_at(3) == ChecksumName::Sha256);
        assert(checksum_at(4) == ChecksumName::Sha512);
        assert(declaration_error(headers, trailers) is None);
        assert(found.len() == 1);
        let text = field_text(found[0])->0;
        let pieces = split(text, ',');
        assert(declared_names(pieces, trailers)->Ok_0.contains(header));
        let i = lemma_declared_item(pieces, trailers, header);
        lemma_checksum_header_is_lowercase(name);
        assert(lowercase(trim(split(text, ',')[i])) == lowercase(header));
        assert(lists_item(text, header));
    }
}

/// An upload that is accepted has every digest that its request gives: the data that was written is
/// what the Content-MD5, each checksum and the payload hash were computed from.
pub proof fn law_accepted_data_has_the_given_digests(
    headers: Seq<(Seq<char>, Seq<u8>)>,
    pieces: Seq<Seq<u8>>,
    context: Option<StreamingView>,
    max: nat,
)
    requires
        upload_result(headers, pieces, context, max) is Ok,
    ensures
        ({
            let data = upload_data(headers, pieces, context, max);
            let trailers = upload_trailers(headers, pieces, context, max);
            let body = upload_result(headers, pieces, context, max)->Ok_0;
            &&& body.size == data.len()
            &&& body.md5 == md5_digest(data)
            &&& supplied_digest(headers, trailers, "content-md5"@, 16) matches Ok(Some(given))
                ==> given == md5_digest(data)
            &&& forall|name: ChecksumName|
                (#[trigger] requested_digest(headers, trailers, name)) matches Ok(Some(given))
                    ==> given == digest_bytes(name, digests_of(all_digests(), data))
            &&& !is_aws_chunked(headers) ==> (payload_mode(headers) matches Ok(
                PayloadHashModeView::FixedSha256 { digest, .. },
            ) ==> digest == sha256_digest(data))
        }),
{
    let data = upload_data(headers, pieces, context, max);
    let trailers = upload_trailers(headers, pieces, context, max);
    let enabled = upload_digests(headers);
    let digests = digests_of(enabled, data);
    assert(accepted_upload(headers, trailers, digests, data.len()) is Ok);
    let request = requested_checksums(headers, trailers)->Ok_0;
    assert(mismatch_error(request, digests) is None);
    assert forall|name: ChecksumName|
        (#[trigger] requested_digest(headers, trailers, name)) matches Ok(
            Some(given),
        ) implies requested_digest(headers, trailers, name)->Ok_0->0 == digest_bytes(
        name,
        digests_of(all_digests(), data),
    ) by {
        lemma_requested_is_enabled(headers, trailers, name);
    }
}

/// The data of an upload that is not aws-chunked, as far as it is received, is what arrived.
proof fn lemma_plain_pieces(expected: Option<nat>, pieces: Seq<Seq<u8>>, written: nat, max: nat)
    requires
        received_pieces(FramingView::Plain { expected, pending: None }, pieces, written, max).1
            is Ok,
    ensures
        received_pieces(FramingView::Plain { expected, pending: None }, pieces, written, max) == (
            pieces.flatten(),
            Ok::<_, ErrorView>(FramingView::Plain { expected, pending: None }),
        ),
    decreases pieces.len(),
{
    let framing = FramingView::Plain { expected, pending: None };
    if pieces.len() > 0 {
        let (data, next) = drained(offered(framing, pieces[0]), written, max);
        assert(data == pieces[0]);
        lemma_plain_pieces(expected, pieces.skip(1), written + data.len(), max);
        assert(pieces.skip(1) =~= pieces.drop_first());
    }
}

/// A plain upload that is accepted is written as it arrived.
pub proof fn law_plain_uploads_are_written_unchanged(
    headers: Seq<(Seq<char>, Seq<u8>)>,
    pieces: Seq<Seq<u8>>,
    context: Option<StreamingView>,
    max: nat,
)
    requires
        !is_aws_chunked(headers),
        upload_result(headers, pieces, context, max) is Ok,
    ensures
        upload_data(headers, pieces, context, max) == pieces.flatten(),
{
    lemma_plain_pieces(declared_length(headers)->Ok_0, pieces, 0, max);
}

proof fn lemma_pieces_within_limit(
    framing: FramingView,
    pieces: Seq<Seq<u8>>,
    written: nat,
    max: nat,
)
    requires
        written <= max <= u64::MAX,
    ensures
        written + received_pieces(framing, pieces, written, max).0.len() <= max,
    decreases pieces.len(),
{
    if pieces.len() > 0 && !(framing is Complete) {
        let next = offered(framing, pieces[0]);
        let (data, result) = drained(next, written, max);
        match next {
            FramingView::Chunked(parser) => {
                law_data_stays_within_limit(parser, written, max);
            },
            _ => {},
        }
        if result is Ok {
            lemma_pieces_within_limit(
                result->Ok_0,
                pieces.skip(1),
                written + data.len(),
                max,
            );
        }
    }
}

/// Of no upload, accepted or refused, is more written than the largest allowed size.
pub proof fn law_uploads_stay_within_limit(
    headers: Seq<(Seq<char>, Seq<u8>)>,
    pieces: Seq<Seq<u8>>,
    context: Option<StreamingView>,
    max: nat,
)
    requires
        max <= u64::MAX,
    ensures
        upload_data(headers, pieces, context, max).len() <= max,
{
    if initial_framing(headers, context) is Ok {
        lemma_pieces_within_limit(initial_framing(headers, context)->Ok_0, pieces, 0, max);
    }
}

/// An upload that is accepted has the checksums that its request gives, each by the algorithm that
/// its name says.
pub proof fn law_checksums_are_those_of_the_data(
    headers: Seq<(Seq<char>, Seq<u8>)>,
    pieces: Seq<Seq<u8>>,
    context: Option<StreamingView>,
    max: nat,
)
    requires
        upload_result(headers, pieces, context, max) is Ok,
    ensures
        ({
            let data = upload_data(headers, pieces, context, max);
            let trailers = upload_trailers(headers, pieces, context, max);
            &&& supplied_digest(headers, trailers, "x-amz-checksum-crc32"@, 4) matches Ok(
                Some(given),
            ) ==> given == be_bytes(crc_checksum(0x04c11db7, data))
            &&& supplied_digest(headers, trailers, "x-amz-checksum-crc32c"@, 4) matches Ok(
                Some(given),
            ) ==> given == be_bytes(crc_checksum(0x1edc6f41, data))
            &&& supplied_digest(headers, trailers, "x-amz-checksum-sha1"@, 20) matches Ok(
                Some(given),
            ) ==> given == sha1_digest(data)
            &&& supplied_digest(headers, trailers, "x-amz-checksum-sha256"@, 32) matches Ok(
                Some(given),
            ) ==> given == sha256_digest(data)
            &&& supplied_digest(headers, trailers, "x-amz-checksum-sha512"@, 64) matches Ok(
                Some(given),
            ) ==> given == sha512_digest(data)
        }),
{
    let trailers = upload_trailers(headers, pieces, context, max);
    law_accepted_data_has_the_given_digests(headers, pieces, context, max);
    assert(requested_digest(headers, trailers, ChecksumName::Crc32) == supplied_digest(
        headers,
        trailers,
        "x-amz-checksum-crc32"@,
        4,
    ));
    assert(requested_digest(headers, trailers, ChecksumName::Crc32c) == supplied_digest(
        headers,
        trailers,
        "x-amz-checksum-crc32c"@,
        4,
    ));
    assert(requested_digest(headers, trailers, ChecksumName::Sha1) == supplied_digest(
        headers,
        trailers,
        "x-amz-checksum-sha1"@,
        20,
    ));
    assert(requested_digest(headers, trailers, ChecksumName::Sha256) == supplied_digest(
        headers,
        trailers,
        "x-amz-checksum-sha256"@,
        32,
    ));
    assert(requested_digest(headers, trailers, ChecksumName::Sha512) == supplied_digest(
        headers,
        trailers,
        "x-amz-checksum-sha512"@,
        64,
    ));
}

proof fn lemma_plain_pieces_are_taken(
    expected: Option<nat>,
    pieces: Seq<Seq<u8>>,
    written: nat,
    max: nat,
)
    requires
        expected is Some ==> written + pieces.flatten().len() <= expected->0,
        written + pieces.flatten().len() <= max <= u64::MAX,
    ensures
        received_pieces(FramingView::Plain { expected, pending: None }, pieces, written, max).1
            is Ok,
    decreases pieces.len(),
{
    let framing = FramingView::Plain { expected, pending: None };
    if pieces.len() > 0 {
        assert(pieces.skip(1) =~= pieces.drop_first());
        assert(pieces.flatten() == pieces[0] + pieces.skip(1).flatten());
        let (data, next) = drained(offered(framing, pieces[0]), written, max);
        assert(data == pieces[0] && next == Ok::<_, ErrorView>(framing));
        lemma_plain_pieces_are_taken(expected, pieces.skip(1), written + data.len(), max);
    }
}

/// A plain upload that keeps its word is accepted: where its length is the declared one and within
/// the limit, and where it has the payload hash and the checksums that its request gives, all of it is
/// written, and it is known by its size and its MD5 digest.
pub proof fn law_plain_uploads_that_fit_are_accepted(
    headers: Seq<(Seq<char>, Seq<u8>)>,
    pieces: Seq<Seq<u8>>,
    context: Option<StreamingView>,
    max: nat,
    request: RequestedView,
)
    requires
        !is_aws_chunked(headers),
        payload_mode(headers) matches Ok(mode) && (mode is Missing || mode is UnsignedPayload || (
        mode is FixedSha256 && mode->digest == sha256_digest(pieces.flatten()))),
        declared_length(headers) matches Ok(expected) && (expected is None || expected->0
            == pieces.flatten().len()),
        pieces.flatten().len() <= max <= u64::MAX,
        requested_checksums(headers, Map::empty()) == Ok::<_, ErrorView>(request),
        mismatch_error(request, digests_of(upload_digests(headers), pieces.flatten())) is None,
    ensures
        upload_data(headers, pieces, context, max) == pieces.flatten(),
        upload_result(headers, pieces, context, max) matches Ok(body) && {
            &&& body.size == pieces.flatten().len()
            &&& body.md5 == md5_digest(pieces.flatten())
            &&& body.checksums == request.values
        },
{
    let expected = declared_length(headers)->Ok_0;
    lemma_plain_pieces_are_taken(expected, pieces, 0, max);
    lemma_plain_pieces(expected, pieces, 0, max);
}

} // verus!
