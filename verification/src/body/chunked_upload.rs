//! Streaming aws-chunked parsing with signature verification.
//!
//! The parser takes a body in pieces of any size. Each step reads one control line or one chunk
//! from what has arrived; a step that lacks bytes asks for more.
use crate::auth::{constant_time_eq, StreamingSigningContext, StreamingView};
use crate::body::aws_chunked::{chunk_size, parse_chunk_size, read_size_token, size_token};
use crate::body::payload::{payload_hash_mode, payload_mode};
use crate::collections::{mapping, TextMap};
use crate::error::{invalid_request, signature_does_not_match, ErrorView, S3Error};
use crate::hashing::{hmac_sha256, hmac_sha256_tag, sha256, sha256_digest};
use crate::http::HeaderMap;
use crate::s3::types::{is_lowercase_sha256_hex, is_sha256_hex, PayloadHashMode};
use crate::text::{
    hex_encode, hex_text, lowercase, opt_text, result_view, same, same_ignoring_case, split,
    split_all, split_at_first, split_once, texts, trim, trimmed,
};
use vstd::prelude::*;
use vstd::utf8::encode_utf8;

verus! {

// ---------------------------------------------------------------------------------------------
// Chunk headers
// ---------------------------------------------------------------------------------------------
/// The size and the signature that a chunk line gives.
#[derive(Debug, PartialEq, Eq)]
pub struct AwsChunkHeader {
    /// Size of the chunk in bytes.
    pub size: usize,
    /// Signature of the chunk.
    pub signature: Option<String>,
}

/// An [`AwsChunkHeader`] as a mathematical value.
pub struct ChunkHeaderView {
    pub size: nat,
    pub signature: Option<Seq<char>>,
}

impl View for AwsChunkHeader {
    type V = ChunkHeaderView;

    open spec fn view(&self) -> ChunkHeaderView {
        ChunkHeaderView { size: self.size as nat, signature: opt_text(self.signature) }
    }
}

/// The signature that the extensions of a chunk line give, after one already found. Extensions
/// other than `chunk-signature` are ignored, and so are empty ones.
pub open spec fn extension_signature(extensions: Seq<Seq<char>>) -> Result<
    Option<Seq<char>>,
    ErrorView,
>
    decreases extensions.len(),
{
    if extensions.len() == 0 {
        Ok(None)
    } else {
        match extension_signature(extensions.drop_last()) {
            Err(error) => Err(error),
            Ok(found) => {
                let extension = extensions.last();
                if trim(extension).len() == 0 {
                    Ok(found)
                } else {
                    match split_once(extension, '=') {
                        None => Err(
                            invalid_request(
                                "aws-chunked chunk extension is malformed: "@ + extension,
                            ),
                        ),
                        Some((name, value)) => if lowercase(trim(name)) != lowercase(
                            "chunk-signature"@,
                        ) {
                            Ok(found)
                        } else if found is Some {
                            Err(
                                invalid_request(
                                    "aws-chunked chunk-signature appears more than once"@,
                                ),
                            )
                        } else if !is_sha256_hex(trim(value)) {
                            Err(
                                invalid_request(
                                    "aws-chunked chunk-signature must be lowercase 64-character hex"@,
                                ),
                            )
                        } else {
                            Ok(Some(trim(value)))
                        },
                    }
                }
            },
        }
    }
}

/// The extensions of a chunk line.
pub open spec fn chunk_extensions(line: Seq<char>) -> Seq<Seq<char>> {
    match split_once(line, ';') {
        Some((_, extensions)) => split(extensions, ';'),
        None => Seq::empty(),
    }
}

/// What a chunk line gives.
pub open spec fn chunk_header(line: Seq<char>) -> Result<ChunkHeaderView, ErrorView> {
    match chunk_size(line) {
        None => Err(
            invalid_request("aws-chunked chunk size is invalid: "@ + size_token(line)),
        ),
        Some(size) => match extension_signature(chunk_extensions(line)) {
            Err(error) => Err(error),
            Ok(signature) => Ok(ChunkHeaderView { size, signature }),
        },
    }
}

/// An error in the first extensions is the error of the whole line.
proof fn lemma_extension_fail(extensions: Seq<Seq<char>>, n: int)
    requires
        0 <= n <= extensions.len(),
        extension_signature(extensions.take(n)) is Err,
    ensures
        extension_signature(extensions) == extension_signature(extensions.take(n)),
    decreases extensions.len() - n,
{
    if n < extensions.len() {
        assert(extensions.take(n + 1).drop_last() =~= extensions.take(n));
        lemma_extension_fail(extensions, n + 1);
    } else {
        assert(extensions.take(n) =~= extensions);
    }
}

fn read_extension_signature(extensions: &str) -> (result: Result<Option<String>, S3Error>)
    ensures
        match result {
            Ok(signature) => extension_signature(split(extensions@, ';')) == Ok::<_, ErrorView>(
                opt_text(signature),
            ),
            Err(error) => extension_signature(split(extensions@, ';')) == Err::<
                Option<Seq<char>>,
                _,
            >(error@),
        },
{
    let pieces = split_all(extensions, ';');
    let ghost all = split(extensions@, ';');
    let mut signature: Option<String> = None;
    let mut i: usize = 0;
    assert(all.take(0) =~= Seq::<Seq<char>>::empty());
    while i < pieces.len()
        invariant
            i <= pieces@.len(),
            all == split(extensions@, ';'),
            texts(pieces@) == all,
            extension_signature(all.take(i as int)) == Ok::<_, ErrorView>(opt_text(signature)),
        decreases pieces.len() - i,
    {
        proof {
            assert(all.take(i + 1).drop_last() =~= all.take(i as int));
            assert(all.take(i + 1).last() == pieces@[i as int]@);
            if extension_signature(all.take(i + 1)) is Err {
                lemma_extension_fail(all, i + 1);
            }
        }
        let extension = pieces[i].as_str();
        if !trimmed(extension).as_str().is_empty() {
            match split_at_first(extension, '=') {
                None => {
                    let message = "aws-chunked chunk extension is malformed: ".to_owned().concat(
                        extension,
                    );
                    return Err(S3Error::invalid_request(message.as_str()));
                },
                Some((name, value)) => {
                    if same_ignoring_case(trimmed(name.as_str()).as_str(), "chunk-signature") {
                        if signature.is_some() {
                            return Err(
                                S3Error::invalid_request(
                                    "aws-chunked chunk-signature appears more than once",
                                ),
                            );
                        }
                        let value = trimmed(value.as_str());
                        if !is_lowercase_sha256_hex(value.as_str()) {
                            return Err(
                                S3Error::invalid_request(
                                    "aws-chunked chunk-signature must be lowercase 64-character hex",
                                ),
                            );
                        }
                        signature = Some(value);
                    }
                },
            }
        }
        i += 1;
    }
    assert(all.take(i as int) =~= all);
    Ok(signature)
}

/// Parses a chunk line.
pub fn parse_aws_chunk_header(line: &str) -> (result: Result<AwsChunkHeader, S3Error>)
    ensures
        result_view(result) == chunk_header(line@),
{
    let token = read_size_token(line);
    let size: usize = match parse_chunk_size(token.as_str()) {
        Some(size) => size,
        None => {
            let message = "aws-chunked chunk size is invalid: ".to_owned().concat(token.as_str());
            return Err(S3Error::invalid_request(message.as_str()));
        },
    };
    match split_at_first(line, ';') {
        None => Ok(AwsChunkHeader { size, signature: None }),
        Some((_, extensions)) => match read_extension_signature(extensions.as_str()) {
            Ok(signature) => Ok(AwsChunkHeader { size, signature }),
            Err(error) => Err(error),
        },
    }
}

// ---------------------------------------------------------------------------------------------
// Chunk signatures
// ---------------------------------------------------------------------------------------------
/// What the signatures of a streaming upload cover.
#[derive(Clone, Copy, Debug, PartialEq, Eq, Structural)]
pub enum StreamingSignatureMode {
    /// The chunks.
    Payload,
    /// The chunks and the trailers.
    PayloadTrailer,
}

/// Verifies the signatures of a streaming upload, each of which continues from the one before.
#[derive(Debug)]
pub struct AwsChunkSignatureVerifier {
    signing_key: Vec<u8>,
    previous_signature: String,
    amz_date: String,
    credential_scope: String,
    mode: StreamingSignatureMode,
}

/// An [`AwsChunkSignatureVerifier`] as a mathematical value.
#[verifier::ext_equal]
pub struct VerifierView {
    pub signing_key: Seq<u8>,
    pub previous_signature: Seq<char>,
    pub amz_date: Seq<char>,
    pub credential_scope: Seq<char>,
    pub mode: StreamingSignatureMode,
}

impl View for AwsChunkSignatureVerifier {
    type V = VerifierView;

    closed spec fn view(&self) -> VerifierView {
        VerifierView {
            signing_key: self.signing_key@,
            previous_signature: self.previous_signature@,
            amz_date: self.amz_date@,
            credential_scope: self.credential_scope@,
            mode: self.mode,
        }
    }
}

/// The verifier that an upload starts with: the first chunk continues from the signature of the
/// request.
pub open spec fn initial_verifier(context: StreamingView, mode: StreamingSignatureMode) -> VerifierView {
    VerifierView {
        signing_key: context.signing_key,
        previous_signature: context.seed_signature,
        amz_date: context.amz_date,
        credential_scope: context.credential_scope,
        mode,
    }
}

/// The signature that a chunk must carry.
pub open spec fn chunk_signature(v: VerifierView, data: Seq<u8>) -> Seq<char> {
    hex_text(
        hmac_sha256_tag(
            v.signing_key,
            encode_utf8(
                "AWS4-HMAC-SHA256-PAYLOAD\n"@ + v.amz_date + "\n"@ + v.credential_scope + "\n"@
                    + v.previous_signature + "\n"@ + hex_text(sha256_digest(Seq::empty())) + "\n"@
                    + hex_text(sha256_digest(data)),
            ),
        ),
    )
}

/// The verifier after a chunk: where there is one, the chunk must carry its signature, which the
/// next one then continues from.
pub open spec fn verify_chunk(
    verifier: Option<VerifierView>,
    provided: Option<Seq<char>>,
    data: Seq<u8>,
) -> Result<Option<VerifierView>, ErrorView> {
    match verifier {
        None => Ok(None),
        Some(v) => match provided {
            None => Err(signature_does_not_match()),
            Some(signature) => if signature == chunk_signature(v, data) {
                Ok(Some(VerifierView { previous_signature: signature, ..v }))
            } else {
                Err(signature_does_not_match())
            },
        },
    }
}

/// The trailers that a trailer signature covers, one line each in ascending order.
pub open spec fn canonical_trailers(trailers: Seq<(Seq<char>, Seq<char>)>) -> Seq<char>
    decreases trailers.len(),
{
    if trailers.len() == 0 {
        Seq::empty()
    } else if trailers.last().0 == "x-amz-trailer-signature"@ {
        canonical_trailers(trailers.drop_last())
    } else {
        canonical_trailers(trailers.drop_last()) + (trailers.last().0 + ":"@ + trailers.last().1
            + "\n"@)
    }
}

/// The signature that the trailers must carry.
pub open spec fn trailer_signature(
    v: VerifierView,
    trailers: Seq<(Seq<char>, Seq<char>)>,
) -> Seq<char> {
    hex_text(
        hmac_sha256_tag(
            v.signing_key,
            encode_utf8(
                "AWS4-HMAC-SHA256-TRAILER\n"@ + v.amz_date + "\n"@ + v.credential_scope + "\n"@
                    + v.previous_signature + "\n"@ + hex_text(
                    sha256_digest(encode_utf8(canonical_trailers(trailers))),
                ),
            ),
        ),
    )
}

/// The verifier after the trailers: where they are signed, they must carry their signature.
pub open spec fn verify_trailers(
    verifier: Option<VerifierView>,
    trailers: Seq<(Seq<char>, Seq<char>)>,
) -> Result<Option<VerifierView>, ErrorView> {
    match verifier {
        None => Ok(None),
        Some(v) => if v.mode != StreamingSignatureMode::PayloadTrailer {
            Ok(Some(v))
        } else {
            let signed = mapping(trailers);
            if signed.dom().contains("x-amz-trailer-signature"@)
                && signed["x-amz-trailer-signature"@] == trailer_signature(v, trailers) {
                Ok(
                    Some(
                        VerifierView {
                            previous_signature: signed["x-amz-trailer-signature"@],
                            ..v
                        },
                    ),
                )
            } else {
                Err(signature_does_not_match())
            }
        },
    }
}

fn canonical_trailer_text(trailers: &TextMap) -> (text: String)
    ensures
        text@ == canonical_trailers(trailers@),
{
    let mut text = String::new();
    let mut i: usize = 0;
    assert(trailers@.take(0) =~= Seq::<(Seq<char>, Seq<char>)>::empty());
    while i < trailers.len()
        invariant
            i <= trailers@.len(),
            text@ == canonical_trailers(trailers@.take(i as int)),
        decreases trailers@.len() - i,
    {
        proof {
            assert(trailers@.take(i + 1).drop_last() =~= trailers@.take(i as int));
            assert(trailers@.take(i + 1).last() == trailers@[i as int]);
        }
        let name = trailers.key_at(i);
        if !same(name, "x-amz-trailer-signature") {
            let mut line = name.to_owned();
            line.append(":");
            line.append(trailers.value_at(i));
            line.append("\n");
            text.append(line.as_str());
        }
        i += 1;
    }
    assert(trailers@.take(i as int) =~= trailers@);
    text
}

fn clone_bytes(bytes: &Vec<u8>) -> (copy: Vec<u8>)
    ensures
        copy@ == bytes@,
{
    vstd::slice::slice_to_vec(bytes.as_slice())
}

impl AwsChunkSignatureVerifier {
    /// The verifier that an upload starts with.
    pub fn new(context: &StreamingSigningContext, mode: StreamingSignatureMode) -> (verifier: Self)
        ensures
            verifier@ == initial_verifier(context@, mode),
    {
        AwsChunkSignatureVerifier {
            signing_key: clone_bytes(&context.signing_key),
            previous_signature: context.seed_signature.clone(),
            amz_date: context.amz_date.clone(),
            credential_scope: context.credential_scope.clone(),
            mode,
        }
    }

    /// Verifies the signature of a chunk.
    pub fn verify(&mut self, provided_signature: &Option<String>, chunk_data: &Vec<u8>) -> (result:
        Result<(), S3Error>)
        ensures
            match result {
                Ok(()) => verify_chunk(Some(old(self)@), opt_text(*provided_signature), chunk_data@)
                    == Ok::<_, ErrorView>(Some(final(self)@)),
                Err(error) => verify_chunk(
                    Some(old(self)@),
                    opt_text(*provided_signature),
                    chunk_data@,
                ) == Err::<Option<VerifierView>, _>(error@),
            },
    {
        let provided = match provided_signature {
            Some(signature) => signature,
            None => {
                return Err(S3Error::signature_does_not_match());
            },
        };
        let nothing: Vec<u8> = Vec::new();
        assert(nothing@ =~= Seq::<u8>::empty());
        let empty_hash = hex_encode(sha256(nothing.as_slice()).as_slice());
        let chunk_hash = hex_encode(sha256(chunk_data.as_slice()).as_slice());
        let mut text = "AWS4-HMAC-SHA256-PAYLOAD\n".to_owned();
        text.append(self.amz_date.as_str());
        text.append("\n");
        text.append(self.credential_scope.as_str());
        text.append("\n");
        text.append(self.previous_signature.as_str());
        text.append("\n");
        text.append(empty_hash.as_str());
        text.append("\n");
        text.append(chunk_hash.as_str());
        let expected = hex_encode(
            hmac_sha256(self.signing_key.as_slice(), text.as_str().as_bytes()).as_slice(),
        );
        if !constant_time_eq(expected.as_str(), provided.as_str()) {
            return Err(S3Error::signature_does_not_match());
        }
        self.previous_signature = provided.clone();
        Ok(())
    }

    /// Verifies the signature of the trailers, where they are signed.
    pub fn verify_trailer(&mut self, trailers: &TextMap) -> (result: Result<(), S3Error>)
        ensures
            match result {
                Ok(()) => verify_trailers(Some(old(self)@), trailers@) == Ok::<_, ErrorView>(
                    Some(final(self)@),
                ),
                Err(error) => verify_trailers(Some(old(self)@), trailers@) == Err::<
                    Option<VerifierView>,
                    _,
                >(error@),
            },
    {
        if self.mode != StreamingSignatureMode::PayloadTrailer {
            return Ok(());
        }
        let provided = match trailers.get("x-amz-trailer-signature") {
            Some(signature) => signature.to_owned(),
            None => {
                return Err(S3Error::signature_does_not_match());
            },
        };
        let canonical = canonical_trailer_text(trailers);
        let trailer_hash = hex_encode(sha256(canonical.as_str().as_bytes()).as_slice());
        let mut text = "AWS4-HMAC-SHA256-TRAILER\n".to_owned();
        text.append(self.amz_date.as_str());
        text.append("\n");
        text.append(self.credential_scope.as_str());
        text.append("\n");
        text.append(self.previous_signature.as_str());
        text.append("\n");
        text.append(trailer_hash.as_str());
        let expected = hex_encode(
            hmac_sha256(self.signing_key.as_slice(), text.as_str().as_bytes()).as_slice(),
        );
        if !constant_time_eq(expected.as_str(), provided.as_str()) {
            return Err(S3Error::signature_does_not_match());
        }
        self.previous_signature = provided;
        Ok(())
    }
}

/// The verifier that an upload needs: none where its chunks are not signed, and an error where they
/// are and the request itself was not.
pub open spec fn upload_verifier(
    headers: Seq<(Seq<char>, Seq<u8>)>,
    context: Option<StreamingView>,
) -> Result<Option<VerifierView>, ErrorView> {
    match payload_mode(headers) {
        Err(error) => Err(error),
        Ok(mode) => if mode is StreamingSignedPayload || mode is StreamingSignedPayloadTrailer {
            match context {
                None => Err(signature_does_not_match()),
                Some(c) => Ok(
                    Some(
                        initial_verifier(
                            c,
                            if mode is StreamingSignedPayload {
                                StreamingSignatureMode::Payload
                            } else {
                                StreamingSignatureMode::PayloadTrailer
                            },
                        ),
                    ),
                ),
            }
        } else {
            Ok(None)
        },
    }
}

/// The view of an optional verifier.
pub open spec fn opt_verifier(verifier: Option<AwsChunkSignatureVerifier>) -> Option<VerifierView> {
    match verifier {
        Some(v) => Some(v@),
        None => None,
    }
}

/// The view of an optional signing context.
pub open spec fn opt_streaming(context: Option<&StreamingSigningContext>) -> Option<StreamingView> {
    match context {
        Some(c) => Some(c@),
        None => None,
    }
}

/// Chooses the verifier that an upload needs.
pub fn streaming_signature_verifier(
    headers: &HeaderMap,
    streaming_signing: Option<&StreamingSigningContext>,
) -> (result: Result<Option<AwsChunkSignatureVerifier>, S3Error>)
    ensures
        match result {
            Ok(verifier) => upload_verifier(headers@, opt_streaming(streaming_signing)) == Ok::<
                _,
                ErrorView,
            >(opt_verifier(verifier)),
            Err(error) => upload_verifier(headers@, opt_streaming(streaming_signing)) == Err::<
                Option<VerifierView>,
                _,
            >(error@),
        },
{
    let mode = match payload_hash_mode(headers) {
        Err(error) => {
            return Err(error);
        },
        Ok(PayloadHashMode::StreamingSignedPayload) => StreamingSignatureMode::Payload,
        Ok(PayloadHashMode::StreamingSignedPayloadTrailer) => {
            StreamingSignatureMode::PayloadTrailer
        },
        Ok(_) => {
            return Ok(None);
        },
    };
    match streaming_signing {
        None => Err(S3Error::signature_does_not_match()),
        Some(context) => Ok(Some(AwsChunkSignatureVerifier::new(context, mode))),
    }
}

} // verus!
