//! Bodies as clients send them in chunks, signed or not, and that they are accepted.
use crate::auth::StreamingView;
use crate::body::aws_chunked::{
    chunk_line, encoded_body, hex_number, insert_entries, is_extension, is_line_end_at, is_trailer,
    lemma_chunk_line, lemma_first_line, lemma_hex_number, lemma_sent_trailers, lemma_trailer_line,
    line_end, trailer_lines, SentChunk,
};
use crate::body::chunked_upload::{
    canonical_trailers, chunk_extensions, extension_signature, initial_verifier, verify_chunk,
    verify_trailers, StreamingSignatureMode, VerifierView,
};
use crate::body::parser::{
    fed, new_parser, run, step, write_error, Outcome, ParserMode, ParserView, StepView,
};
use crate::body::payload::is_aws_chunked;
use crate::body::upload::{
    drained, initial_framing, offered, received_pieces, upload_data, FramingView,
};
use crate::collections::{
    entry_position, insert_entry, is_sorted, keys, lemma_entry_position_bounds, lemma_insert_entry,
    lemma_mapping, lemma_sorted_distinct, lemma_sorted_unique, mapping,
};
use crate::error::ErrorView;
use crate::http::{field_text, values};
use crate::s3::types::is_sha256_hex;
use crate::signing::{
    bytes_hash, lemma_five_lines, lemma_six_lines, lines, tags_have_their_size, text_hash, text_tag,
};
use crate::text::{
    hex_text, is_lower_hex, is_whitespace, lemma_first_index_is, lowercase, trim, trim_end,
    trim_start,
};
use vstd::prelude::*;
use vstd::utf8::encode_utf8;

verus! {

// ---------------------------------------------------------------------------------------------
// What a client sends
// ---------------------------------------------------------------------------------------------
/// The signature that a client gives a chunk, after one with the signature `previous`.
pub open spec fn sent_chunk_signature(
    context: StreamingView,
    previous: Seq<char>,
    data: Seq<u8>,
) -> Seq<char> {
    hex_text(
        text_tag(
            context.signing_key,
            lines(
                seq![
                    "AWS4-HMAC-SHA256-PAYLOAD"@,
                    context.amz_date,
                    context.credential_scope,
                    previous,
                    bytes_hash(Seq::empty()),
                    bytes_hash(data),
                ],
            ),
        ),
    )
}

/// Trailers as a client signs them: each on a line that a line end closes.
pub open spec fn signed_trailer_text(trailers: Seq<(Seq<char>, Seq<char>)>) -> Seq<char>
    decreases trailers.len(),
{
    if trailers.len() == 0 {
        Seq::empty()
    } else {
        trailers[0].0 + seq![':'] + trailers[0].1 + seq!['\n'] + signed_trailer_text(
            trailers.skip(1),
        )
    }
}

/// The signature that a client gives its trailers, after a last chunk with the signature
/// `previous`.
pub open spec fn sent_trailer_signature(
    context: StreamingView,
    previous: Seq<char>,
    trailers: Seq<(Seq<char>, Seq<char>)>,
) -> Seq<char> {
    hex_text(
        text_tag(
            context.signing_key,
            lines(
                seq![
                    "AWS4-HMAC-SHA256-TRAILER"@,
                    context.amz_date,
                    context.credential_scope,
                    previous,
                    text_hash(signed_trailer_text(trailers)),
                ],
            ),
        ),
    )
}

/// What a chunk line says after the size where the chunk is signed.
pub open spec fn signature_extension(signature: Seq<char>) -> Seq<char> {
    ";chunk-signature="@ + signature
}

/// Pieces of data as signed chunks, each of which continues from the signature before it.
pub open spec fn signed_chunks(
    context: StreamingView,
    previous: Seq<char>,
    pieces: Seq<Seq<u8>>,
) -> Seq<SentChunk>
    decreases pieces.len(),
{
    if pieces.len() == 0 {
        Seq::empty()
    } else {
        let signature = sent_chunk_signature(context, previous, pieces[0]);
        seq![SentChunk { data: pieces[0], extension: signature_extension(signature) }]
            + signed_chunks(context, signature, pieces.skip(1))
    }
}

/// The signature that the chunk after some pieces of data continues from.
pub open spec fn signature_after(
    context: StreamingView,
    previous: Seq<char>,
    pieces: Seq<Seq<u8>>,
) -> Seq<char>
    decreases pieces.len(),
{
    if pieces.len() == 0 {
        previous
    } else {
        signature_after(
            context,
            sent_chunk_signature(context, previous, pieces[0]),
            pieces.skip(1),
        )
    }
}

/// The signature of the last chunk, which has no data.
pub open spec fn last_chunk_signature(
    context: StreamingView,
    previous: Seq<char>,
    pieces: Seq<Seq<u8>>,
) -> Seq<char> {
    sent_chunk_signature(context, signature_after(context, previous, pieces), Seq::empty())
}

/// A body of signed chunks with trailers, from the chunk after `previous` on.
pub open spec fn signed_body_from(
    context: StreamingView,
    previous: Seq<char>,
    pieces: Seq<Seq<u8>>,
    trailers: Seq<(Seq<char>, Seq<char>)>,
) -> Seq<u8> {
    encoded_body(
        signed_chunks(context, previous, pieces),
        signature_extension(last_chunk_signature(context, previous, pieces)),
        trailers,
    )
}

/// The trailer that carries the signature of others, which are signed as `ordered` lists them.
pub open spec fn signature_trailer(
    context: StreamingView,
    pieces: Seq<Seq<u8>>,
    ordered: Seq<(Seq<char>, Seq<char>)>,
) -> (Seq<char>, Seq<char>) {
    (
        "x-amz-trailer-signature"@,
        sent_trailer_signature(
            context,
            last_chunk_signature(context, context.seed_signature, pieces),
            ordered,
        ),
    )
}

/// Whether pieces of data can be sent as chunks.
pub open spec fn are_sendable(pieces: Seq<Seq<u8>>) -> bool {
    forall|i: int| 0 <= i < pieces.len() ==> 0 < (#[trigger] pieces[i]).len() <= usize::MAX
}

/// Whether trailers can be sent: each can, none stands twice, and none is the signature.
pub open spec fn are_trailers(trailers: Seq<(Seq<char>, Seq<char>)>) -> bool {
    &&& forall|i: int| 0 <= i < trailers.len() ==> is_trailer(#[trigger] trailers[i])
    &&& keys(trailers).no_duplicates()
    &&& !keys(trailers).contains("x-amz-trailer-signature"@)
}

/// Whether `ordered` holds the trailers of `sent` in the order of their names.
pub open spec fn is_ordered(
    sent: Seq<(Seq<char>, Seq<char>)>,
    ordered: Seq<(Seq<char>, Seq<char>)>,
) -> bool {
    is_sorted(keys(ordered)) && mapping(ordered) == mapping(sent)
}

// ---------------------------------------------------------------------------------------------
// The steps of the parser over what was sent
// ---------------------------------------------------------------------------------------------
proof fn lemma_run_chunk(
    p: ParserView,
    data: Seq<u8>,
    extension: Seq<char>,
    signature: Option<Seq<char>>,
    rest: Seq<u8>,
    verifier: Option<VerifierView>,
    written: nat,
    max: nat,
)
    requires
        p.mode is ChunkHeader,
        p.buffer == chunk_line(data.len(), extension) + (data + (line_end() + rest)),
        0 < data.len() <= usize::MAX,
        is_extension(extension),
        extension_signature(chunk_extensions(hex_number(data.len()) + extension)) == Ok::<
            _,
            ErrorView,
        >(signature),
        verify_chunk(p.verifier, signature, data) == Ok::<_, ErrorView>(verifier),
        write_error(written, data.len(), max) is None,
    ensures
        ({
            let q = ParserView { buffer: rest, mode: ParserMode::ChunkHeader, verifier, ..p };
            let (more, end) = run(q, written + data.len(), max);
            run(p, written, max) == (data + more, end)
        }),
{
    let size = data.len();
    let line = chunk_line(size, extension);
    let tail = data + (line_end() + rest);
    lemma_chunk_line(size, extension, tail);
    assert(p.buffer.skip(line.len() as int) =~= tail);
    let m = ParserView { buffer: tail, mode: ParserMode::ChunkData { size, signature }, ..p };
    assert(line.len() > 0);
    assert(step(p, written, max) == (StepView::Advance { parser: m, data: Seq::empty() }));
    let q = ParserView { buffer: rest, mode: ParserMode::ChunkHeader, verifier, ..p };
    assert(tail.take(size as int) =~= data);
    assert(tail.skip(size as int + 2) =~= rest);
    assert(tail[size as int] == 13 && tail[size as int + 1] == 10);
    assert(step(m, written, max) == (StepView::Advance { parser: q, data }));
    let (more, end) = run(q, written + size, max);
    assert(run(m, written, max) == (data + more, end));
    assert(Seq::<u8>::empty() + (data + more) =~= data + more);
}

proof fn lemma_run_last(
    p: ParserView,
    extension: Seq<char>,
    signature: Option<Seq<char>>,
    rest: Seq<u8>,
    verifier: Option<VerifierView>,
    written: nat,
    max: nat,
)
    requires
        p.mode is ChunkHeader,
        p.buffer == chunk_line(0, extension) + rest,
        is_extension(extension),
        extension_signature(chunk_extensions(hex_number(0) + extension)) == Ok::<_, ErrorView>(
            signature,
        ),
        verify_chunk(p.verifier, signature, Seq::empty()) == Ok::<_, ErrorView>(verifier),
    ensures
        run(p, written, max) == run(
            ParserView { buffer: rest, mode: ParserMode::Trailer, verifier, ..p },
            written,
            max,
        ),
{
    let line = chunk_line(0, extension);
    lemma_chunk_line(0, extension, rest);
    assert(p.buffer.skip(line.len() as int) =~= rest);
    let q = ParserView { buffer: rest, mode: ParserMode::Trailer, verifier, ..p };
    assert(line.len() > 0);
    assert(step(p, written, max) == (StepView::Advance { parser: q, data: Seq::empty() }));
    let (more, end) = run(q, written, max);
    assert(Seq::<u8>::empty() + more =~= more);
}

proof fn lemma_run_trailers(
    p: ParserView,
    sent: Seq<(Seq<char>, Seq<char>)>,
    verifier: Option<VerifierView>,
    written: nat,
    max: nat,
)
    requires
        p.mode is Trailer,
        p.buffer == trailer_lines(sent),
        forall|i: int| 0 <= i < sent.len() ==> is_trailer(#[trigger] sent[i]),
        keys(sent).no_duplicates(),
        is_sorted(keys(p.trailers)),
        forall|i: int| 0 <= i < sent.len() ==> !keys(p.trailers).contains((#[trigger] sent[i]).0),
        verify_trailers(p.verifier, insert_entries(p.trailers, sent)) == Ok::<_, ErrorView>(
            verifier,
        ),
    ensures
        run(p, written, max) == (
            Seq::<u8>::empty(),
            Outcome::Finished(
                ParserView {
                    buffer: Seq::empty(),
                    mode: ParserMode::Done,
                    trailers: Seq::empty(),
                    verifier,
                },
                insert_entries(p.trailers, sent),
            ),
        ),
    decreases sent.len(),
{
    if sent.len() == 0 {
        let none = Seq::<char>::empty();
        lemma_first_line(none, Seq::empty());
        assert(encode_utf8(none) + line_end() + Seq::<u8>::empty() =~= line_end());
        assert(encode_utf8(none).len() == 0);
        assert(p.buffer.skip(2) =~= Seq::<u8>::empty());
    } else {
        let rest = sent.skip(1);
        let line = sent[0].0 + ":"@ + sent[0].1;
        lemma_trailer_line(p.trailers, sent[0], trailer_lines(rest));
        let taken = encode_utf8(line).len() as int + 2;
        assert(p.buffer.skip(taken) =~= trailer_lines(rest));
        let after = insert_entry(p.trailers, sent[0].0, sent[0].1);
        let q = ParserView { buffer: trailer_lines(rest), trailers: after, ..p };
        assert(step(p, written, max) == (StepView::Advance { parser: q, data: Seq::empty() }));
        lemma_insert_entry(p.trailers, sent[0].0, sent[0].1);
        lemma_mapping(p.trailers);
        lemma_mapping(after);
        assert(keys(rest) =~= keys(sent).skip(1));
        assert(keys(rest).no_duplicates());
        assert forall|i: int| 0 <= i < rest.len() implies is_trailer(#[trigger] rest[i])
            && !keys(after).contains(rest[i].0) by {
            assert(rest[i] == sent[i + 1]);
            assert(keys(sent)[i + 1] == sent[i + 1].0);
            assert(keys(sent)[0] == sent[0].0);
            assert(!keys(p.trailers).contains(sent[i + 1].0));
            assert(!mapping(p.trailers).dom().contains(rest[i].0));
            assert(!mapping(after).dom().contains(rest[i].0));
        }
        lemma_run_trailers(q, rest, verifier, written, max);
        assert(Seq::<u8>::empty() + Seq::<u8>::empty() =~= Seq::<u8>::empty());
    }
}

// ---------------------------------------------------------------------------------------------
// Signatures
// ---------------------------------------------------------------------------------------------
/// A signature is written as a SHA-256 digest is.
pub proof fn lemma_signature_text(key: Seq<u8>, text: Seq<char>)
    requires
        tags_have_their_size(),
    ensures
        is_sha256_hex(hex_text(text_tag(key, text))),
{
    let tag = text_tag(key, text);
    let value = hex_text(tag);
    assert(tag.len() == 32);
    assert forall|i: int| 0 <= i < value.len() implies is_lower_hex(#[trigger] value[i]) by {
        let byte = tag[i / 2] as nat;
        assert(byte / 16 < 16 && byte % 16 < 16);
    }
}

proof fn lemma_trim_unchanged(text: Seq<char>)
    requires
        text.len() > 0 ==> !is_whitespace(text[0]) && !is_whitespace(text.last()),
    ensures
        trim(text) == text,
{
    assert(trim_start(text) == text);
    assert(trim_end(text) == text);
}

/// A client's signature of a chunk is read back from the line of the chunk.
proof fn lemma_signature_extension(size: nat, signature: Seq<char>)
    requires
        is_sha256_hex(signature),
    ensures
        is_extension(signature_extension(signature)),
        extension_signature(chunk_extensions(hex_number(size) + signature_extension(signature)))
            == Ok::<_, ErrorView>(Some(signature)),
{
    let name = "chunk-signature"@;
    reveal_strlit(";chunk-signature=");
    reveal_strlit("chunk-signature");
    assert(name.len() == 15);
    let extension = signature_extension(signature);
    assert(";chunk-signature="@ =~= seq![';'] + name + seq!['=']);
    let pair = name + seq!['='] + signature;
    assert(extension =~= seq![';'] + pair);
    assert forall|i: int| 0 <= i < signature.len() implies {
        let c = #[trigger] signature[i];
        c != ';' && c != '=' && c != '\r' && c != '\n' && !is_whitespace(c)
    } by {
        assert(is_lower_hex(signature[i]));
    }
    assert forall|i: int| 0 <= i < name.len() implies {
        let c = #[trigger] name[i];
        c != ';' && c != '=' && c != '\r' && c != '\n'
    } by {}
    assert forall|i: int| !#[trigger] is_line_end_at(extension, i) by {
        if 0 <= i && i + 1 < extension.len() {
            if 1 <= i < 16 {
                assert(extension[i] == name[i - 1]);
            } else if i >= 17 {
                assert(extension[i] == signature[i - 17]);
            }
        }
    }
    let digits = hex_number(size);
    let line = digits + extension;
    lemma_hex_number(size);
    assert forall|j: int| 0 <= j < digits.len() implies #[trigger] line[j] != ';' by {
        assert(line[j] == digits[j]);
    }
    lemma_first_index_is(line, ';', digits.len() as int);
    assert(line.skip(digits.len() as int + 1) =~= pair);
    assert forall|j: int| 0 <= j < pair.len() implies #[trigger] pair[j] != ';' by {
        if j < 15 {
            assert(pair[j] == name[j]);
        } else if j >= 16 {
            assert(pair[j] == signature[j - 16]);
        }
    }
    lemma_first_index_is(pair, ';', pair.len() as int);
    let parts = chunk_extensions(line);
    assert(parts == seq![pair]);
    assert forall|j: int| 0 <= j < 15 implies #[trigger] pair[j] != '=' by {
        assert(pair[j] == name[j]);
    }
    lemma_first_index_is(pair, '=', 15);
    assert(pair.take(15) =~= name);
    assert(pair.skip(16) =~= signature);
    assert(pair.last() == signature.last());
    assert(signature.last() == signature[63]);
    lemma_trim_unchanged(pair);
    lemma_trim_unchanged(name);
    lemma_trim_unchanged(signature);
    assert(parts.drop_last() =~= Seq::<Seq<char>>::empty());
    assert(extension_signature(parts.drop_last()) == Ok::<_, ErrorView>(None::<Seq<char>>));
}

/// The verifier after a chunk, or at the start, that continues from a signature.
pub open spec fn verifier_after(
    context: StreamingView,
    mode: StreamingSignatureMode,
    previous: Seq<char>,
) -> VerifierView {
    VerifierView { previous_signature: previous, ..initial_verifier(context, mode) }
}

proof fn lemma_chunk_accepted(
    context: StreamingView,
    mode: StreamingSignatureMode,
    previous: Seq<char>,
    data: Seq<u8>,
)
    ensures
        ({
            let signature = sent_chunk_signature(context, previous, data);
            verify_chunk(Some(verifier_after(context, mode, previous)), Some(signature), data)
                == Ok::<_, ErrorView>(Some(verifier_after(context, mode, signature)))
        }),
{
    let none = bytes_hash(Seq::empty());
    let hash = bytes_hash(data);
    let date = context.amz_date;
    let scope = context.credential_scope;
    lemma_six_lines("AWS4-HMAC-SHA256-PAYLOAD"@, date, scope, previous, none, hash);
    reveal_strlit("AWS4-HMAC-SHA256-PAYLOAD");
    reveal_strlit("AWS4-HMAC-SHA256-PAYLOAD\n");
    reveal_strlit("\n");
    assert("AWS4-HMAC-SHA256-PAYLOAD\n"@ =~= "AWS4-HMAC-SHA256-PAYLOAD"@ + seq!['\n']);
    assert("\n"@ =~= seq!['\n']);
    assert(lines(seq!["AWS4-HMAC-SHA256-PAYLOAD"@, date, scope, previous, none, hash])
        =~= "AWS4-HMAC-SHA256-PAYLOAD\n"@ + date + "\n"@ + scope + "\n"@ + previous + "\n"@ + none
        + "\n"@ + hash);
}

proof fn lemma_signed_text_push(
    trailers: Seq<(Seq<char>, Seq<char>)>,
    trailer: (Seq<char>, Seq<char>),
)
    ensures
        signed_trailer_text(trailers.push(trailer)) == signed_trailer_text(trailers) + (trailer.0
            + seq![':'] + trailer.1 + seq!['\n']),
    decreases trailers.len(),
{
    let all = trailers.push(trailer);
    let line = trailer.0 + seq![':'] + trailer.1 + seq!['\n'];
    if trailers.len() == 0 {
        assert(all.skip(1) =~= Seq::<(Seq<char>, Seq<char>)>::empty());
        assert(signed_trailer_text(all.skip(1)) == Seq::<char>::empty());
        assert(signed_trailer_text(all) =~= line);
        assert(signed_trailer_text(trailers) + line =~= line);
    } else {
        lemma_signed_text_push(trailers.skip(1), trailer);
        assert(all.skip(1) =~= trailers.skip(1).push(trailer));
        let first = trailers[0].0 + seq![':'] + trailers[0].1 + seq!['\n'];
        assert(signed_trailer_text(all) =~= first + (signed_trailer_text(trailers.skip(1)) + line));
        assert(signed_trailer_text(trailers) + line =~= first + (signed_trailer_text(
            trailers.skip(1),
        ) + line));
    }
}

/// Trailers are verified as the text that the client signs.
proof fn lemma_signed_text(trailers: Seq<(Seq<char>, Seq<char>)>)
    requires
        !keys(trailers).contains("x-amz-trailer-signature"@),
    ensures
        canonical_trailers(trailers) == signed_trailer_text(trailers),
    decreases trailers.len(),
{
    if trailers.len() > 0 {
        let rest = trailers.drop_last();
        let last = trailers.last();
        assert forall|i: int| 0 <= i < trailers.len() implies (#[trigger] trailers[i]).0
            != "x-amz-trailer-signature"@ by {
            assert(keys(trailers)[i] == trailers[i].0);
        }
        assert(!keys(rest).contains("x-amz-trailer-signature"@)) by {
            if keys(rest).contains("x-amz-trailer-signature"@) {
                let i = choose|i: int|
                    0 <= i < rest.len() && keys(rest)[i] == "x-amz-trailer-signature"@;
                assert(trailers[i].0 == keys(rest)[i]);
            }
        }
        lemma_signed_text(rest);
        lemma_signed_text_push(rest, last);
        assert(rest.push(last) =~= trailers);
        reveal_strlit(":");
        reveal_strlit("\n");
        assert(last.0 + ":"@ + last.1 + "\n"@ =~= last.0 + seq![':'] + last.1 + seq!['\n']);
    }
}

/// The signature of trailers is not part of what it signs.
proof fn lemma_signature_not_signed(
    trailers: Seq<(Seq<char>, Seq<char>)>,
    at: int,
    signature: Seq<char>,
)
    requires
        0 <= at <= trailers.len(),
    ensures
        canonical_trailers(trailers.insert(at, ("x-amz-trailer-signature"@, signature)))
            == canonical_trailers(trailers),
    decreases trailers.len(),
{
    let all = trailers.insert(at, ("x-amz-trailer-signature"@, signature));
    if at == trailers.len() {
        assert(all.drop_last() =~= trailers);
    } else {
        let rest = trailers.drop_last();
        lemma_signature_not_signed(rest, at, signature);
        assert(all.drop_last() =~= rest.insert(at, ("x-amz-trailer-signature"@, signature)));
        assert(all.last() == trailers.last());
    }
}

/// Lists of pairs in the order of their keys are equal where they stand for the same mapping.
proof fn lemma_ordered_unique(a: Seq<(Seq<char>, Seq<char>)>, b: Seq<(Seq<char>, Seq<char>)>)
    requires
        is_sorted(keys(a)),
        is_sorted(keys(b)),
        mapping(a) == mapping(b),
    ensures
        a == b,
{
    lemma_mapping(a);
    lemma_mapping(b);
    lemma_sorted_distinct(keys(a));
    lemma_sorted_distinct(keys(b));
    assert forall|k: Seq<char>| keys(a).to_set().contains(k) == keys(b).to_set().contains(k) by {
        assert(mapping(a).dom().contains(k) <==> keys(a).contains(k));
        assert(mapping(b).dom().contains(k) <==> keys(b).contains(k));
    }
    assert(keys(a).to_set() =~= keys(b).to_set());
    lemma_sorted_unique(keys(a), keys(b));
    assert forall|i: int| 0 <= i < a.len() implies a[i] == b[i] by {
        assert(keys(a)[i] == a[i].0);
        assert(keys(b)[i] == b[i].0);
        assert(mapping(a)[a[i].0] == a[i].1);
        assert(mapping(b)[b[i].0] == b[i].1);
    }
    assert(keys(a).len() == a.len() && keys(b).len() == b.len());
    assert(a =~= b);
}

proof fn lemma_trailers_accepted(
    context: StreamingView,
    previous: Seq<char>,
    ordered: Seq<(Seq<char>, Seq<char>)>,
)
    requires
        is_sorted(keys(ordered)),
        !keys(ordered).contains("x-amz-trailer-signature"@),
    ensures
        ({
            let signature = sent_trailer_signature(context, previous, ordered);
            let mode = StreamingSignatureMode::PayloadTrailer;
            verify_trailers(
                Some(verifier_after(context, mode, previous)),
                insert_entry(ordered, "x-amz-trailer-signature"@, signature),
            ) == Ok::<_, ErrorView>(Some(verifier_after(context, mode, signature)))
        }),
{
    let name = "x-amz-trailer-signature"@;
    let signature = sent_trailer_signature(context, previous, ordered);
    let all = insert_entry(ordered, name, signature);
    lemma_insert_entry(ordered, name, signature);
    lemma_entry_position_bounds(ordered, name);
    lemma_signature_not_signed(ordered, entry_position(ordered, name), signature);
    lemma_signed_text(ordered);
    let hash = text_hash(signed_trailer_text(ordered));
    let date = context.amz_date;
    let scope = context.credential_scope;
    lemma_five_lines("AWS4-HMAC-SHA256-TRAILER"@, date, scope, previous, hash);
    reveal_strlit("AWS4-HMAC-SHA256-TRAILER");
    reveal_strlit("AWS4-HMAC-SHA256-TRAILER\n");
    reveal_strlit("\n");
    assert("AWS4-HMAC-SHA256-TRAILER\n"@ =~= "AWS4-HMAC-SHA256-TRAILER"@ + seq!['\n']);
    assert("\n"@ =~= seq!['\n']);
    assert(lines(seq!["AWS4-HMAC-SHA256-TRAILER"@, date, scope, previous, hash])
        =~= "AWS4-HMAC-SHA256-TRAILER\n"@ + date + "\n"@ + scope + "\n"@ + previous + "\n"@
        + hash);
}

// ---------------------------------------------------------------------------------------------
// Whole bodies
// ---------------------------------------------------------------------------------------------
proof fn lemma_signed_chunks_skip(
    context: StreamingView,
    previous: Seq<char>,
    pieces: Seq<Seq<u8>>,
)
    requires
        pieces.len() > 0,
    ensures
        ({
            let signature = sent_chunk_signature(context, previous, pieces[0]);
            let chunks = signed_chunks(context, previous, pieces);
            &&& chunks.len() > 0
            &&& chunks[0].data == pieces[0]
            &&& chunks[0].extension == signature_extension(signature)
            &&& chunks.skip(1) == signed_chunks(context, signature, pieces.skip(1))
        }),
{
    let signature = sent_chunk_signature(context, previous, pieces[0]);
    let chunks = signed_chunks(context, previous, pieces);
    assert(chunks.skip(1) =~= signed_chunks(context, signature, pieces.skip(1)));
}

/// The last chunk of a signed body is accepted.
#[verifier::spinoff_prover]
proof fn lemma_run_last_signed(
    p: ParserView,
    context: StreamingView,
    mode: StreamingSignatureMode,
    previous: Seq<char>,
    sent: Seq<(Seq<char>, Seq<char>)>,
    written: nat,
    max: nat,
)
    requires
        tags_have_their_size(),
        p.mode is ChunkHeader,
        p.buffer == chunk_line(
            0,
            signature_extension(sent_chunk_signature(context, previous, Seq::empty())),
        ) + trailer_lines(sent),
        p.verifier == Some(verifier_after(context, mode, previous)),
    ensures
        ({
            let signature = sent_chunk_signature(context, previous, Seq::empty());
            let last = ParserView {
                buffer: trailer_lines(sent),
                mode: ParserMode::Trailer,
                verifier: Some(verifier_after(context, mode, signature)),
                ..p
            };
            let (more, end) = run(last, written, max);
            run(p, written, max) == (Seq::<u8>::empty() + more, end)
        }),
{
    let signature = sent_chunk_signature(context, previous, Seq::empty());
    lemma_sent_signature(context, previous, Seq::empty());
    lemma_signature_extension(0, signature);
    lemma_chunk_accepted(context, mode, previous, Seq::empty());
    lemma_run_last(
        p,
        signature_extension(signature),
        Some(signature),
        trailer_lines(sent),
        Some(verifier_after(context, mode, signature)),
        written,
        max,
    );
    let last = ParserView {
        buffer: trailer_lines(sent),
        mode: ParserMode::Trailer,
        verifier: Some(verifier_after(context, mode, signature)),
        ..p
    };
    assert(Seq::<u8>::empty() + run(last, written, max).0 =~= run(last, written, max).0);
}

/// The chunks of a signed body are accepted one by one, up to its trailers.
#[verifier::rlimit(40)]
#[verifier::spinoff_prover]
proof fn lemma_run_signed_chunks(
    p: ParserView,
    context: StreamingView,
    mode: StreamingSignatureMode,
    previous: Seq<char>,
    pieces: Seq<Seq<u8>>,
    sent: Seq<(Seq<char>, Seq<char>)>,
    written: nat,
    max: nat,
)
    requires
        tags_have_their_size(),
        p.mode is ChunkHeader,
        p.buffer == signed_body_from(context, previous, pieces, sent),
        p.verifier == Some(verifier_after(context, mode, previous)),
        are_sendable(pieces),
        written + pieces.flatten().len() <= max <= u64::MAX,
    ensures
        ({
            let last = ParserView {
                buffer: trailer_lines(sent),
                mode: ParserMode::Trailer,
                verifier: Some(
                    verifier_after(context, mode, last_chunk_signature(context, previous, pieces)),
                ),
                ..p
            };
            let (more, end) = run(last, written + pieces.flatten().len(), max);
            run(p, written, max) == (pieces.flatten() + more, end)
        }),
    decreases pieces.len(),
{
    if pieces.len() == 0 {
        assert(pieces.flatten() == Seq::<u8>::empty());
        lemma_run_last_signed(p, context, mode, previous, sent, written, max);
        assert(signed_chunks(context, previous, pieces) == Seq::<SentChunk>::empty());
    } else {
        let data = pieces[0];
        let rest = pieces.skip(1);
        let signature = sent_chunk_signature(context, previous, data);
        let more_bytes = signed_body_from(context, signature, rest, sent);
        lemma_signed_chunks_skip(context, previous, pieces);
        assert(last_chunk_signature(context, previous, pieces) == last_chunk_signature(
            context,
            signature,
            rest,
        ));
        lemma_sent_signature(context, previous, data);
        lemma_signature_extension(data.len(), signature);
        lemma_chunk_accepted(context, mode, previous, data);
        assert(rest =~= pieces.drop_first());
        assert(pieces.flatten() == data + rest.flatten());
        lemma_run_chunk(
            p,
            data,
            signature_extension(signature),
            Some(signature),
            more_bytes,
            Some(verifier_after(context, mode, signature)),
            written,
            max,
        );
        let q = ParserView {
            buffer: more_bytes,
            mode: ParserMode::ChunkHeader,
            verifier: Some(verifier_after(context, mode, signature)),
            ..p
        };
        assert forall|i: int| 0 <= i < rest.len() implies 0 < (#[trigger] rest[i]).len()
            <= usize::MAX by {
            assert(rest[i] == pieces[i + 1]);
        }
        lemma_run_signed_chunks(q, context, mode, signature, rest, sent, written + data.len(), max);
        let last = ParserView {
            buffer: trailer_lines(sent),
            mode: ParserMode::Trailer,
            verifier: Some(
                verifier_after(context, mode, last_chunk_signature(context, previous, pieces)),
            ),
            ..p
        };
        let tail = run(last, written + pieces.flatten().len(), max).0;
        assert(data + (rest.flatten() + tail) =~= pieces.flatten() + tail);
    }
}

proof fn lemma_sent_signature(context: StreamingView, previous: Seq<char>, data: Seq<u8>)
    requires
        tags_have_their_size(),
    ensures
        is_sha256_hex(sent_chunk_signature(context, previous, data)),
{
    lemma_signature_text(
        context.signing_key,
        lines(
            seq![
                "AWS4-HMAC-SHA256-PAYLOAD"@,
                context.amz_date,
                context.credential_scope,
                previous,
                bytes_hash(Seq::empty()),
                bytes_hash(data),
            ],
        ),
    );
}

/// The signature of trailers can be sent as a trailer.
proof fn lemma_signature_is_trailer(
    context: StreamingView,
    previous: Seq<char>,
    ordered: Seq<(Seq<char>, Seq<char>)>,
)
    requires
        tags_have_their_size(),
    ensures
        is_trailer(
            (
                "x-amz-trailer-signature"@,
                sent_trailer_signature(context, previous, ordered),
            ),
        ),
{
    let name = "x-amz-trailer-signature"@;
    let signature = sent_trailer_signature(context, previous, ordered);
    lemma_signature_text(
        context.signing_key,
        lines(
            seq![
                "AWS4-HMAC-SHA256-TRAILER"@,
                context.amz_date,
                context.credential_scope,
                previous,
                text_hash(signed_trailer_text(ordered)),
            ],
        ),
    );
    reveal_strlit("x-amz-trailer-signature");
    assert(name.len() == 23);
    assert(lowercase(name) =~= name);
    assert(is_lower_hex(signature[0]) && is_lower_hex(signature[63]));
    lemma_trim_unchanged(name);
    lemma_trim_unchanged(signature);
    assert forall|i: int| !#[trigger] is_line_end_at(signature, i) by {
        if is_line_end_at(signature, i) {
            assert(is_lower_hex(signature[i]));
        }
    }
}

/// Trailers that were sent are read as the ordered list of them.
proof fn lemma_sent_in_order(
    sent: Seq<(Seq<char>, Seq<char>)>,
    ordered: Seq<(Seq<char>, Seq<char>)>,
)
    requires
        forall|i: int| 0 <= i < sent.len() ==> is_trailer(#[trigger] sent[i]),
        keys(sent).no_duplicates(),
        is_ordered(sent, ordered),
    ensures
        insert_entries(Seq::empty(), sent) == ordered,
{
    lemma_sent_trailers(sent);
    lemma_ordered_unique(insert_entries(Seq::empty(), sent), ordered);
}

/// A body whose chunks and trailers are signed is accepted: its data are those of the chunks, and
/// its trailers those that were sent, with their signature. The trailers are signed in the order of
/// their names, in whatever order they are sent.
pub proof fn law_signed_bodies_are_accepted(
    context: StreamingView,
    chunks: Seq<Seq<u8>>,
    sent: Seq<(Seq<char>, Seq<char>)>,
    ordered: Seq<(Seq<char>, Seq<char>)>,
    max: nat,
)
    requires
        tags_have_their_size(),
        are_sendable(chunks),
        are_trailers(sent),
        is_ordered(sent, ordered),
        chunks.flatten().len() <= max <= u64::MAX,
    ensures
        ({
            let signature = signature_trailer(context, chunks, ordered);
            let body = signed_body_from(
                context,
                context.seed_signature,
                chunks,
                sent.push(signature),
            );
            let verifier = initial_verifier(context, StreamingSignatureMode::PayloadTrailer);
            let (data, outcome) = run(fed(new_parser(Some(verifier)), body), 0, max);
            &&& data == chunks.flatten()
            &&& outcome matches Outcome::Finished(_, trailers) && mapping(trailers) == mapping(
                sent,
            ).insert(signature.0, signature.1)
        }),
{
    let mode = StreamingSignatureMode::PayloadTrailer;
    let previous = context.seed_signature;
    let signature = signature_trailer(context, chunks, ordered);
    let all = sent.push(signature);
    let last = last_chunk_signature(context, previous, chunks);
    let body = signed_body_from(context, previous, chunks, all);
    let verifier = initial_verifier(context, mode);
    let p = fed(new_parser(Some(verifier)), body);
    assert(p.buffer =~= body);
    assert(verifier == verifier_after(context, mode, previous));
    lemma_run_signed_chunks(p, context, mode, previous, chunks, all, 0, max);
    lemma_signature_is_trailer(context, last, ordered);
    lemma_mapping(sent);
    lemma_mapping(ordered);
    assert(!keys(ordered).contains(signature.0)) by {
        assert(!mapping(sent).dom().contains(signature.0));
        assert(!mapping(ordered).dom().contains(signature.0));
    }
    assert(keys(all) =~= keys(sent).push(signature.0));
    assert forall|i: int| 0 <= i < all.len() implies is_trailer(#[trigger] all[i]) by {}
    let complete = insert_entry(ordered, signature.0, signature.1);
    lemma_insert_entry(ordered, signature.0, signature.1);
    assert(all.drop_last() =~= sent);
    assert(mapping(all) == mapping(sent).insert(signature.0, signature.1));
    lemma_sent_in_order(all, complete);
    lemma_trailers_accepted(context, last, ordered);
    let q = ParserView {
        buffer: trailer_lines(all),
        mode: ParserMode::Trailer,
        verifier: Some(verifier_after(context, mode, last)),
        ..p
    };
    assert(keys(q.trailers) =~= Seq::<Seq<char>>::empty());
    lemma_run_trailers(
        q,
        all,
        Some(verifier_after(context, mode, signature.1)),
        chunks.flatten().len(),
        max,
    );
    assert(chunks.flatten() + Seq::<u8>::empty() =~= chunks.flatten());
}

/// A body whose chunks alone are signed is accepted: its data are those of the chunks, and its
/// trailers those that were sent.
pub proof fn law_bodies_of_signed_chunks_are_accepted(
    context: StreamingView,
    chunks: Seq<Seq<u8>>,
    sent: Seq<(Seq<char>, Seq<char>)>,
    max: nat,
)
    requires
        tags_have_their_size(),
        are_sendable(chunks),
        are_trailers(sent),
        chunks.flatten().len() <= max <= u64::MAX,
    ensures
        ({
            let body = signed_body_from(context, context.seed_signature, chunks, sent);
            let verifier = initial_verifier(context, StreamingSignatureMode::Payload);
            let (data, outcome) = run(fed(new_parser(Some(verifier)), body), 0, max);
            &&& data == chunks.flatten()
            &&& outcome matches Outcome::Finished(_, trailers) && mapping(trailers) == mapping(sent)
        }),
{
    let mode = StreamingSignatureMode::Payload;
    let previous = context.seed_signature;
    let last = last_chunk_signature(context, previous, chunks);
    let body = signed_body_from(context, previous, chunks, sent);
    let verifier = initial_verifier(context, mode);
    let p = fed(new_parser(Some(verifier)), body);
    assert(p.buffer =~= body);
    assert(verifier == verifier_after(context, mode, previous));
    lemma_run_signed_chunks(p, context, mode, previous, chunks, sent, 0, max);
    let q = ParserView {
        buffer: trailer_lines(sent),
        mode: ParserMode::Trailer,
        verifier: Some(verifier_after(context, mode, last)),
        ..p
    };
    assert(keys(q.trailers) =~= Seq::<Seq<char>>::empty());
    lemma_sent_trailers(sent);
    lemma_run_trailers(q, sent, q.verifier, chunks.flatten().len(), max);
    assert(chunks.flatten() + Seq::<u8>::empty() =~= chunks.flatten());
}

/// An upload whose `x-amz-content-sha256` announces signed chunks and trailers, and whose body is
/// signed so, hands out the data of the chunks, with all signatures accepted.
pub proof fn law_signed_uploads_are_written(
    headers: Seq<(Seq<char>, Seq<u8>)>,
    context: StreamingView,
    chunks: Seq<Seq<u8>>,
    sent: Seq<(Seq<char>, Seq<char>)>,
    ordered: Seq<(Seq<char>, Seq<char>)>,
    max: nat,
)
    requires
        tags_have_their_size(),
        is_aws_chunked(headers),
        values(headers, "x-amz-content-sha256"@).len() == 1,
        field_text(values(headers, "x-amz-content-sha256"@)[0]) == Some(
            "STREAMING-AWS4-HMAC-SHA256-PAYLOAD-TRAILER"@,
        ),
        are_sendable(chunks),
        are_trailers(sent),
        is_ordered(sent, ordered),
        chunks.flatten().len() <= max <= u64::MAX,
    ensures
        ({
            let signature = signature_trailer(context, chunks, ordered);
            let body = signed_body_from(
                context,
                context.seed_signature,
                chunks,
                sent.push(signature),
            );
            let framing = initial_framing(headers, Some(context));
            &&& framing is Ok
            &&& received_pieces(framing->Ok_0, seq![body], 0, max).1 matches Ok(
                FramingView::Complete(trailers),
            ) && mapping(trailers) == mapping(sent).insert(signature.0, signature.1)
            &&& upload_data(headers, seq![body], Some(context), max) == chunks.flatten()
        }),
{
    reveal_strlit("UNSIGNED-PAYLOAD");
    reveal_strlit("STREAMING-AWS4-HMAC-SHA256-PAYLOAD");
    reveal_strlit("STREAMING-AWS4-HMAC-SHA256-PAYLOAD-TRAILER");
    assert("UNSIGNED-PAYLOAD"@.len() == 16);
    assert("STREAMING-AWS4-HMAC-SHA256-PAYLOAD"@.len() == 34);
    assert("STREAMING-AWS4-HMAC-SHA256-PAYLOAD-TRAILER"@.len() == 42);
    let signature = signature_trailer(context, chunks, ordered);
    let body = signed_body_from(context, context.seed_signature, chunks, sent.push(signature));
    law_signed_bodies_are_accepted(context, chunks, sent, ordered, max);
    let framing = initial_framing(headers, Some(context))->Ok_0;
    assert(seq![body].skip(1) =~= Seq::<Seq<u8>>::empty());
    let mode = StreamingSignatureMode::PayloadTrailer;
    let parser = new_parser(Some(initial_verifier(context, mode)));
    assert(framing == FramingView::Chunked(parser));
    let (data, next) = drained(offered(framing, body), 0, max);
    assert(next is Ok && next->Ok_0 is Complete);
    assert(received_pieces(next->Ok_0, Seq::empty(), data.len(), max).0 == Seq::<u8>::empty());
    assert(data + Seq::<u8>::empty() =~= data);
}

} // verus!
