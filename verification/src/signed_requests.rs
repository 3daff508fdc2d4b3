//! Requests as clients sign them by the definition of AWS Signature Version 4, and that they are
//! authenticated.
use crate::auth::{
    all_text, amz_time, authentication, authorization_fields, canonical_header_text,
    canonical_parameters, canonical_path, canonical_query_text, canonical_request_text,
    encoded_byte, fields_of, header_lines, is_bad_name, is_bad_name_char, is_presigned,
    is_scope_date, law_encoded_uri_characters, law_encoded_uris_are_decoded, lemma_parameter_order,
    lemma_uri_encoded_front, normalized, parameter_le, parameter_text, parse_authorization,
    parse_scope, presigned_credential, presigned_signature, presigned_time_error,
    request_payload_hash, request_signature, scope_text, signed_headers_error, signed_value,
    signed_values_error, signing_error, signing_key_of, skew_nanos, sorted_parameters,
    string_to_sign, unsigned_amz_error, upper_hex_digit, uri_encoded, AuthErrorView, AuthMode,
    AuthorizationView, CanonicalQueryMode, PayloadHashSource, ScopeView, StreamingView,
};
use crate::body::signed::lemma_signature_text;
use crate::collections::{is_sorted, keys, lemma_mapping, lemma_sorted_texts, mapping};
use crate::config::{find_credential, AuthStateView, CredentialView};
use crate::encoding::percent_decoded_text;
use crate::handlers::selection::lemma_decimal;
use crate::http::{field_text, first_text, has_field, sent_query, values, UriView};
use crate::s3::types::{is_sha256_hex, law_payload_hash_mode_round_trip};
use crate::signing::{lemma_four_lines, lines, tags_have_their_size, text_hash, text_tag};
use crate::text::{
    decimal, hex_text, is_digit, is_lower_hex, is_whitespace, join, lemma_first_index_is, raw_pair,
    split, split_once, starts_with, text_less, trim, trim_end, trim_start, word_length, words,
};
use crate::time::{is_after, plus_seconds};
use vstd::prelude::*;
use vstd::utf8::{encode_utf8, encode_utf8_decode_utf8, encode_utf8_valid_utf8};

verus! {

// ---------------------------------------------------------------------------------------------
// Lists in texts
// ---------------------------------------------------------------------------------------------
/// Texts one after the other, with a character between them.
pub open spec fn glued(parts: Seq<Seq<char>>, between: char) -> Seq<char>
    decreases parts.len(),
{
    if parts.len() == 0 {
        Seq::empty()
    } else if parts.len() == 1 {
        parts[0]
    } else {
        parts[0] + seq![between] + glued(parts.skip(1), between)
    }
}

/// Whether no text of a list holds a character.
pub open spec fn are_without(parts: Seq<Seq<char>>, c: char) -> bool {
    forall|i: int| 0 <= i < parts.len() ==> !(#[trigger] parts[i]).contains(c)
}

/// A list is read back from the text that glues it.
pub proof fn lemma_split_glued(parts: Seq<Seq<char>>, between: char)
    requires
        parts.len() > 0,
        are_without(parts, between),
    ensures
        split(glued(parts, between), between) == parts,
    decreases parts.len(),
{
    let text = glued(parts, between);
    let first = parts[0];
    assert(!first.contains(between));
    assert forall|j: int| 0 <= j < first.len() implies #[trigger] text[j] != between by {
        assert(text[j] == first[j]);
        assert(first.contains(first[j]));
    }
    if parts.len() == 1 {
        lemma_first_index_is(text, between, text.len() as int);
        assert(parts =~= seq![text]);
    } else {
        let rest = parts.skip(1);
        assert(text[first.len() as int] == between);
        lemma_first_index_is(text, between, first.len() as int);
        assert(text.take(first.len() as int) =~= first);
        assert(text.skip(first.len() as int + 1) =~= glued(rest, between));
        assert forall|i: int| 0 <= i < rest.len() implies !(#[trigger] rest[i]).contains(
            between,
        ) by {
            assert(rest[i] == parts[i + 1]);
        }
        lemma_split_glued(rest, between);
        assert(seq![first] + rest =~= parts);
    }
}

proof fn lemma_join_front(first: Seq<char>, rest: Seq<Seq<char>>, separator: Seq<char>)
    requires
        rest.len() > 0,
    ensures
        join(seq![first] + rest, separator) == first + separator + join(rest, separator),
    decreases rest.len(),
{
    let all = seq![first] + rest;
    assert(all.last() == rest.last());
    if rest.len() == 1 {
        assert(all.drop_last() =~= seq![first]);
        assert(join(all.drop_last(), separator) == first);
    } else {
        lemma_join_front(first, rest.drop_last(), separator);
        assert(all.drop_last() =~= seq![first] + rest.drop_last());
        let shorter = join(rest.drop_last(), separator);
        assert(first + separator + shorter + separator + rest.last() =~= first + separator + (
        shorter + separator + rest.last()));
    }
}

/// Joining texts by a character glues them.
pub proof fn lemma_join_glues(parts: Seq<Seq<char>>, between: char)
    ensures
        join(parts, seq![between]) == glued(parts, between),
    decreases parts.len(),
{
    if parts.len() > 1 {
        let rest = parts.skip(1);
        lemma_join_glues(rest, between);
        lemma_join_front(parts[0], rest, seq![between]);
        assert(seq![parts[0]] + rest =~= parts);
    }
}

// ---------------------------------------------------------------------------------------------
// Values of header fields
// ---------------------------------------------------------------------------------------------
/// Whether a value has no white space but single spaces inside.
pub open spec fn is_tidy(value: Seq<char>) -> bool {
    &&& value.len() > 0 ==> !is_whitespace(value[0]) && !is_whitespace(value.last())
    &&& forall|i: int|
        0 <= i < value.len() - 1 && is_whitespace(#[trigger] value[i]) ==> value[i] == ' '
            && !is_whitespace(value[i + 1])
}

proof fn lemma_word(s: Seq<char>)
    ensures
        0 <= word_length(s) <= s.len(),
        word_length(s) < s.len() ==> is_whitespace(s[word_length(s)]),
        s.len() > 0 && !is_whitespace(s[0]) ==> word_length(s) > 0,
    decreases s.len(),
{
    if s.len() > 0 && !is_whitespace(s[0]) {
        lemma_word(s.drop_first());
    }
}

/// A tidy value is signed as it is.
pub proof fn lemma_tidy_values(value: Seq<char>)
    requires
        is_tidy(value),
    ensures
        normalized(value) == value,
        value.len() > 0 ==> words(value).len() > 0,
    decreases value.len(),
{
    reveal_strlit(" ");
    assert(" "@ =~= seq![' ']);
    if value.len() == 0 {
        assert(value =~= Seq::<char>::empty());
    } else {
        let n = word_length(value);
        lemma_word(value);
        let first = value.take(n);
        if n == value.len() {
            assert(value.skip(n) =~= Seq::<char>::empty());
            assert(words(value.skip(n)) == Seq::<Seq<char>>::empty());
            assert(words(value) =~= seq![first]);
            assert(first =~= value);
        } else {
            assert(value[n] == ' ' && n < value.len() - 1 && !is_whitespace(value[n + 1]));
            let rest = value.skip(n + 1);
            let spaced = value.skip(n);
            assert(spaced[0] == value[n]);
            assert(spaced.drop_first() =~= rest);
            assert(words(spaced) == words(rest));
            assert(rest[0] == value[n + 1]);
            assert(rest.last() == value.last());
            assert forall|i: int|
                0 <= i < rest.len() - 1 && is_whitespace(#[trigger] rest[i]) implies rest[i] == ' '
                && !is_whitespace(rest[i + 1]) by {
                assert(rest[i] == value[n + 1 + i]);
                assert(rest[i + 1] == value[n + 1 + i + 1]);
            }
            lemma_tidy_values(rest);
            lemma_join_front(first, words(rest), " "@);
            assert(first + " "@ + rest =~= value);
        }
    }
}

// ---------------------------------------------------------------------------------------------
// Paths and queries
// ---------------------------------------------------------------------------------------------
/// Whether a character is sent as it is in a path or a query.
pub open spec fn is_sent_plainly(c: char) -> bool {
    'A' <= c <= 'Z' || 'a' <= c <= 'z' || '0' <= c <= '9' || c == '-' || c == '.' || c == '_' || c
        == '~'
}

/// A byte as a client escapes it.
pub open spec fn escape(byte: u8) -> Seq<char> {
    let digits = "0123456789ABCDEF"@;
    seq!['%', digits[byte as int / 16], digits[byte as int % 16]]
}

/// Bytes as a client writes them in a path, where slashes are kept, or in a query.
pub open spec fn escaped(bytes: Seq<u8>, keeps_slashes: bool) -> Seq<char>
    decreases bytes.len(),
{
    if bytes.len() == 0 {
        Seq::empty()
    } else {
        let c = bytes[0] as char;
        let written = if is_sent_plainly(c) || (keeps_slashes && c == '/') {
            seq![c]
        } else {
            escape(bytes[0])
        };
        written + escaped(bytes.skip(1), keeps_slashes)
    }
}

proof fn lemma_hex_digits(value: nat)
    requires
        value < 16,
    ensures
        "0123456789ABCDEF"@[value as int] == upper_hex_digit(value),
{
    reveal_strlit("0123456789ABCDEF");
    let digits = "0123456789ABCDEF"@;
    assert(digits[0] == '0' && digits[1] == '1' && digits[2] == '2' && digits[3] == '3');
    assert(digits[4] == '4' && digits[5] == '5' && digits[6] == '6' && digits[7] == '7');
    assert(digits[8] == '8' && digits[9] == '9' && digits[10] == 'A' && digits[11] == 'B');
    assert(digits[12] == 'C' && digits[13] == 'D' && digits[14] == 'E' && digits[15] == 'F');
}

/// Paths and parameters are encoded as the client escapes them.
pub proof fn lemma_escaped(bytes: Seq<u8>, keeps_slashes: bool)
    ensures
        uri_encoded(bytes, keeps_slashes) == escaped(bytes, keeps_slashes),
    decreases bytes.len(),
{
    if bytes.len() > 0 {
        let byte = bytes[0];
        lemma_uri_encoded_front(bytes, keeps_slashes);
        lemma_escaped(bytes.skip(1), keeps_slashes);
        lemma_hex_digits(byte as nat / 16);
        lemma_hex_digits(byte as nat % 16);
        let c = byte as char;
        assert(encoded_byte(byte, keeps_slashes) =~= if is_sent_plainly(c) || (keeps_slashes && c
            == '/') {
            seq![c]
        } else {
            escape(byte)
        });
    }
}

/// A parameter as a client writes it, name and value apart.
pub open spec fn sent_pair(parameter: (Seq<char>, Seq<char>)) -> (Seq<char>, Seq<char>) {
    (escaped(encode_utf8(parameter.0), false), escaped(encode_utf8(parameter.1), false))
}

/// The parts of a query that a client sends.
pub open spec fn sent_pairs(parameters: Seq<(Seq<char>, Seq<char>)>) -> Seq<Seq<char>> {
    parameters.map_values(
        |p: (Seq<char>, Seq<char>)| sent_pair(p).0 + seq!['='] + sent_pair(p).1,
    )
}

/// The query that a client sends.
pub open spec fn sent_parameters(parameters: Seq<(Seq<char>, Seq<char>)>) -> Seq<char> {
    glued(sent_pairs(parameters), '&')
}

/// Whether a client lists parameters in the order in which they are signed: by their names as they
/// are sent, and by their values where names are equal.
pub open spec fn are_in_order(parameters: Seq<(Seq<char>, Seq<char>)>) -> bool {
    forall|i: int, j: int|
        #![trigger parameters[i], parameters[j]]
        0 <= i < j < parameters.len() ==> {
            let (a, b) = (sent_pair(parameters[i]), sent_pair(parameters[j]));
            text_less(a.0, b.0) || (a.0 == b.0 && !text_less(b.1, a.1))
        }
}

proof fn lemma_escaped_characters(bytes: Seq<u8>, c: char)
    requires
        c == '=' || c == '&',
    ensures
        !escaped(bytes, false).contains(c),
{
    lemma_escaped(bytes, false);
    let text = escaped(bytes, false);
    if text.contains(c) {
        let i = choose|i: int| 0 <= i < text.len() && text[i] == c;
        law_encoded_uri_characters(bytes, false, i);
    }
}

proof fn lemma_sent_pair(parameter: (Seq<char>, Seq<char>))
    ensures
        ({
            let pair = sent_pair(parameter);
            let piece = pair.0 + seq!['='] + pair.1;
            &&& !piece.contains('&')
            &&& raw_pair(piece) == pair
            &&& percent_decoded_text(pair.0) == Some(parameter.0)
            &&& percent_decoded_text(pair.1) == Some(parameter.1)
            &&& uri_encoded(encode_utf8(parameter.0), false) == pair.0
            &&& uri_encoded(encode_utf8(parameter.1), false) == pair.1
            &&& parameter_text(pair) == piece
        }),
{
    broadcast use {encode_utf8_valid_utf8, encode_utf8_decode_utf8};

    let name = encode_utf8(parameter.0);
    let value = encode_utf8(parameter.1);
    let pair = sent_pair(parameter);
    let piece = pair.0 + seq!['='] + pair.1;
    lemma_escaped(name, false);
    lemma_escaped(value, false);
    law_encoded_uris_are_decoded(name, false);
    law_encoded_uris_are_decoded(value, false);
    lemma_escaped_characters(name, '=');
    lemma_escaped_characters(name, '&');
    lemma_escaped_characters(value, '&');
    if piece.contains('&') {
        let i = choose|i: int| 0 <= i < piece.len() && piece[i] == '&';
        if i < pair.0.len() {
            assert(pair.0[i] == '&');
        } else {
            assert(pair.1[i - pair.0.len() - 1] == '&');
        }
    }
    let n = pair.0.len() as int;
    assert forall|j: int| 0 <= j < n implies #[trigger] piece[j] != '=' by {
        assert(piece[j] == pair.0[j]);
        assert(pair.0.contains(pair.0[j]));
    }
    lemma_first_index_is(piece, '=', n);
    assert(piece.take(n) =~= pair.0);
    assert(piece.skip(n + 1) =~= pair.1);
    reveal_strlit("=");
    assert("="@ =~= seq!['=']);
}

proof fn lemma_sent_parameters(
    parameters: Seq<(Seq<char>, Seq<char>)>,
    mode: CanonicalQueryMode,
)
    requires
        mode == CanonicalQueryMode::IncludeAll || !keys(parameters).contains("X-Amz-Signature"@),
    ensures
        canonical_parameters(sent_pairs(parameters), mode) == Some(
            parameters.map_values(|p: (Seq<char>, Seq<char>)| sent_pair(p)),
        ),
    decreases parameters.len(),
{
    let pairs = parameters.map_values(|p: (Seq<char>, Seq<char>)| sent_pair(p));
    if parameters.len() == 0 {
        assert(pairs =~= Seq::<(Seq<char>, Seq<char>)>::empty());
    } else {
        let rest = parameters.drop_last();
        assert(keys(parameters)[parameters.len() - 1] == parameters.last().0);
        if keys(rest).contains("X-Amz-Signature"@) {
            let i = choose|i: int| 0 <= i < rest.len() && keys(rest)[i] == "X-Amz-Signature"@;
            assert(keys(parameters)[i] == keys(rest)[i]);
        }
        lemma_sent_parameters(rest, mode);
        lemma_sent_pair(parameters.last());
        assert(sent_pairs(parameters).drop_last() =~= sent_pairs(rest));
        assert(rest.map_values(|p: (Seq<char>, Seq<char>)| sent_pair(p)).push(
            sent_pair(parameters.last()),
        ) =~= pairs);
    }
}

/// Parameters in order are written as the client sends them.
proof fn lemma_written_in_order(parameters: Seq<(Seq<char>, Seq<char>)>)
    requires
        are_in_order(parameters),
    ensures
        ({
            let list = parameters.map_values(|p: (Seq<char>, Seq<char>)| sent_pair(p));
            join(
                sorted_parameters(list).map_values(
                    |p: (Seq<char>, Seq<char>)| parameter_text(p),
                ),
                "&"@,
            ) == sent_parameters(parameters)
        }),
{
    let parts = sent_pairs(parameters);
    let list = parameters.map_values(|p: (Seq<char>, Seq<char>)| sent_pair(p));
    let leq = |a: (Seq<char>, Seq<char>), b: (Seq<char>, Seq<char>)| parameter_le(a, b);
    lemma_parameter_order();
    list.lemma_sort_by_ensures(leq);
    assert(vstd::relations::sorted_by(list, leq)) by {
        assert forall|i: int, j: int| 0 <= i < j < list.len() implies #[trigger] leq(
            list[i],
            list[j],
        ) by {
            assert(list[i] == sent_pair(parameters[i]));
            assert(list[j] == sent_pair(parameters[j]));
        }
    }
    vstd::seq_lib::lemma_sorted_unique(sorted_parameters(list), list, leq);
    let written = list.map_values(|p: (Seq<char>, Seq<char>)| parameter_text(p));
    assert forall|i: int| 0 <= i < written.len() implies written[i] == parts[i] by {
        lemma_sent_pair(parameters[i]);
    }
    assert(written =~= parts);
    reveal_strlit("&");
    assert("&"@ =~= seq!['&']);
    lemma_join_glues(parts, '&');
}

/// A query is read back as the list of its parts.
proof fn lemma_query_parts(parameters: Seq<(Seq<char>, Seq<char>)>)
    requires
        parameters.len() > 0,
    ensures
        split(sent_parameters(parameters), '&') == sent_pairs(parameters),
        sent_parameters(parameters).len() > 0,
{
    let parts = sent_pairs(parameters);
    assert forall|i: int| 0 <= i < parts.len() implies !(#[trigger] parts[i]).contains('&') by {
        lemma_sent_pair(parameters[i]);
    }
    lemma_split_glued(parts, '&');
    assert(parts[0].len() > 0);
}

/// A query whose parameters are sent in order is its own canonical form.
pub proof fn law_queries_in_order_are_canonical(parameters: Seq<(Seq<char>, Seq<char>)>)
    requires
        are_in_order(parameters),
    ensures
        canonical_query_text(sent_parameters(parameters), CanonicalQueryMode::IncludeAll) == Ok::<
            _,
            AuthErrorView,
        >(sent_parameters(parameters)),
{
    if parameters.len() > 0 {
        lemma_query_parts(parameters);
        lemma_sent_parameters(parameters, CanonicalQueryMode::IncludeAll);
        lemma_written_in_order(parameters);
    }
}

// ---------------------------------------------------------------------------------------------
// Canonical requests
// ---------------------------------------------------------------------------------------------
/// The lines of signed header fields.
pub open spec fn field_lines(fields: Seq<(Seq<char>, Seq<char>)>) -> Seq<Seq<char>> {
    fields.map_values(|f: (Seq<char>, Seq<char>)| f.0 + seq![':'] + f.1)
}

/// The list of signed header fields.
pub open spec fn signed_names(fields: Seq<(Seq<char>, Seq<char>)>) -> Seq<char> {
    glued(keys(fields), ';')
}

/// The text of a request that a client signs: a line each for the method, the path, the query and
/// every signed header field, an empty line, and a line each for the list of signed fields and the
/// payload.
pub open spec fn signed_text(
    method: Seq<char>,
    path: Seq<char>,
    parameters: Seq<(Seq<char>, Seq<char>)>,
    fields: Seq<(Seq<char>, Seq<char>)>,
    payload: Seq<char>,
) -> Seq<char> {
    lines(
        seq![method, escaped(encode_utf8(path), true), sent_parameters(parameters)] + field_lines(
            fields,
        ) + seq![Seq::empty(), signed_names(fields), payload],
    )
}

/// Whether header fields can be signed as a client lists them: their names are lowercase, in
/// ascending order and free of separators, `host` is among them, and so is every field of the
/// request whose name begins with `x-amz-`; each stands once in the request, with a tidy value.
pub open spec fn are_signed_fields(
    headers: Seq<(Seq<char>, Seq<u8>)>,
    fields: Seq<(Seq<char>, Seq<char>)>,
) -> bool {
    &&& is_sorted(keys(fields))
    &&& keys(fields).contains("host"@)
    &&& forall|i: int|
        0 <= i < headers.len() && starts_with((#[trigger] headers[i]).0, "x-amz-"@) ==> keys(
            fields,
        ).contains(headers[i].0)
    &&& forall|i: int|
        0 <= i < fields.len() ==> {
            &&& is_field_name((#[trigger] fields[i]).0)
            &&& is_tidy(fields[i].1)
            &&& values(headers, fields[i].0).len() == 1
            &&& field_text(values(headers, fields[i].0)[0]) == Some(fields[i].1)
        }
}

/// Whether a text can be the name of a signed header field: lowercase letters, digits and hyphens.
pub open spec fn is_field_name(name: Seq<char>) -> bool {
    name.len() > 0 && forall|i: int|
        0 <= i < name.len() ==> {
            let c = #[trigger] name[i];
            'a' <= c <= 'z' || '0' <= c <= '9' || c == '-'
        }
}

/// Whether the headers carry a payload hash of a supported form.
pub open spec fn is_payload_hash(headers: Seq<(Seq<char>, Seq<u8>)>, payload: Seq<char>) -> bool {
    &&& values(headers, "x-amz-content-sha256"@).len() == 1
    &&& field_text(values(headers, "x-amz-content-sha256"@)[0]) == Some(payload)
    &&& {
        ||| is_sha256_hex(payload)
        ||| payload == "UNSIGNED-PAYLOAD"@
        ||| payload == "STREAMING-AWS4-HMAC-SHA256-PAYLOAD"@
        ||| payload == "STREAMING-AWS4-HMAC-SHA256-PAYLOAD-TRAILER"@
        ||| payload == "STREAMING-UNSIGNED-PAYLOAD-TRAILER"@
    }
}

proof fn lemma_field_lines(
    headers: Seq<(Seq<char>, Seq<u8>)>,
    fields: Seq<(Seq<char>, Seq<char>)>,
    after: Seq<Seq<char>>,
)
    requires
        after.len() > 0,
        forall|i: int|
            0 <= i < fields.len() ==> signed_value(headers, (#[trigger] fields[i]).0) == Ok::<
                _,
                AuthErrorView,
            >(fields[i].1),
    ensures
        lines(field_lines(fields) + after) == header_lines(headers, keys(fields)) + lines(after),
    decreases fields.len(),
{
    if fields.len() == 0 {
        assert(field_lines(fields) + after =~= after);
        assert(header_lines(headers, keys(fields)) == Seq::<char>::empty());
        assert(Seq::<char>::empty() + lines(after) =~= lines(after));
    } else {
        let rest = fields.drop_last();
        let last = fields.last();
        let line = last.0 + seq![':'] + last.1;
        let more = seq![line] + after;
        assert(field_lines(fields) + after =~= field_lines(rest) + more);
        assert forall|i: int| 0 <= i < rest.len() implies signed_value(
            headers,
            (#[trigger] rest[i]).0,
        ) == Ok::<_, AuthErrorView>(rest[i].1) by {
            assert(rest[i] == fields[i]);
        }
        lemma_field_lines(headers, rest, more);
        assert(more.skip(1) =~= after);
        assert(lines(more) == line + seq!['\n'] + lines(after));
        assert(keys(fields).drop_last() =~= keys(rest));
        assert(keys(fields).last() == last.0);
        assert(signed_value(headers, fields[fields.len() - 1].0) == Ok::<_, AuthErrorView>(last.1));
        reveal_strlit(":");
        reveal_strlit("\n");
        assert(":"@ =~= seq![':']);
        assert("\n"@ =~= seq!['\n']);
        let head = header_lines(headers, keys(rest));
        assert(head + (line + seq!['\n'] + lines(after)) =~= (head + (last.0 + ":"@ + last.1
            + "\n"@)) + lines(after));
    }
}

proof fn lemma_signed_values(
    headers: Seq<(Seq<char>, Seq<u8>)>,
    fields: Seq<(Seq<char>, Seq<char>)>,
    from: int,
)
    requires
        0 <= from <= fields.len(),
        forall|i: int|
            0 <= i < fields.len() ==> signed_value(headers, (#[trigger] fields[i]).0) is Ok,
    ensures
        signed_values_error(headers, keys(fields), from) is None,
    decreases fields.len() - from,
{
    if from < fields.len() {
        assert(keys(fields)[from] == fields[from].0);
        lemma_signed_values(headers, fields, from + 1);
    }
}

proof fn lemma_amz_fields_signed(
    headers: Seq<(Seq<char>, Seq<u8>)>,
    names: Seq<Seq<char>>,
    from: int,
)
    requires
        0 <= from <= headers.len(),
        forall|i: int|
            0 <= i < headers.len() && starts_with((#[trigger] headers[i]).0, "x-amz-"@)
                ==> names.contains(headers[i].0),
    ensures
        unsigned_amz_error(headers, names, from) is None,
    decreases headers.len() - from,
{
    if from < headers.len() {
        lemma_amz_fields_signed(headers, names, from + 1);
    }
}

/// A field that stands in a request has a place in it.
proof fn lemma_field_place(headers: Seq<(Seq<char>, Seq<u8>)>, name: Seq<char>)
    requires
        values(headers, name).len() > 0,
    ensures
        exists|i: int| 0 <= i < headers.len() && (#[trigger] headers[i]).0 == name,
    decreases headers.len(),
{
    let rest = headers.drop_last();
    if headers.last().0 == name {
        assert(headers[headers.len() - 1].0 == name);
    } else {
        lemma_field_place(rest, name);
        let i = choose|i: int| 0 <= i < rest.len() && (#[trigger] rest[i]).0 == name;
        assert(headers[i].0 == name);
    }
}

/// An `x-amz-` field that a client signs does not stand twice.
proof fn lemma_signed_once(
    headers: Seq<(Seq<char>, Seq<u8>)>,
    fields: Seq<(Seq<char>, Seq<char>)>,
    name: Seq<char>,
)
    requires
        are_signed_fields(headers, fields),
        starts_with(name, "x-amz-"@),
    ensures
        values(headers, name).len() <= 1,
{
    if values(headers, name).len() > 0 {
        lemma_field_place(headers, name);
        let i = choose|i: int| 0 <= i < headers.len() && (#[trigger] headers[i]).0 == name;
        assert(keys(fields).contains(name));
        let j = choose|j: int| 0 <= j < keys(fields).len() && keys(fields)[j] == name;
        assert(fields[j].0 == name);
    }
}

proof fn lemma_names_accepted(
    headers: Seq<(Seq<char>, Seq<u8>)>,
    fields: Seq<(Seq<char>, Seq<char>)>,
)
    requires
        are_signed_fields(headers, fields),
    ensures
        split(signed_names(fields), ';') == keys(fields),
        signing_error(headers, keys(fields)) is None,
{
    let names = keys(fields);
    assert(names.len() > 0);
    assert forall|i: int| 0 <= i < names.len() implies !(#[trigger] names[i]).contains(';')
        && !is_bad_name(names[i]) by {
        let name = fields[i].0;
        assert(names[i] == name);
        assert(is_field_name(name));
        if name.contains(';') {
            let k = choose|k: int| 0 <= k < name.len() && name[k] == ';';
            assert(name[k] == ';');
        }
        assert forall|k: int| 0 <= k < name.len() implies !is_bad_name_char(#[trigger] name[k]) by {}
    }
    lemma_split_glued(names, ';');
    assert(signed_headers_error(names) is None);
    lemma_amz_fields_signed(headers, names, 0);
    assert(starts_with("x-amz-date"@, "x-amz-"@) && starts_with(
        "x-amz-content-sha256"@,
        "x-amz-"@,
    ) && starts_with("x-amz-security-token"@, "x-amz-"@)) by {
        reveal_strlit("x-amz-");
        reveal_strlit("x-amz-date");
        reveal_strlit("x-amz-content-sha256");
        reveal_strlit("x-amz-security-token");
        assert("x-amz-date"@.take(6) =~= "x-amz-"@);
        assert("x-amz-content-sha256"@.take(6) =~= "x-amz-"@);
        assert("x-amz-security-token"@.take(6) =~= "x-amz-"@);
    }
    lemma_signed_once(headers, fields, "x-amz-date"@);
    lemma_signed_once(headers, fields, "x-amz-content-sha256"@);
    lemma_signed_once(headers, fields, "x-amz-security-token"@);
}

proof fn lemma_field_values(
    headers: Seq<(Seq<char>, Seq<u8>)>,
    fields: Seq<(Seq<char>, Seq<char>)>,
)
    requires
        are_signed_fields(headers, fields),
    ensures
        forall|i: int|
            0 <= i < fields.len() ==> signed_value(headers, (#[trigger] fields[i]).0) == Ok::<
                _,
                AuthErrorView,
            >(fields[i].1),
        canonical_header_text(headers, keys(fields)) == Ok::<_, AuthErrorView>(
            header_lines(headers, keys(fields)),
        ),
{
    assert forall|i: int| 0 <= i < fields.len() implies signed_value(
        headers,
        (#[trigger] fields[i]).0,
    ) == Ok::<_, AuthErrorView>(fields[i].1) by {
        let found = values(headers, fields[i].0);
        lemma_tidy_values(fields[i].1);
        assert(all_text(found));
        let written = found.map_values(|v: Seq<u8>| normalized(field_text(v)->0));
        assert(written.len() == 1 && written[0] == fields[i].1);
    }
    lemma_signed_values(headers, fields, 0);
    lemma_sorted_texts(keys(fields), keys(fields));
}

proof fn lemma_text_of_lines(
    method: Seq<char>,
    path: Seq<char>,
    query: Seq<char>,
    between: Seq<Seq<char>>,
    written: Seq<char>,
    signed: Seq<char>,
    payload: Seq<char>,
)
    requires
        lines(between + seq![Seq::empty(), signed, payload]) == written + lines(
            seq![Seq::empty(), signed, payload],
        ),
    ensures
        lines(seq![method, path, query] + between + seq![Seq::empty(), signed, payload]) == method
            + "\n"@ + path + "\n"@ + query + "\n"@ + written + "\n"@ + signed + "\n"@ + payload,
{
    let none = Seq::<char>::empty();
    let after = seq![none, signed, payload];
    assert(lines(after) =~= seq!['\n'] + signed + seq!['\n'] + payload) by {
        reveal_with_fuel(lines, 4);
        assert(after.skip(1) =~= seq![signed, payload]);
        assert(seq![signed, payload].skip(1) =~= seq![payload]);
    }
    let body = between + after;
    let all = seq![method, path, query] + between + after;
    assert(all.skip(1) =~= seq![path, query] + body);
    assert((seq![path, query] + body).skip(1) =~= seq![query] + body);
    assert((seq![query] + body).skip(1) =~= body);
    assert(lines(seq![query] + body) == query + seq!['\n'] + lines(body));
    assert(lines(seq![path, query] + body) == path + seq!['\n'] + lines(seq![query] + body));
    assert(lines(all) == method + seq!['\n'] + lines(seq![path, query] + body));
    reveal_strlit("\n");
    assert("\n"@ =~= seq!['\n']);
    assert(lines(all) =~= method + "\n"@ + path + "\n"@ + query + "\n"@ + written + "\n"@ + signed
        + "\n"@ + payload);
}

proof fn lemma_payload_hash(headers: Seq<(Seq<char>, Seq<u8>)>, payload: Seq<char>)
    requires
        is_payload_hash(headers, payload),
    ensures
        request_payload_hash(headers, PayloadHashSource::Header) == Ok::<_, AuthErrorView>(payload),
{
    law_payload_hash_mode_round_trip(Some(payload));
}

/// The text that a client signs is the canonical form of its request.
pub proof fn law_signed_texts_are_canonical(
    method: Seq<char>,
    uri: UriView,
    headers: Seq<(Seq<char>, Seq<u8>)>,
    parameters: Seq<(Seq<char>, Seq<char>)>,
    fields: Seq<(Seq<char>, Seq<char>)>,
    payload: Seq<char>,
)
    requires
        sent_query(uri.query) == sent_parameters(parameters),
        are_in_order(parameters),
        are_signed_fields(headers, fields),
        is_payload_hash(headers, payload),
    ensures
        canonical_request_text(
            method,
            uri,
            headers,
            signed_names(fields),
            CanonicalQueryMode::IncludeAll,
            PayloadHashSource::Header,
        ) == Ok::<_, AuthErrorView>(signed_text(method, uri.path, parameters, fields, payload)),
{
    law_queries_in_order_are_canonical(parameters);
    lemma_names_accepted(headers, fields);
    lemma_field_values(headers, fields);
    lemma_payload_hash(headers, payload);
    lemma_escaped(encode_utf8(uri.path), true);
    let signed = signed_names(fields);
    let after = seq![Seq::<char>::empty(), signed, payload];
    lemma_field_lines(headers, fields, after);
    lemma_text_of_lines(
        method,
        canonical_path(uri.path),
        sent_parameters(parameters),
        field_lines(fields),
        header_lines(headers, keys(fields)),
        signed,
        payload,
    );
}

// ---------------------------------------------------------------------------------------------
// Signatures of requests
// ---------------------------------------------------------------------------------------------
/// The key that a client derives from its secret for a day and a region.
pub open spec fn derived_key(secret: Seq<char>, date: Seq<char>, region: Seq<char>) -> Seq<u8> {
    let of_the_day = text_tag(encode_utf8("AWS4"@ + secret), date);
    let of_the_region = text_tag(of_the_day, region);
    let of_the_service = text_tag(of_the_region, "s3"@);
    text_tag(of_the_service, "aws4_request"@)
}

/// What a client signs for: the day, the region, the service and the kind of request.
pub open spec fn signing_scope(date: Seq<char>, region: Seq<char>) -> Seq<char> {
    glued(seq![date, region, "s3"@, "aws4_request"@], '/')
}

/// The signature that a client gives a text.
pub open spec fn sent_signature(
    secret: Seq<char>,
    amz_date: Seq<char>,
    date: Seq<char>,
    region: Seq<char>,
    text: Seq<char>,
) -> Seq<char> {
    hex_text(
        text_tag(
            derived_key(secret, date, region),
            lines(
                seq!["AWS4-HMAC-SHA256"@, amz_date, signing_scope(date, region), text_hash(text)],
            ),
        ),
    )
}

/// An access key ID with what it signs for.
pub open spec fn sent_credential(id: Seq<char>, date: Seq<char>, region: Seq<char>) -> Seq<char> {
    glued(seq![id, date, region, "s3"@, "aws4_request"@], '/')
}

/// The value of `Authorization` that a client sends.
pub open spec fn sent_authorization(
    credential: Seq<char>,
    signed: Seq<char>,
    signature: Seq<char>,
) -> Seq<char> {
    "AWS4-HMAC-SHA256 Credential="@ + credential + ", SignedHeaders="@ + signed + ", Signature="@
        + signature
}

/// Whether a text can be a part of what a client signs for.
pub open spec fn is_scope_part(text: Seq<char>) -> bool {
    text.len() > 0 && !text.contains('/') && !text.contains(',')
}

proof fn lemma_sent_signature(
    secret: Seq<char>,
    amz_date: Seq<char>,
    date: Seq<char>,
    region: Seq<char>,
    text: Seq<char>,
)
    ensures
        signing_key_of(secret, date, region) == derived_key(secret, date, region),
        scope_text(date, region) == signing_scope(date, region),
        request_signature(derived_key(secret, date, region), amz_date, date, region, text)
            == sent_signature(secret, amz_date, date, region, text),
{
    let scope = signing_scope(date, region);
    let parts = seq![date, region, "s3"@, "aws4_request"@];
    reveal_with_fuel(glued, 5);
    assert(parts.skip(1) =~= seq![region, "s3"@, "aws4_request"@]);
    assert(parts.skip(1).skip(1) =~= seq!["s3"@, "aws4_request"@]);
    assert(parts.skip(1).skip(1).skip(1) =~= seq!["aws4_request"@]);
    reveal_strlit("/");
    reveal_strlit("s3");
    reveal_strlit("aws4_request");
    reveal_strlit("/s3/aws4_request");
    assert("/"@ =~= seq!['/']);
    assert("/s3/aws4_request"@ =~= seq!['/'] + ("s3"@ + seq!['/'] + "aws4_request"@));
    assert(scope == date + seq!['/'] + (region + seq!['/'] + ("s3"@ + seq!['/']
        + "aws4_request"@)));
    assert(scope_text(date, region) =~= scope);
    let hash = text_hash(text);
    lemma_four_lines("AWS4-HMAC-SHA256"@, amz_date, scope, hash);
    reveal_strlit("AWS4-HMAC-SHA256");
    reveal_strlit("AWS4-HMAC-SHA256\n");
    reveal_strlit("\n");
    assert("AWS4-HMAC-SHA256\n"@ =~= "AWS4-HMAC-SHA256"@ + seq!['\n']);
    assert("\n"@ =~= seq!['\n']);
    assert(string_to_sign(amz_date, date, region, text) =~= lines(
        seq!["AWS4-HMAC-SHA256"@, amz_date, scope, hash],
    ));
}

/// A field of an authorization header is read back.
proof fn lemma_authorization_part(lead: Seq<char>, name: Seq<char>, value: Seq<char>)
    requires
        lead == Seq::<char>::empty() || lead == seq![' '],
        name.len() > 0,
        !name.contains('='),
        !is_whitespace(name[0]),
        value.len() > 0,
        !is_whitespace(value.last()),
    ensures
        split_once(trim(lead + name + seq!['='] + value), '=') == Some((name, value)),
{
    let pair = name + seq!['='] + value;
    let part = lead + name + seq!['='] + value;
    assert(trim_start(pair) == pair);
    assert(pair.last() == value.last());
    assert(trim_end(pair) == pair);
    if lead == seq![' '] {
        assert(part.drop_first() =~= pair);
        assert(trim_start(part) == trim_start(pair));
    } else {
        assert(part =~= pair);
    }
    let n = name.len() as int;
    assert forall|j: int| 0 <= j < n implies #[trigger] pair[j] != '=' by {
        assert(pair[j] == name[j]);
        assert(name.contains(name[j]));
    }
    lemma_first_index_is(pair, '=', n);
    assert(pair.take(n) =~= name);
    assert(pair.skip(n + 1) =~= value);
}

proof fn lemma_not_within(a: Seq<char>, b: Seq<char>, c: char)
    requires
        !a.contains(c),
        !b.contains(c),
    ensures
        !(a + b).contains(c),
{
    let all = a + b;
    if all.contains(c) {
        let i = choose|i: int| 0 <= i < all.len() && all[i] == c;
        if i < a.len() {
            assert(a[i] == c);
        } else {
            assert(b[i - a.len()] == c);
        }
    }
}

proof fn lemma_three_fields(
    first: Seq<char>,
    second: Seq<char>,
    third: Seq<char>,
    a: (Seq<char>, Seq<char>),
    b: (Seq<char>, Seq<char>),
    c: (Seq<char>, Seq<char>),
)
    requires
        split_once(trim(first), '=') == Some(a),
        split_once(trim(second), '=') == Some(b),
        split_once(trim(third), '=') == Some(c),
        a.0 != b.0,
        a.0 != c.0,
        b.0 != c.0,
    ensures
        authorization_fields(seq![first, second, third]) == Ok::<_, AuthErrorView>(
            Map::<Seq<char>, Seq<char>>::empty().insert(a.0, a.1).insert(b.0, b.1).insert(c.0, c.1),
        ),
{
    let none = Seq::<Seq<char>>::empty();
    let one = seq![first];
    let two = seq![first, second];
    let three = seq![first, second, third];
    assert(three.drop_last() =~= two && three.last() == third);
    assert(two.drop_last() =~= one && two.last() == second);
    assert(one.drop_last() =~= none && one.last() == first);
    let empty = Map::<Seq<char>, Seq<char>>::empty();
    assert(authorization_fields(none) == Ok::<_, AuthErrorView>(empty));
    assert(authorization_fields(one) == Ok::<_, AuthErrorView>(empty.insert(a.0, a.1)));
    assert(authorization_fields(two) == Ok::<_, AuthErrorView>(
        empty.insert(a.0, a.1).insert(b.0, b.1),
    ));
}

/// An authorization header is read back.
proof fn lemma_sent_authorization(
    credential: Seq<char>,
    signed: Seq<char>,
    signature: Seq<char>,
)
    requires
        credential.len() > 0,
        !is_whitespace(credential.last()),
        !credential.contains(','),
        signed.len() > 0,
        !is_whitespace(signed.last()),
        !signed.contains(','),
        is_sha256_hex(signature),
    ensures
        parse_authorization(sent_authorization(credential, signed, signature)) == Ok::<
            _,
            AuthErrorView,
        >(AuthorizationView { credential, signed_headers: signed, signature }),
{
    let text = sent_authorization(credential, signed, signature);
    let prefix = "AWS4-HMAC-SHA256 "@;
    let (a, b, c) = ("Credential"@, "SignedHeaders"@, "Signature"@);
    reveal_strlit("AWS4-HMAC-SHA256 Credential=");
    reveal_strlit("AWS4-HMAC-SHA256 ");
    reveal_strlit(", SignedHeaders=");
    reveal_strlit(", Signature=");
    reveal_strlit("Credential");
    reveal_strlit("SignedHeaders");
    reveal_strlit("Signature");
    assert("AWS4-HMAC-SHA256 Credential="@ =~= prefix + a + seq!['=']);
    assert(", SignedHeaders="@ =~= seq![',', ' '] + b + seq!['=']);
    assert(", Signature="@ =~= seq![',', ' '] + c + seq!['=']);
    assert(prefix.len() == 17 && a.len() == 10 && b.len() == 13 && c.len() == 9);
    let none = Seq::<char>::empty();
    let first = none + a + seq!['='] + credential;
    let second = seq![' '] + b + seq!['='] + signed;
    let third = seq![' '] + c + seq!['='] + signature;
    assert(is_lower_hex(signature[63]));
    assert(!a.contains('=') && !b.contains('=') && !c.contains('='));
    lemma_authorization_part(none, a, credential);
    lemma_authorization_part(seq![' '], b, signed);
    lemma_authorization_part(seq![' '], c, signature);
    let parts = seq![first, second, third];
    let rest = glued(parts, ',');
    assert(rest == first + seq![','] + (second + seq![','] + third)) by {
        reveal_with_fuel(glued, 4);
        assert(parts.skip(1) =~= seq![second, third]);
        assert(seq![second, third].skip(1) =~= seq![third]);
    }
    assert(text =~= prefix + rest);
    assert(text.take(17) =~= prefix);
    assert(text.skip(17) =~= rest);
    assert(!signature.contains(',')) by {
        if signature.contains(',') {
            let i = choose|i: int| 0 <= i < signature.len() && signature[i] == ',';
            assert(is_lower_hex(signature[i]));
        }
    }
    assert(!(none + a + seq!['=']).contains(','));
    assert(!(seq![' '] + b + seq!['=']).contains(','));
    assert(!(seq![' '] + c + seq!['=']).contains(','));
    lemma_not_within(none + a + seq!['='], credential, ',');
    lemma_not_within(seq![' '] + b + seq!['='], signed, ',');
    lemma_not_within(seq![' '] + c + seq!['='], signature, ',');
    assert(are_without(parts, ','));
    lemma_split_glued(parts, ',');
    lemma_three_fields(first, second, third, (a, credential), (b, signed), (c, signature));
}

/// A credential with its scope is read back.
proof fn lemma_sent_credential(id: Seq<char>, date: Seq<char>, region: Seq<char>)
    requires
        is_scope_part(id),
        is_scope_date(date),
        is_scope_part(region),
    ensures
        parse_scope(sent_credential(id, date, region)) == Some(
            ScopeView {
                access_key_id: id,
                date,
                region,
                service: "s3"@,
                terminal: "aws4_request"@,
            },
        ),
        sent_credential(id, date, region).len() > 0,
        !is_whitespace(sent_credential(id, date, region).last()),
        !sent_credential(id, date, region).contains(','),
{
    let parts = seq![id, date, region, "s3"@, "aws4_request"@];
    let text = glued(parts, '/');
    reveal_strlit("s3");
    reveal_strlit("aws4_request");
    assert("aws4_request"@.len() == 12 && "aws4_request"@[11] == 't');
    assert(!date.contains('/') && !date.contains(',')) by {
        if date.contains('/') {
            let i = choose|i: int| 0 <= i < date.len() && date[i] == '/';
            assert(is_digit(date[i]));
        }
        if date.contains(',') {
            let i = choose|i: int| 0 <= i < date.len() && date[i] == ',';
            assert(is_digit(date[i]));
        }
    }
    assert(!"s3"@.contains('/') && !"aws4_request"@.contains('/'));
    assert(!"s3"@.contains(',') && !"aws4_request"@.contains(','));
    assert(are_without(parts, '/'));
    lemma_split_glued(parts, '/');
    assert(text == id + seq!['/'] + (date + seq!['/'] + (region + seq!['/'] + ("s3"@ + seq!['/']
        + "aws4_request"@)))) by {
        reveal_with_fuel(glued, 6);
        assert(parts.skip(1) =~= seq![date, region, "s3"@, "aws4_request"@]);
        assert(parts.skip(1).skip(1) =~= seq![region, "s3"@, "aws4_request"@]);
        assert(parts.skip(1).skip(1).skip(1) =~= seq!["s3"@, "aws4_request"@]);
        assert(parts.skip(1).skip(1).skip(1).skip(1) =~= seq!["aws4_request"@]);
    }
    assert(!seq!['/'].contains(','));
    let end = "s3"@ + seq!['/'] + "aws4_request"@;
    lemma_not_within("s3"@, seq!['/'], ',');
    lemma_not_within("s3"@ + seq!['/'], "aws4_request"@, ',');
    lemma_not_within(region, seq!['/'], ',');
    lemma_not_within(region + seq!['/'], end, ',');
    let middle = region + seq!['/'] + end;
    lemma_not_within(date, seq!['/'], ',');
    lemma_not_within(date + seq!['/'], middle, ',');
    lemma_not_within(id, seq!['/'], ',');
    lemma_not_within(id + seq!['/'], date + seq!['/'] + middle, ',');
    assert(text.last() == "aws4_request"@[11]);
}

proof fn lemma_signed_names_text(fields: Seq<(Seq<char>, Seq<char>)>)
    requires
        fields.len() > 0,
        forall|i: int| 0 <= i < fields.len() ==> is_field_name((#[trigger] fields[i]).0),
    ensures
        signed_names(fields).len() > 0,
        !is_whitespace(signed_names(fields).last()),
        !signed_names(fields).contains(','),
    decreases fields.len(),
{
    let text = signed_names(fields);
    let name = fields[0].0;
    assert(keys(fields)[0] == name);
    assert(is_field_name(name));
    assert(!name.contains(',')) by {
        if name.contains(',') {
            let i = choose|i: int| 0 <= i < name.len() && name[i] == ',';
            assert(name[i] == ',');
        }
    }
    assert(name.last() == name[name.len() - 1]);
    if fields.len() > 1 {
        let rest = fields.skip(1);
        assert(keys(fields).skip(1) =~= keys(rest));
        assert forall|i: int| 0 <= i < rest.len() implies is_field_name((#[trigger] rest[i]).0) by {
            assert(rest[i] == fields[i + 1]);
        }
        lemma_signed_names_text(rest);
        assert(!seq![';'].contains(','));
        lemma_not_within(name, seq![';'], ',');
        lemma_not_within(name + seq![';'], signed_names(rest), ',');
        assert(text == name + seq![';'] + signed_names(rest));
        assert(text.last() == signed_names(rest).last());
    }
}

/// A request that a client signs is authenticated as the client's access key. The signature is the
/// one that the client computes over the lines of its request, with a key that it derives from its
/// secret; the chunks of the body continue from that signature, under that key.
pub proof fn law_signed_requests_are_authenticated(
    state: AuthStateView,
    method: Seq<char>,
    uri: UriView,
    headers: Seq<(Seq<char>, Seq<u8>)>,
    parameters: Seq<(Seq<char>, Seq<char>)>,
    fields: Seq<(Seq<char>, Seq<char>)>,
    payload: Seq<char>,
    credential: CredentialView,
    id: Seq<char>,
    date: Seq<char>,
    amz_date: Seq<char>,
    now: (int, int),
)
    requires
        tags_have_their_size(),
        sent_query(uri.query) == sent_parameters(parameters),
        are_in_order(parameters),
        are_signed_fields(headers, fields),
        is_payload_hash(headers, payload),
        is_scope_part(id),
        is_scope_part(state.region),
        is_scope_date(date),
        find_credential(state.credentials, id) == Some(credential),
        credential.active,
        match credential.session_token {
            None => true,
            Some(token) => first_text(headers, "x-amz-security-token"@) == Some(Some(token)),
        },
        first_text(headers, "x-amz-date"@) == Some(Some(amz_date)),
        starts_with(amz_date, date),
        amz_time(amz_date) is Ok,
        skew_nanos(amz_time(amz_date)->Ok_0, now) <= state.max_skew_seconds * 1_000_000_000,
        values(headers, "authorization"@).len() == 1,
        field_text(values(headers, "authorization"@)[0]) == Some(
            sent_authorization(
                sent_credential(id, date, state.region),
                signed_names(fields),
                sent_signature(
                    credential.secret_key,
                    amz_date,
                    date,
                    state.region,
                    signed_text(method, uri.path, parameters, fields, payload),
                ),
            ),
        ),
    ensures
        ({
            let text = signed_text(method, uri.path, parameters, fields, payload);
            let secret = credential.secret_key;
            let result = authentication(state, method, uri, headers, now);
            &&& result is Ok
            &&& result->Ok_0.mode == AuthMode::HeaderSigV4
            &&& result->Ok_0.access_key_id == Some(credential.access_key_id)
            &&& result->Ok_0.streaming_signing == Some(
                StreamingView {
                    signing_key: derived_key(secret, date, state.region),
                    seed_signature: sent_signature(secret, amz_date, date, state.region, text),
                    amz_date,
                    credential_scope: signing_scope(date, state.region),
                },
            )
        }),
{
    let text = signed_text(method, uri.path, parameters, fields, payload);
    let secret = credential.secret_key;
    let signature = sent_signature(secret, amz_date, date, state.region, text);
    let sent = sent_credential(id, date, state.region);
    lemma_sent_signature(secret, amz_date, date, state.region, text);
    lemma_signature_text(
        derived_key(secret, date, state.region),
        lines(
            seq![
                "AWS4-HMAC-SHA256"@,
                amz_date,
                signing_scope(date, state.region),
                text_hash(text),
            ],
        ),
    );
    lemma_sent_credential(id, date, state.region);
    assert(keys(fields).len() > 0);
    lemma_signed_names_text(fields);
    lemma_sent_authorization(sent, signed_names(fields), signature);
    law_signed_texts_are_canonical(method, uri, headers, parameters, fields, payload);
}

// ---------------------------------------------------------------------------------------------
// Presigned URLs
// ---------------------------------------------------------------------------------------------
/// The parameters of a presigned URL: those that are signed, and the signature.
pub open spec fn with_signature(
    parameters: Seq<(Seq<char>, Seq<char>)>,
    signature: Seq<char>,
) -> Seq<(Seq<char>, Seq<char>)> {
    parameters.push(("X-Amz-Signature"@, signature))
}

/// Whether parameters are those of a presigned URL, without its signature.
pub open spec fn are_presigned(
    parameters: Seq<(Seq<char>, Seq<char>)>,
    credential: Seq<char>,
    amz_date: Seq<char>,
    expires: nat,
    signed: Seq<char>,
) -> bool {
    let sent = mapping(parameters);
    &&& are_in_order(parameters)
    &&& keys(parameters).no_duplicates()
    &&& !keys(parameters).contains("X-Amz-Signature"@)
    &&& keys(parameters).contains("X-Amz-Algorithm"@) && sent["X-Amz-Algorithm"@]
        == "AWS4-HMAC-SHA256"@
    &&& keys(parameters).contains("X-Amz-Credential"@) && sent["X-Amz-Credential"@] == credential
    &&& keys(parameters).contains("X-Amz-Date"@) && sent["X-Amz-Date"@] == amz_date
    &&& keys(parameters).contains("X-Amz-Expires"@) && sent["X-Amz-Expires"@] == decimal(expires)
    &&& keys(parameters).contains("X-Amz-SignedHeaders"@) && sent["X-Amz-SignedHeaders"@] == signed
}

proof fn lemma_sent_fields(parameters: Seq<(Seq<char>, Seq<char>)>)
    requires
        keys(parameters).no_duplicates(),
    ensures
        fields_of(sent_pairs(parameters)) == Ok::<_, AuthErrorView>(mapping(parameters)),
    decreases parameters.len(),
{
    if parameters.len() > 0 {
        let rest = parameters.drop_last();
        let last = parameters.last();
        assert(keys(rest) =~= keys(parameters).drop_last());
        lemma_sent_fields(rest);
        lemma_sent_pair(last);
        lemma_mapping(rest);
        assert(!mapping(rest).dom().contains(last.0)) by {
            if keys(rest).contains(last.0) {
                let i = choose|i: int| 0 <= i < rest.len() && keys(rest)[i] == last.0;
                assert(keys(parameters)[i] == keys(parameters)[parameters.len() - 1]);
            }
        }
        assert(sent_pairs(parameters).drop_last() =~= sent_pairs(rest));
    }
}

/// The canonical query of a presigned URL holds all parameters but the signature.
proof fn lemma_presigned_query(
    parameters: Seq<(Seq<char>, Seq<char>)>,
    signature: Seq<char>,
)
    requires
        are_in_order(parameters),
        !keys(parameters).contains("X-Amz-Signature"@),
    ensures
        canonical_query_text(
            sent_parameters(with_signature(parameters, signature)),
            CanonicalQueryMode::ExcludePresignedSignature,
        ) == Ok::<_, AuthErrorView>(sent_parameters(parameters)),
{
    let mode = CanonicalQueryMode::ExcludePresignedSignature;
    let all = with_signature(parameters, signature);
    lemma_query_parts(all);
    lemma_sent_parameters(parameters, mode);
    lemma_written_in_order(parameters);
    lemma_sent_pair(all.last());
    assert(sent_pairs(all).drop_last() =~= sent_pairs(parameters));
    assert(sent_pairs(all).last() == sent_pair(all.last()).0 + seq!['='] + sent_pair(
        all.last(),
    ).1);
}

/// The text that a client signs for a presigned URL is the canonical form of the request.
proof fn lemma_presigned_text(
    method: Seq<char>,
    uri: UriView,
    headers: Seq<(Seq<char>, Seq<u8>)>,
    parameters: Seq<(Seq<char>, Seq<char>)>,
    fields: Seq<(Seq<char>, Seq<char>)>,
    signature: Seq<char>,
)
    requires
        uri.query == Some(sent_parameters(with_signature(parameters, signature))),
        are_in_order(parameters),
        !keys(parameters).contains("X-Amz-Signature"@),
        are_signed_fields(headers, fields),
    ensures
        canonical_request_text(
            method,
            uri,
            headers,
            signed_names(fields),
            CanonicalQueryMode::ExcludePresignedSignature,
            PayloadHashSource::UnsignedPayload,
        ) == Ok::<_, AuthErrorView>(
            signed_text(method, uri.path, parameters, fields, "UNSIGNED-PAYLOAD"@),
        ),
{
    let payload = "UNSIGNED-PAYLOAD"@;
    lemma_presigned_query(parameters, signature);
    lemma_names_accepted(headers, fields);
    lemma_field_values(headers, fields);
    lemma_escaped(encode_utf8(uri.path), true);
    let signed = signed_names(fields);
    let after = seq![Seq::<char>::empty(), signed, payload];
    lemma_field_lines(headers, fields, after);
    lemma_text_of_lines(
        method,
        canonical_path(uri.path),
        sent_parameters(parameters),
        field_lines(fields),
        header_lines(headers, keys(fields)),
        signed,
        payload,
    );
}

/// The names of a presigned URL's parameters differ from that of its signature.
proof fn lemma_presigned_names()
    ensures
        "X-Amz-Algorithm"@ != "X-Amz-Signature"@,
        "X-Amz-Credential"@ != "X-Amz-Signature"@,
        "X-Amz-Date"@ != "X-Amz-Signature"@,
        "X-Amz-Expires"@ != "X-Amz-Signature"@,
        "X-Amz-SignedHeaders"@ != "X-Amz-Signature"@,
        "X-Amz-Security-Token"@ != "X-Amz-Signature"@,
{
    reveal_strlit("X-Amz-Signature");
    reveal_strlit("X-Amz-Algorithm");
    reveal_strlit("X-Amz-Credential");
    reveal_strlit("X-Amz-Date");
    reveal_strlit("X-Amz-Expires");
    reveal_strlit("X-Amz-SignedHeaders");
    reveal_strlit("X-Amz-Security-Token");
    assert("X-Amz-Signature"@.len() == 15 && "X-Amz-Signature"@[6] == 'S');
    assert("X-Amz-Algorithm"@[6] == 'A');
    assert("X-Amz-Credential"@.len() == 16 && "X-Amz-Date"@.len() == 10);
    assert("X-Amz-Expires"@.len() == 13 && "X-Amz-SignedHeaders"@.len() == 19);
    assert("X-Amz-Security-Token"@.len() == 20);
}

proof fn lemma_is_presigned(parameters: Seq<(Seq<char>, Seq<char>)>, signature: Seq<char>)
    requires
        keys(parameters).contains("X-Amz-Algorithm"@),
    ensures
        is_presigned(sent_parameters(with_signature(parameters, signature))),
{
    let all = with_signature(parameters, signature);
    lemma_query_parts(all);
    let query = sent_parameters(all);
    let i = choose|i: int|
        0 <= i < keys(parameters).len() && keys(parameters)[i] == "X-Amz-Algorithm"@;
    assert(all[i].0 == "X-Amz-Algorithm"@);
    lemma_sent_pair(all[i]);
    assert(split(query, '&')[i] == sent_pair(all[i]).0 + seq!['='] + sent_pair(all[i]).1);
}

/// The fields of a presigned URL are read back.
proof fn lemma_presigned_fields(parameters: Seq<(Seq<char>, Seq<char>)>, signature: Seq<char>)
    requires
        keys(parameters).no_duplicates(),
        !keys(parameters).contains("X-Amz-Signature"@),
    ensures
        ({
            let all = with_signature(parameters, signature);
            let read = fields_of(split(sent_parameters(all), '&'));
            &&& read == Ok::<_, AuthErrorView>(
                mapping(parameters).insert("X-Amz-Signature"@, signature),
            )
        }),
        forall|k: Seq<char>| #[trigger]
            mapping(parameters).dom().contains(k) <==> keys(parameters).contains(k),
{
    let all = with_signature(parameters, signature);
    lemma_query_parts(all);
    assert(keys(all) =~= keys(parameters).push("X-Amz-Signature"@));
    assert(keys(all).no_duplicates());
    lemma_sent_fields(all);
    assert(all.drop_last() =~= parameters);
    lemma_mapping(parameters);
}

/// A URL that a client signs is authenticated as the client's access key while it is valid. The
/// signature is the one that the client computes over the lines of its request, with a payload that
/// is not signed and without the signature itself.
pub proof fn law_presigned_urls_are_authenticated(
    state: AuthStateView,
    method: Seq<char>,
    uri: UriView,
    headers: Seq<(Seq<char>, Seq<u8>)>,
    parameters: Seq<(Seq<char>, Seq<char>)>,
    fields: Seq<(Seq<char>, Seq<char>)>,
    credential: CredentialView,
    id: Seq<char>,
    date: Seq<char>,
    amz_date: Seq<char>,
    expires: nat,
    now: (int, int),
)
    requires
        tags_have_their_size(),
        !has_field(headers, "authorization"@),
        are_presigned(
            parameters,
            sent_credential(id, date, state.region),
            amz_date,
            expires,
            signed_names(fields),
        ),
        are_signed_fields(headers, fields),
        is_scope_part(id),
        is_scope_part(state.region),
        is_scope_date(date),
        find_credential(state.credentials, id) == Some(credential),
        credential.active,
        match credential.session_token {
            None => true,
            Some(token) => keys(parameters).contains("X-Amz-Security-Token"@) && mapping(
                parameters,
            )["X-Amz-Security-Token"@] == token,
        },
        starts_with(amz_date, date),
        amz_time(amz_date) is Ok,
        1 <= expires <= 604_800,
        !is_after(amz_time(amz_date)->Ok_0, plus_seconds(now, state.max_skew_seconds as int)),
        !is_after(now, plus_seconds(amz_time(amz_date)->Ok_0, expires as int)),
        uri.query == Some(
            sent_parameters(
                with_signature(
                    parameters,
                    sent_signature(
                        credential.secret_key,
                        amz_date,
                        date,
                        state.region,
                        signed_text(method, uri.path, parameters, fields, "UNSIGNED-PAYLOAD"@),
                    ),
                ),
            ),
        ),
    ensures
        ({
            let result = authentication(state, method, uri, headers, now);
            &&& result is Ok
            &&& result->Ok_0.mode == AuthMode::PresignedUrl
            &&& result->Ok_0.access_key_id == Some(credential.access_key_id)
        }),
{
    let region = state.region;
    let secret = credential.secret_key;
    let text = signed_text(method, uri.path, parameters, fields, "UNSIGNED-PAYLOAD"@);
    let signature = sent_signature(secret, amz_date, date, region, text);
    lemma_sent_signature(secret, amz_date, date, region, text);
    lemma_signature_text(
        derived_key(secret, date, region),
        lines(
            seq!["AWS4-HMAC-SHA256"@, amz_date, signing_scope(date, region), text_hash(text)],
        ),
    );
    lemma_sent_credential(id, date, region);
    lemma_presigned_fields(parameters, signature);
    lemma_presigned_names();
    lemma_is_presigned(parameters, signature);
    lemma_presigned_text(method, uri, headers, parameters, fields, signature);
    lemma_decimal(expires);
    assert(decimal(expires)[0] != '+');
    let read = mapping(parameters).insert("X-Amz-Signature"@, signature);
    let scope = ScopeView {
        access_key_id: id,
        date,
        region,
        service: "s3"@,
        terminal: "aws4_request"@,
    };
    assert(presigned_credential(state, read) == Ok::<_, AuthErrorView>((scope, credential)));
    assert(presigned_time_error(state, read, scope, credential, now) is None);
    assert(presigned_signature(read) == Ok::<_, AuthErrorView>((signed_names(fields), signature)));
}

} // verus!
