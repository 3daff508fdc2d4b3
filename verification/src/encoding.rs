//! Text encodings: percent-encoding, base64 and identifiers in UUID form.
use crate::text::{digit_value, is_lower_hex, utf8_text};
use base64::Engine as _;
use vstd::prelude::*;
use vstd::utf8::{decode_utf8, encode_utf8, valid_utf8};

verus! {

/// The bytes that percent-encoded `bytes` stand for: `%` and two hexadecimal digits stand for one
/// byte, and everything else, a `%` without two digits included, stands for itself.
pub open spec fn percent_decoded(bytes: Seq<u8>) -> Seq<u8>
    decreases bytes.len(),
{
    if bytes.len() == 0 {
        Seq::empty()
    } else if is_escape(bytes) {
        seq![(digit_value(bytes[1] as char) * 16 + digit_value(bytes[2] as char)) as u8]
            + percent_decoded(bytes.skip(3))
    } else {
        seq![bytes[0]] + percent_decoded(bytes.skip(1))
    }
}

/// Whether `bytes` begin with `%` and two hexadecimal digits.
pub open spec fn is_escape(bytes: Seq<u8>) -> bool {
    bytes.len() >= 3 && bytes[0] == 0x25 && digit_value(bytes[1] as char) < 16 && digit_value(
        bytes[2] as char,
    ) < 16
}

/// The text that percent-encoded text stands for, where the decoded bytes are valid UTF-8.
pub open spec fn percent_decoded_text(s: Seq<char>) -> Option<Seq<char>> {
    let bytes = percent_decoded(encode_utf8(s));
    if valid_utf8(bytes) {
        Some(decode_utf8(bytes))
    } else {
        None
    }
}

/// Calls `percent_encoding::percent_decode_str` and collects the decoded bytes.
#[verifier::external_body]
pub(crate) fn percent_decode_bytes(s: &str) -> (bytes: Vec<u8>)
    ensures
        bytes@ == percent_decoded(encode_utf8(s@)),
{
    percent_encoding::percent_decode_str(s).collect()
}

/// Percent-decodes `s` to text.
pub fn percent_decode_text(s: &str) -> (result: Option<String>)
    ensures
        match result {
            Some(text) => percent_decoded_text(s@) == Some(text@),
            None => percent_decoded_text(s@) is None,
        },
{
    utf8_text(percent_decode_bytes(s))
}

/// The standard padded base64 form of `bytes`.
pub uninterp spec fn base64_text(bytes: Seq<u8>) -> Seq<char>;

/// The bytes that `text` stands for in standard padded base64.
pub uninterp spec fn base64_bytes(text: Seq<char>) -> Option<Seq<u8>>;

/// Calls `encode` of base64's `STANDARD` engine. Decoding the result gives the bytes back.
#[verifier::external_body]
pub(crate) fn base64_encode(bytes: &[u8]) -> (text: String)
    ensures
        text@ == base64_text(bytes@),
        base64_bytes(text@) == Some(bytes@),
{
    base64::engine::general_purpose::STANDARD.encode(bytes)
}

/// Calls `decode` of base64's `STANDARD` engine. It accepts canonical text alone, with its padding
/// and without stray bits in the last character: encoding the bytes gives the text back.
#[verifier::external_body]
pub(crate) fn base64_decode(text: &str) -> (result: Option<Vec<u8>>)
    ensures
        match result {
            Some(bytes) => base64_bytes(text@) == Some(bytes@) && text@ == base64_text(bytes@),
            None => base64_bytes(text@) is None,
        },
{
    base64::engine::general_purpose::STANDARD.decode(text).ok()
}

/// Whether `s` is a UUID in its canonical form: thirty-two lowercase hexadecimal digits in groups
/// of eight, four, four, four and twelve, with hyphens between the groups.
pub open spec fn is_canonical_uuid(s: Seq<char>) -> bool {
    &&& s.len() == 36
    &&& forall|i: int|
        0 <= i < 36 ==> if i == 8 || i == 13 || i == 18 || i == 23 {
            #[trigger] s[i] == '-'
        } else {
            is_lower_hex(s[i])
        }
}

/// The canonical form of the UUID that `text` writes in any of the accepted forms.
pub uninterp spec fn uuid_text(text: Seq<char>) -> Option<Seq<char>>;

/// Calls `Uuid::parse_str` and writes the result with its `Display` form, which is canonical. A
/// canonical text is accepted and comes back unchanged.
#[verifier::external_body]
pub(crate) fn parse_uuid(text: &str) -> (result: Option<String>)
    ensures
        match result {
            Some(canonical) => uuid_text(text@) == Some(canonical@) && is_canonical_uuid(canonical@),
            None => uuid_text(text@) is None,
        },
        is_canonical_uuid(text@) ==> result is Some && result->0@ == text@,
{
    uuid::Uuid::parse_str(text).ok().map(|id| id.to_string())
}

/// Calls `Uuid::new_v4` and writes the result with its `Display` form, which is canonical. Which
/// UUID it is depends on chance.
#[verifier::external_body]
pub(crate) fn random_uuid() -> (text: String)
    ensures
        is_canonical_uuid(text@),
{
    uuid::Uuid::new_v4().to_string()
}

/// Calls `ConstantTimeEq::ct_eq` of the `subtle` crate on two slices: whether they are equal.
#[verifier::external_body]
pub(crate) fn constant_time_same(a: &[u8], b: &[u8]) -> (result: bool)
    ensures
        result == (a@ == b@),
{
    subtle::ConstantTimeEq::ct_eq(a, b).into()
}

} // verus!
