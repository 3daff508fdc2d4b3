//! What clients that sign their requests compute, by the definition of AWS Signature Version 4.
use crate::hashing::{hmac_sha256_tag, sha256_digest};
use crate::text::hex_text;
use vstd::prelude::*;
use vstd::utf8::encode_utf8;

verus! {

/// Texts on lines of their own, one below the other.
pub open spec fn lines(parts: Seq<Seq<char>>) -> Seq<char>
    decreases parts.len(),
{
    if parts.len() == 0 {
        Seq::empty()
    } else if parts.len() == 1 {
        parts[0]
    } else {
        parts[0] + seq!['\n'] + lines(parts.skip(1))
    }
}

/// The hexadecimal SHA-256 digest of bytes.
pub open spec fn bytes_hash(bytes: Seq<u8>) -> Seq<char> {
    hex_text(sha256_digest(bytes))
}

/// The hexadecimal SHA-256 digest of a text.
pub open spec fn text_hash(text: Seq<char>) -> Seq<char> {
    bytes_hash(encode_utf8(text))
}

/// The HMAC-SHA-256 of a text under a key.
pub open spec fn text_tag(key: Seq<u8>, text: Seq<char>) -> Seq<u8> {
    hmac_sha256_tag(key, encode_utf8(text))
}

/// Whether the tags of HMAC-SHA-256 have their size, which is that of a SHA-256 digest. It is known of
/// every tag that is computed.
pub open spec fn tags_have_their_size() -> bool {
    forall|key: Seq<u8>, data: Seq<u8>| #[trigger] hmac_sha256_tag(key, data).len() == 32
}

/// Four lines, written out.
pub proof fn lemma_four_lines(a: Seq<char>, b: Seq<char>, c: Seq<char>, d: Seq<char>)
    ensures
        lines(seq![a, b, c, d]) == a + seq!['\n'] + (b + seq!['\n'] + (c + seq!['\n'] + d)),
{
    reveal_with_fuel(lines, 5);
    assert(seq![a, b, c, d].skip(1) =~= seq![b, c, d]);
    assert(seq![b, c, d].skip(1) =~= seq![c, d]);
    assert(seq![c, d].skip(1) =~= seq![d]);
}

/// Five lines, written out.
pub proof fn lemma_five_lines(
    a: Seq<char>,
    b: Seq<char>,
    c: Seq<char>,
    d: Seq<char>,
    e: Seq<char>,
)
    ensures
        lines(seq![a, b, c, d, e]) == a + seq!['\n'] + (b + seq!['\n'] + (c + seq!['\n'] + (d
            + seq!['\n'] + e))),
{
    lemma_four_lines(b, c, d, e);
    assert(seq![a, b, c, d, e].skip(1) =~= seq![b, c, d, e]);
}

/// Six lines, written out.
pub proof fn lemma_six_lines(
    a: Seq<char>,
    b: Seq<char>,
    c: Seq<char>,
    d: Seq<char>,
    e: Seq<char>,
    f: Seq<char>,
)
    ensures
        lines(seq![a, b, c, d, e, f]) == a + seq!['\n'] + (b + seq!['\n'] + (c + seq!['\n'] + (d
            + seq!['\n'] + (e + seq!['\n'] + f)))),
{
    lemma_five_lines(b, c, d, e, f);
    assert(seq![a, b, c, d, e, f].skip(1) =~= seq![b, c, d, e, f]);
}

} // verus!
