//! The digest of a text: SHA-256 over its UTF-8 bytes, written as lowercase
//! hexadecimal.

use sha2::{Digest, Sha256};
use vstd::prelude::*;
use vstd::utf8::encode_utf8;

verus! {

/// Number of hexadecimal characters in a digest.
pub const DIGEST_CHARS: usize = 64;

/// The SHA-256 digest of `data`, as computed by `sha2::Sha256`.
pub uninterp spec fn sha256(data: Seq<u8>) -> [u8; 32];

/// The sixteen lowercase hexadecimal digits, in order of value.
pub open spec fn hex_digits() -> Seq<char> {
    seq!['0', '1', '2', '3', '4', '5', '6', '7', '8', '9', 'a', 'b', 'c', 'd', 'e', 'f']
}

/// The lowercase hexadecimal spelling of `bytes`: two digits per byte, the
/// high nibble first.
pub open spec fn hex_text(bytes: Seq<u8>) -> Seq<char> {
    Seq::new(
        2 * bytes.len(),
        |i: int|
            if i % 2 == 0 {
                hex_digits()[bytes[i / 2] as int / 16]
            } else {
                hex_digits()[bytes[i / 2] as int % 16]
            },
    )
}

/// The digest of a text: the hexadecimal spelling of the SHA-256 digest of
/// its UTF-8 encoding.
pub open spec fn text_digest(text: Seq<char>) -> Seq<char> {
    hex_text(sha256(encode_utf8(text))@)
}

/// Every digest is [`DIGEST_CHARS`] characters long.
pub proof fn lemma_digest_len(text: Seq<char>)
    ensures
        text_digest(text).len() == DIGEST_CHARS,
{
    broadcast use vstd::array::array_len_matches_n;

    assert(sha256(encode_utf8(text))@.len() == 32);
}

/// Calls `sha2::Sha256::digest` (the `Digest::digest` one-shot of the
/// `digest` crate), whose output for `Sha256` is an array of 32 bytes.
/// Trusted: the result is a function of the input bytes alone, named
/// [`sha256`].
#[verifier::external_body]
fn sha256_digest(data: &[u8]) -> (out: [u8; 32])
    ensures
        out == sha256(data@),
{
    Sha256::digest(data).into()
}

/// Calls `hex::encode`. Trusted: the result spells each input byte as two
/// lowercase hexadecimal digits, high nibble first, as `hex` documents.
#[verifier::external_body]
fn hex_encode(bytes: &[u8]) -> (out: String)
    ensures
        out@ == hex_text(bytes@),
{
    hex::encode(bytes)
}

/// Computes the digest of `text`.
pub fn digest_of_text(text: &str) -> (out: String)
    ensures
        out@ == text_digest(text@),
        out@.len() == DIGEST_CHARS,
{
    let raw = sha256_digest(text.as_bytes());
    proof {
        lemma_digest_len(text@);
    }
    hex_encode(raw.as_slice())
}

} // verus!
