//! SHA-256 digests written as lowercase hexadecimal text.

use vstd::prelude::*;
use vstd::utf8::encode_utf8;

verus! {

/// The SHA-256 digest of `data`, as the `sha2` crate computes it.
pub uninterp spec fn sha256(data: Seq<u8>) -> Seq<u8>;

/// Feeds `data` to a fresh `sha2::Sha256` and finalizes it. The digest is a
/// function of the bytes alone and is 32 bytes long.
#[verifier::external_body]
pub(crate) fn sha256_digest(data: &[u8]) -> (digest: Vec<u8>)
    ensures
        digest@ == sha256(data@),
        digest@.len() == 32,
{
    let mut hasher = <sha2::Sha256 as sha2::Digest>::new();
    sha2::Digest::update(&mut hasher, data);
    sha2::Digest::finalize(hasher).to_vec()
}

/// The lowercase hexadecimal digit of a value below sixteen.
pub open spec fn hex_digit(nibble: int) -> char {
    if nibble < 10 {
        (('0' as int) + nibble) as char
    } else {
        (('a' as int) + nibble - 10) as char
    }
}

/// Two lowercase hexadecimal digits per byte, high digit first.
pub open spec fn hex_lower(bytes: Seq<u8>) -> Seq<char> {
    Seq::new(
        2 * bytes.len(),
        |i: int|
            if i % 2 == 0 {
                hex_digit(bytes[i / 2] as int / 16)
            } else {
                hex_digit(bytes[i / 2] as int % 16)
            },
    )
}

/// Calls `hex::encode`, which writes every byte as two digits taken from
/// `0123456789abcdef`, the high four bits first.
#[verifier::external_body]
pub(crate) fn hex_encode(bytes: &[u8]) -> (text: String)
    ensures
        text@ == hex_lower(bytes@),
{
    hex::encode(bytes)
}

/// The hexadecimal SHA-256 digest of a byte string.
pub open spec fn digest_of_bytes(data: Seq<u8>) -> Seq<char> {
    hex_lower(sha256(data))
}

/// The hexadecimal SHA-256 digest of a text's UTF-8 encoding.
pub open spec fn digest_of_text(text: Seq<char>) -> Seq<char> {
    digest_of_bytes(encode_utf8(text))
}

pub struct Hasher;

impl Hasher {
    pub fn hash_string(input: &str) -> (digest: String)
        ensures
            digest@ == digest_of_text(input@),
            digest@.len() == 64,
    {
        Self::hash_bytes(input.as_bytes())
    }

    pub fn hash_bytes(input: &[u8]) -> (digest: String)
        ensures
            digest@ == digest_of_bytes(input@),
            digest@.len() == 64,
    {
        let raw = sha256_digest(input);
        hex_encode(raw.as_slice())
    }

    pub fn verify_hash(input: &str, expected_hash: &str) -> (matches: bool)
        ensures
            matches == (digest_of_text(input@) == expected_hash@),
    {
        let actual = Self::hash_string(input);
        let expected = expected_hash.to_owned();
        actual == expected
    }
}

} // verus!
