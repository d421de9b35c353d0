//! The fingerprint of a file's content: its SHA-256 digest in lowercase
//! hexadecimal text.

use crate::encoding::{hex_digit, hex_encode, hex_text};
use sha2::{Digest, Sha256};
use vstd::prelude::*;

verus! {

/// The SHA-256 digest of `data`, as the `sha2` crate computes it.
pub uninterp spec fn sha256(data: Seq<u8>) -> Seq<u8>;

/// Calls `Sha256::digest` of the `sha2` crate, which hashes `data` in one go.
/// The result is the SHA-256 digest of `data`, which is 32 bytes long; the
/// digest itself is not spelled out here.
#[verifier::external_body]
pub(crate) fn sha256_digest(data: &[u8]) -> (digest: Vec<u8>)
    ensures
        digest@ == sha256(data@),
        digest@.len() == 32,
{
    Sha256::digest(data).to_vec()
}

/// The fingerprint of `data`: the lowercase hexadecimal text of its SHA-256
/// digest.
pub open spec fn fingerprint(data: Seq<u8>) -> Seq<char> {
    hex_text(sha256(data))
}

/// Whether `c` is one of `0`..`9` or `a`..`f`.
pub open spec fn is_lower_hex_digit(c: char) -> bool {
    '0' <= c <= '9' || 'a' <= c <= 'f'
}

/// Whether `text` has the shape of a fingerprint: 64 lowercase hexadecimal
/// digits.
pub open spec fn is_fingerprint_text(text: Seq<char>) -> bool {
    &&& text.len() == 64
    &&& forall|i: int| 0 <= i < text.len() ==> is_lower_hex_digit(#[trigger] text[i])
}

/// The text written for bytes holds lowercase digits only, two for each byte.
pub proof fn lemma_hex_text_lowercase(bytes: Seq<u8>)
    ensures
        hex_text(bytes).len() == 2 * bytes.len(),
        forall|i: int|
            0 <= i < hex_text(bytes).len() ==> is_lower_hex_digit(#[trigger] hex_text(bytes)[i]),
{
    assert forall|i: int| 0 <= i < hex_text(bytes).len() implies is_lower_hex_digit(
        #[trigger] hex_text(bytes)[i],
    ) by {
        let half: int = if i % 2 == 0 {
            bytes[i / 2] as int / 16
        } else {
            bytes[i / 2] as int % 16
        };
        assert(hex_text(bytes)[i] == hex_digit(half));
        assert(0 <= half < 16);
    }
}

/// Computes the fingerprint of `data`. Equal content always gives equal text,
/// whoever asks for it.
pub fn compute_checksum(data: &[u8]) -> (checksum: String)
    ensures
        checksum@ == fingerprint(data@),
        is_fingerprint_text(checksum@),
{
    let digest = sha256_digest(data);
    proof {
        lemma_hex_text_lowercase(digest@);
    }
    hex_encode(digest.as_slice())
}

} // verus!
