//! SHA-256 digests rendered as lowercase hex.

use vstd::prelude::*;
use vstd::string::StringSliceAdditionalSpecFns;

verus! {

/// What `sha2::Sha256::digest` gives for a byte string.
pub uninterp spec fn sha256(data: Seq<u8>) -> Seq<u8>;

/// Calls `sha2::Sha256::digest`. Claims that the result is [`sha256`] of
/// the input and is 32 bytes long, the digest size of SHA-256.
#[verifier::external_body]
pub(crate) fn sha256_digest(data: &[u8]) -> (r: Vec<u8>)
    ensures
        r@ == sha256(data@),
        r@.len() == 32,
{
    <sha2::Sha256 as sha2::Digest>::digest(data).to_vec()
}

/// Lowercase hex digit of a value below 16.
pub open spec fn hex_digit(n: int) -> char {
    if n < 10 {
        (48 + n) as char
    } else {
        (87 + n) as char
    }
}

/// Two lowercase hex digits per byte, high nibble first.
pub open spec fn hex_of(b: Seq<u8>) -> Seq<char>
    decreases b.len(),
{
    if b.len() == 0 {
        seq![]
    } else {
        hex_of(b.drop_last()) + seq![hex_digit((b.last() / 16) as int), hex_digit((b.last() % 16) as int)]
    }
}

/// Calls `hex::encode`, which writes each byte as two lowercase hex
/// digits, high nibble first (its source: a `0123456789abcdef` table
/// indexed by `byte >> 4`, then by `byte & 0x0F`).
#[verifier::external_body]
pub(crate) fn hex_encode(data: &[u8]) -> (r: String)
    ensures
        r@ == hex_of(data@),
{
    hex::encode(data)
}

pub proof fn lemma_hex_len(b: Seq<u8>)
    ensures
        hex_of(b).len() == 2 * b.len(),
    decreases b.len(),
{
    if b.len() > 0 {
        lemma_hex_len(b.drop_last());
    }
}

/// SHA-256 of the UTF-8 bytes of `s`, as 64 lowercase hex digits.
pub fn hash_hex(s: &str) -> (r: String)
    ensures
        r@ == hex_of(sha256(s.spec_bytes())),
        r@.len() == 64,
{
    let d = sha256_digest(s.as_bytes());
    proof {
        lemma_hex_len(d@);
    }
    hex_encode(d.as_slice())
}

} // verus!
