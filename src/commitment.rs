//! The commitment scheme: a voter's commitment is the SHA-256 digest of
//! the little-endian bytes of the secret. It is published in hex, and the
//! proof system takes the digest itself as its public input.
use sha2::Digest;
use vstd::prelude::*;

verus! {

/// The SHA-256 digest of a byte sequence.
pub uninterp spec fn sha256_of(data: Seq<u8>) -> Seq<u8>;

/// Relies on `sha2::Sha256::digest`: the SHA-256 digest of `data`, which
/// has the algorithm's fixed output size of 32 bytes.
#[verifier::external_body]
fn sha256(data: &[u8]) -> (r: Vec<u8>)
    ensures
        r@ == sha256_of(data@),
        r@.len() == 32,
{
    sha2::Sha256::digest(data).to_vec()
}

/// The lower-case hexadecimal digits, by value.
pub open spec fn hex_digits() -> Seq<char> {
    seq!['0', '1', '2', '3', '4', '5', '6', '7', '8', '9', 'a', 'b', 'c', 'd', 'e', 'f']
}

/// Two lower-case hex digits per byte, the high nibble first.
pub open spec fn hex_of(bytes: Seq<u8>) -> Seq<char> {
    Seq::new(
        2 * bytes.len(),
        |i: int|
            if i % 2 == 0 {
                hex_digits()[(bytes[i / 2] / 16) as int]
            } else {
                hex_digits()[(bytes[i / 2] % 16) as int]
            },
    )
}

/// Relies on `hex::encode`: each byte becomes two lower-case hex digits,
/// the high nibble first, in the order of the bytes.
#[verifier::external_body]
fn to_hex(bytes: &[u8]) -> (r: String)
    ensures
        r@ == hex_of(bytes@),
{
    hex::encode(bytes)
}

/// The eight bytes of `x`, least significant first.
pub open spec fn le_bytes(x: u64) -> Seq<u8> {
    seq![
        (x & 0xff) as u8,
        ((x >> 8u64) & 0xff) as u8,
        ((x >> 16u64) & 0xff) as u8,
        ((x >> 24u64) & 0xff) as u8,
        ((x >> 32u64) & 0xff) as u8,
        ((x >> 40u64) & 0xff) as u8,
        ((x >> 48u64) & 0xff) as u8,
        ((x >> 56u64) & 0xff) as u8,
    ]
}

/// The digest that a secret commits to.
pub open spec fn commitment_digest(secret: u64) -> Seq<u8> {
    sha256_of(le_bytes(secret))
}

/// The published commitment of a secret: its digest in hex.
pub open spec fn commitment_hex(secret: u64) -> Seq<char> {
    hex_of(commitment_digest(secret))
}

/// The little-endian bytes of `x`.
pub fn u64_to_le_bytes(x: u64) -> (r: Vec<u8>)
    ensures
        r@ == le_bytes(x),
{
    vec![
        (x & 0xff) as u8,
        ((x >> 8u64) & 0xff) as u8,
        ((x >> 16u64) & 0xff) as u8,
        ((x >> 24u64) & 0xff) as u8,
        ((x >> 32u64) & 0xff) as u8,
        ((x >> 40u64) & 0xff) as u8,
        ((x >> 48u64) & 0xff) as u8,
        ((x >> 56u64) & 0xff) as u8,
    ]
}

/// The digest that `secret` commits to: the proof system's public input,
/// and, in hex, the published commitment.
pub fn compute_hash(secret: u64) -> (r: Vec<u8>)
    ensures
        r@ == commitment_digest(secret),
        r@.len() == 32,
        hex_of(r@) == commitment_hex(secret),
{
    let bytes = u64_to_le_bytes(secret);
    sha256(bytes.as_slice())
}

/// The published commitment of `secret`, 64 hex digits.
pub fn commitment_string(secret: u64) -> (r: String)
    ensures
        r@ == commitment_hex(secret),
        r@.len() == 64,
{
    let digest = compute_hash(secret);
    to_hex(digest.as_slice())
}

} // verus!
