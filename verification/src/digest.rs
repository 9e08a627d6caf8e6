//! BLAKE3 digests of byte strings and their hexadecimal rendering.

use vstd::prelude::*;

verus! {

/// The BLAKE3 digest (32 bytes) of `data`, as `blake3::hash` computes it.
pub uninterp spec fn blake3_digest(data: Seq<u8>) -> Seq<u8>;

/// The lowercase hexadecimal digit of `n` (`0 <= n < 16`).
pub open spec fn hex_digit(n: nat) -> char {
    if n < 10 {
        ((48 + n) as u8) as char
    } else {
        ((87 + n) as u8) as char
    }
}

/// Lowercase hexadecimal rendering of `bytes`: two digits per byte, high nibble first.
pub open spec fn hex_of(bytes: Seq<u8>) -> Seq<char>
    decreases bytes.len(),
{
    if bytes.len() == 0 {
        Seq::empty()
    } else {
        hex_of(bytes.drop_last()) + seq![hex_digit((bytes.last() / 16) as nat), hex_digit((bytes.last() % 16) as nat)]
    }
}

/// Calls `blake3::hash` and copies out the digest's bytes (`Hash::as_bytes`). The digest is a
/// function of the input bytes alone, named `blake3_digest`; `as_bytes` gives its 32 bytes.
#[verifier::external_body]
pub fn blake3_digest_bytes(data: &[u8]) -> (d: Vec<u8>)
    ensures
        d@ == blake3_digest(data@),
        d@.len() == 32,
{
    blake3::hash(data).as_bytes().to_vec()
}

/// Calls `blake3::hash` and renders the digest with `Hash::to_hex`, whose source writes each
/// byte as two lowercase hexadecimal digits, high nibble first, in byte order.
#[verifier::external_body]
pub fn blake3_hex(data: &[u8]) -> (s: String)
    ensures
        s@ == hex_of(blake3_digest(data@)),
{
    blake3::hash(data).to_hex().to_string()
}

} // verus!
