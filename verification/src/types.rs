//! Plain data shared by the whole library: content hashes and the metadata
//! recorded for an indexed file.

use vstd::prelude::*;

verus! {

/// A BLAKE3 digest, 32 raw bytes.
pub type Hash = [u8; 32];

/// What the state database records about one indexed file.
#[derive(Debug, Clone, Copy, PartialEq, Eq)]
pub struct FileMetadata {
    pub size: u64,
    pub modified: u64,
    pub hash: Hash,
}

/// The lowercase hexadecimal digit for a nibble `n < 16`
/// (`'0'` is code point 48, `'a'` is code point 97).
pub open spec fn hex_digit(n: u8) -> char {
    if n < 10 {
        (48 + n) as char
    } else {
        (87 + n) as char
    }
}

/// Lowercase hexadecimal rendering of a byte sequence: two digits per byte,
/// high nibble first.
pub open spec fn hex_lower(bytes: Seq<u8>) -> Seq<char> {
    Seq::new(
        2 * bytes.len(),
        |i: int|
            if i % 2 == 0 {
                hex_digit(bytes[i / 2] / 16)
            } else {
                hex_digit(bytes[i / 2] % 16)
            },
    )
}

/// Renders a hash as 64 lowercase hexadecimal characters.
///
/// Trusted: `blake3::Hash::from_bytes` keeps the bytes as they are and
/// `blake3::Hash::to_hex` writes, for each byte in order, the digit of its
/// high nibble then of its low nibble from the table `0123456789abcdef`.
#[verifier::external_body]
pub fn hash_to_hex(hash: &Hash) -> (hex: String)
    ensures
        hex@ == hex_lower(hash@),
{
    blake3::Hash::from_bytes(*hash).to_hex().to_string()
}

} // verus!
