//! The outside digests and encodings the library relies on.
use sha2::Digest;
use tiny_keccak::Hasher;
use vstd::prelude::*;
use vstd::utf8::encode_utf8;
use crate::text::{be_value, decimal_text, hex_text};

verus! {

/// The SHA-256 digest of a byte sequence.
pub uninterp spec fn sha256_of(data: Seq<u8>) -> Seq<u8>;

/// The Keccak-256 digest of a byte sequence.
pub uninterp spec fn keccak_of(data: Seq<u8>) -> Seq<u8>;

/// The Unicode lowercase mapping of a text.
pub uninterp spec fn lower_of(s: Seq<char>) -> Seq<char>;

/// The upper-case form of a lowercase hex letter; other characters stay.
pub open spec fn upper_hex(c: char) -> char {
    if c == 'a' { 'A' } else if c == 'b' { 'B' } else if c == 'c' { 'C' }
    else if c == 'd' { 'D' } else if c == 'e' { 'E' } else if c == 'f' { 'F' } else { c }
}

/// The EIP-55 spelling of an address: `0x`, then its lowercase hex digits,
/// where digit `i` is upper-cased when nibble `i` of the Keccak-256 of those
/// digits (as ASCII) is 8 or more.
pub open spec fn checksum_of(addr: Seq<u8>) -> Seq<char> {
    let digits = hex_text(addr);
    let h = keccak_of(encode_utf8(digits));
    seq!['0', 'x'] + Seq::new(
        digits.len(),
        |i: int| {
            let nibble = if i % 2 == 0 { h[i / 2] / 16 } else { h[i / 2] % 16 };
            if nibble >= 8 { upper_hex(digits[i]) } else { digits[i] }
        },
    )
}

/// Relies on sha2::Sha256::digest: a 32-byte digest that depends on the input alone.
#[verifier::external_body]
pub(crate) fn sha256(data: &[u8]) -> (r: [u8; 32])
    ensures
        r@ == sha256_of(data@),
{
    sha2::Sha256::digest(data).into()
}

/// Relies on tiny_keccak::Keccak::v256: a 32-byte digest that depends on the input alone.
#[verifier::external_body]
pub(crate) fn keccak256(data: &[u8]) -> (r: [u8; 32])
    ensures
        r@ == keccak_of(data@),
{
    let mut out = [0u8; 32];
    let mut k = tiny_keccak::Keccak::v256();
    k.update(data);
    k.finalize(&mut out);
    out
}

/// Relies on hex::encode: two lowercase digits per byte, most significant first.
#[verifier::external_body]
pub(crate) fn to_hex(data: &[u8]) -> (r: String)
    ensures
        r@ == hex_text(data@),
{
    hex::encode(data)
}

/// Relies on str::to_lowercase: the result depends on the characters alone.
#[verifier::external_body]
pub(crate) fn lowercase(s: &str) -> (r: String)
    ensures
        r@ == lower_of(s@),
{
    s.to_lowercase()
}

/// Relies on alloy's Address::to_checksum with no chain id: the EIP-55
/// spelling, hashing the lowercase hex digits without the `0x` prefix.
#[verifier::external_body]
pub(crate) fn checksum_text(addr: &[u8]) -> (r: String)
    requires
        addr@.len() == 20,
    ensures
        r@ == checksum_of(addr@),
{
    alloy::primitives::Address::from_slice(addr).to_checksum(None)
}

/// Relies on alloy's U256::from_be_slice and its Display: the decimal digits
/// of a 32-byte big-endian number, without leading zeros.
#[verifier::external_body]
pub(crate) fn u256_decimal(word: &[u8]) -> (r: String)
    requires
        word@.len() == 32,
    ensures
        r@ == decimal_text(be_value(word@)),
{
    alloy::primitives::U256::from_be_slice(word).to_string()
}

} // verus!
