//! Addresses: parsing their hex text and spelling them out.
use std::str::FromStr;
use vstd::prelude::*;
use vstd::string::*;
use vstd::utf8::encode_utf8;
use crate::digest::to_hex;
use crate::text::{hex_text, prefixed_hex};

verus! {

/// Whether a byte is a hex digit of either case.
pub open spec fn is_hex_byte(c: u8) -> bool {
    (48 <= c <= 57) || (97 <= c <= 102) || (65 <= c <= 70)
}

/// The value of a hex digit.
pub open spec fn hex_value(c: u8) -> int {
    if c <= 57 { c - 48 } else if c >= 97 { c - 87 } else { c - 55 }
}

/// The text with one leading `0x` or `0X` removed.
pub open spec fn strip_hex_prefix(b: Seq<u8>) -> Seq<u8> {
    if b.len() >= 2 && b[0] == 48 && (b[1] == 120 || b[1] == 88) { b.subrange(2, b.len() as int) } else { b }
}

/// Whether a text spells a 20-byte address: an optional prefix, then 40 hex digits.
pub open spec fn address_text_ok(b: Seq<u8>) -> bool {
    let d = strip_hex_prefix(b);
    d.len() == 40 && forall|i: int| 0 <= i < 40 ==> is_hex_byte(#[trigger] d[i])
}

/// The 20 bytes that an address text spells.
pub open spec fn address_bytes(b: Seq<u8>) -> Seq<u8> {
    let d = strip_hex_prefix(b);
    Seq::new(20, |i: int| (hex_value(d[2 * i]) * 16 + hex_value(d[2 * i + 1])) as u8)
}

/// Relies on alloy's Address::from_str, which is const_hex::decode_to_array:
/// an optional `0x`/`0X` prefix, then exactly 40 hex digits of either case.
#[verifier::external_body]
pub(crate) fn parse_address(s: &str) -> (r: Option<[u8; 20]>)
    ensures
        r is Some <==> address_text_ok(encode_utf8(s@)),
        r is Some ==> r->Some_0@ == address_bytes(encode_utf8(s@)),
{
    alloy::primitives::Address::from_str(s).ok().map(|a| a.0.0)
}

/// The normalized spelling of an address: `0x` and 40 lowercase hex digits.
pub fn address_text(addr: &[u8]) -> (r: String)
    ensures
        r@ == prefixed_hex(addr@),
{
    proof {
        reveal_strlit("0x");
    }
    let digits = to_hex(addr);
    "0x".to_owned().concat(digits.as_str())
}

/// The suffix of reverse-lookup names.
pub open spec fn reverse_suffix() -> Seq<char> {
    seq!['.', 'a', 'd', 'd', 'r', '.', 'r', 'e', 'v', 'e', 'r', 's', 'e']
}

/// The reverse-lookup name of an address: its lowercase hex, then `.addr.reverse`.
pub open spec fn reverse_name_text(addr: Seq<u8>) -> Seq<char> {
    hex_text(addr) + reverse_suffix()
}

/// The reverse-lookup name of an address.
pub fn reverse_name(addr: &[u8]) -> (r: String)
    ensures
        r@ == reverse_name_text(addr@),
{
    proof {
        reveal_strlit(".addr.reverse");
    }
    let digits = to_hex(addr);
    digits.concat(".addr.reverse")
}

} // verus!
