//! Content keys: the hex SHA-256 of the concatenated business fields.
use vstd::prelude::*;
use vstd::utf8::encode_utf8;
use crate::digest::{sha256, sha256_of, to_hex};
use crate::text::hex_text;

verus! {

/// The bytes hashed for a transfer: amount, sender and transaction hash, with no delimiter.
pub open spec fn transfer_key_input(amount: Seq<char>, from: Seq<char>, tx: Seq<char>) -> Seq<u8> {
    encode_utf8(amount) + encode_utf8(from) + encode_utf8(tx)
}

/// The bytes hashed for a donation: amount, donor, transaction hash and log index.
pub open spec fn donation_key_input(
    amount: Seq<char>,
    from: Seq<char>,
    tx: Seq<char>,
    index: Seq<char>,
) -> Seq<u8> {
    encode_utf8(amount) + encode_utf8(from) + encode_utf8(tx) + encode_utf8(index)
}

/// The key of a byte sequence: its SHA-256 digest in lowercase hex.
pub open spec fn key_of(input: Seq<u8>) -> Seq<char> {
    hex_text(sha256_of(input))
}

/// Appends the bytes of `s` to `v`.
fn push_text(v: &mut Vec<u8>, s: &str)
    ensures
        final(v)@ == old(v)@ + encode_utf8(s@),
{
    let b = s.as_bytes();
    let mut i: usize = 0;
    while i < b.len()
        invariant
            i <= b@.len(),
            b@ == encode_utf8(s@),
            v@ == old(v)@ + b@.subrange(0, i as int),
        decreases b@.len() - i,
    {
        v.push(b[i]);
        i = i + 1;
        proof {
            assert(b@.subrange(0, i as int) == b@.subrange(0, i - 1).push(b@[i - 1]));
        }
    }
    proof {
        assert(b@.subrange(0, b@.len() as int) == b@);
    }
}

/// The idempotency key of a transfer.
pub fn generate_transfer_hash_key(amount_wei: &str, from_address: &str, tx_hash: &str) -> (r: String)
    ensures
        r@ == key_of(transfer_key_input(amount_wei@, from_address@, tx_hash@)),
        r@.len() == 64,
{
    let mut input: Vec<u8> = Vec::new();
    push_text(&mut input, amount_wei);
    push_text(&mut input, from_address);
    push_text(&mut input, tx_hash);
    let digest = sha256(input.as_slice());
    to_hex(&digest)
}

/// The idempotency key of a donation.
pub fn generate_donation_hash_key(
    amount_wei: &str,
    from_address: &str,
    tx_hash: &str,
    log_index: &str,
) -> (r: String)
    ensures
        r@ == key_of(donation_key_input(amount_wei@, from_address@, tx_hash@, log_index@)),
        r@.len() == 64,
{
    let mut input: Vec<u8> = Vec::new();
    push_text(&mut input, amount_wei);
    push_text(&mut input, from_address);
    push_text(&mut input, tx_hash);
    push_text(&mut input, log_index);
    let digest = sha256(input.as_slice());
    to_hex(&digest)
}

} // verus!
