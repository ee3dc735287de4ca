//! Donation events: decoding a log and upserting the record it describes.
use vstd::prelude::*;
use vstd::utf8::encode_utf8;
use crate::amount::{decimal_string, eth_text, format_eth_word};
use crate::digest::{checksum_of, checksum_text, keccak256, keccak_of, u256_decimal};
use crate::ens::{copy_range, display_of};
use crate::keys::{donation_key_input, generate_donation_hash_key, key_of};
use crate::ledger::DonationRecord;
use crate::text::{be_value, decimal_text, prefixed_hex};

verus! {

/// A log as the chain reports it.
pub struct RawLog {
    pub topics: Vec<[u8; 32]>,
    pub data: Vec<u8>,
    pub transaction_hash: Option<[u8; 32]>,
    pub log_index: Option<u64>,
    pub removed: bool,
}

/// The fields of a decoded donation, in their stored spelling.
pub struct DonationDraft {
    pub removed: bool,
    pub tx_hash: String,
    pub log_index: String,
    pub donor: Vec<u8>,
    pub donor_text: String,
    pub amount: String,
    pub eth_amount: String,
    pub hash_key: String,
}

/// Why a log is not a donation.
#[derive(Debug, PartialEq, Eq, Structural)]
pub enum DecodeError {
    /// The topics are not the donation event's.
    WrongTopics,
    /// The data is shorter than one word.
    ShortData,
}

/// The signature of the donation event.
pub open spec fn donation_signature() -> Seq<char> {
    "Donation(address,uint256)"@
}

/// The first topic of a donation log.
pub open spec fn donation_topic() -> Seq<u8> {
    keccak_of(encode_utf8(donation_signature()))
}

/// The 32 bytes of a hash, or zeros when there is none.
pub open spec fn hash_or_zero(h: Option<[u8; 32]>) -> Seq<u8> {
    match h {
        Some(b) => b@,
        None => Seq::new(32, |i: int| 0u8),
    }
}

/// Whether a log has the donation event's shape.
pub open spec fn is_donation_log(log: RawLog) -> bool {
    log.topics@.len() == 2 && log.topics@[0]@ == donation_topic() && log.data@.len() >= 32
}

/// What a donation log decodes to.
pub open spec fn draft_matches(log: RawLog, d: DonationDraft) -> bool {
    let donor = log.topics@[1]@.subrange(12, 32);
    let amount = decimal_text(be_value(log.data@.subrange(0, 32)));
    let index = decimal_text(match log.log_index { Some(i) => i as nat, None => 0 });
    &&& d.removed == log.removed
    &&& d.tx_hash@ == prefixed_hex(hash_or_zero(log.transaction_hash))
    &&& d.log_index@ == index
    &&& d.donor@ == donor
    &&& d.donor_text@ == checksum_of(donor)
    &&& d.amount@ == amount
    &&& d.eth_amount@ == eth_text(be_value(log.data@.subrange(0, 32)))
    &&& d.hash_key@ == key_of(donation_key_input(amount, checksum_of(donor), d.tx_hash@, index))
}

/// Equality of two 32-byte words.
fn same_word(a: &[u8; 32], b: &[u8; 32]) -> (r: bool)
    ensures
        r == (a@ == b@),
{
    let mut i: usize = 0;
    while i < 32
        invariant
            i <= 32,
            forall|k: int| 0 <= k < i ==> a@[k] == b@[k],
        decreases 32 - i,
    {
        if a[i] != b[i] {
            return false;
        }
        i = i + 1;
    }
    assert(a@ =~= b@);
    true
}

/// `0x` and the hex digits of a transaction hash, zeros when absent.
fn hash_text(h: Option<[u8; 32]>) -> (r: String)
    ensures
        r@ == prefixed_hex(hash_or_zero(h)),
{
    let bytes: [u8; 32] = match h {
        Some(b) => b,
        None => [0u8; 32],
    };
    assert(bytes@ =~= hash_or_zero(h));
    crate::address::address_text(&bytes)
}

/// Decodes a log as a donation event.
pub fn decode_donation(log: &RawLog) -> (r: Result<DonationDraft, DecodeError>)
    ensures
        match r {
            Ok(d) => is_donation_log(*log) && draft_matches(*log, d),
            Err(e) => !is_donation_log(*log) && (e == DecodeError::ShortData <==> (
                log.topics@.len() == 2 && log.topics@[0]@ == donation_topic())),
        },
{
    let topic = keccak256("Donation(address,uint256)".as_bytes());
    if log.topics.len() != 2 || !same_word(&log.topics[0], &topic) {
        return Err(DecodeError::WrongTopics);
    }
    if log.data.len() < 32 {
        return Err(DecodeError::ShortData);
    }
    let donor = copy_range(&log.topics[1], 12, 32);
    let amount_word = copy_range(log.data.as_slice(), 0, 32);
    let amount = u256_decimal(amount_word.as_slice());
    let donor_text = checksum_text(donor.as_slice());
    let tx_hash = hash_text(log.transaction_hash);
    let index: u64 = match log.log_index {
        Some(i) => i,
        None => 0,
    };
    let log_index = decimal_string(index as u128);
    let eth_amount = format_eth_word(amount_word.as_slice());
    let hash_key = generate_donation_hash_key(amount.as_str(), donor_text.as_str(), tx_hash.as_str(), log_index.as_str());
    Ok(DonationDraft {
        removed: log.removed,
        tx_hash,
        log_index,
        donor,
        donor_text,
        amount,
        eth_amount,
        hash_key,
    })
}

/// The record a draft is stored as: where the key is already known the
/// stored name stays, so the name is left empty; a new donation carries the
/// resolved name or else the donor's spelling.
pub open spec fn row_matches(r: DonationRecord, d: DonationDraft, known: bool, resolved: Option<String>) -> bool {
    &&& r.removed == d.removed
    &&& r.tx_hash == d.tx_hash
    &&& r.log_index == d.log_index
    &&& r.from_address == d.donor_text
    &&& r.eth_amount == d.eth_amount
    &&& r.hash_key == d.hash_key
    &&& r.from_name@ == (if known {
        Seq::<char>::empty()
    } else {
        display_of(
            match resolved { Some(n) => Some(n@), None => None },
            d.donor_text@,
        )
    })
}

/// Builds the record a draft is stored as.
pub fn donation_record(d: DonationDraft, known: bool, resolved: Option<String>) -> (r: DonationRecord)
    ensures
        row_matches(r, d, known, resolved),
{
    let from_name = if known {
        String::new()
    } else {
        match resolved {
            Some(n) => n,
            None => d.donor_text.clone(),
        }
    };
    DonationRecord {
        removed: d.removed,
        tx_hash: d.tx_hash,
        log_index: d.log_index,
        from_address: d.donor_text,
        eth_amount: d.eth_amount,
        hash_key: d.hash_key,
        from_name,
    }
}

} // verus!
