use donation_watch::amount::{decimal_string, format_eth, parse_wei};
use donation_watch::keys::{generate_donation_hash_key, generate_transfer_hash_key};
use sha2::{Digest, Sha256};

fn sha_hex(s: &str) -> String {
    hex::encode(Sha256::digest(s.as_bytes()))
}

#[test]
fn transfer_key_is_sha256_of_concatenation() {
    let key = generate_transfer_hash_key("1000000000000000000", "0xAA", "0x1");
    assert_eq!(key, sha_hex("10000000000000000000xAA0x1"));
    assert_eq!(key.len(), 64);
}

#[test]
fn transfer_key_is_deterministic() {
    let a = generate_transfer_hash_key("5", "0xabc", "0xdef");
    let b = generate_transfer_hash_key("5", "0xabc", "0xdef");
    assert_eq!(a, b);
}

#[test]
fn transfer_key_changes_with_each_field() {
    let base = generate_transfer_hash_key("5", "0xabc", "0xdef");
    assert_ne!(base, generate_transfer_hash_key("6", "0xabc", "0xdef"));
    assert_ne!(base, generate_transfer_hash_key("5", "0xabd", "0xdef"));
    assert_ne!(base, generate_transfer_hash_key("5", "0xabc", "0xdee"));
}

#[test]
fn donation_key_covers_log_index() {
    let a = generate_donation_hash_key("7", "0xD0", "0x02", "0");
    assert_eq!(a, sha_hex("70xD00x020"));
    assert_ne!(a, generate_donation_hash_key("7", "0xD0", "0x02", "1"));
}

#[test]
fn format_eth_one_coin() {
    assert_eq!(format_eth(1_000_000_000_000_000_000), "1.000000000000000000");
}

#[test]
fn format_eth_zero_and_fractions() {
    assert_eq!(format_eth(0), "0.000000000000000000");
    assert_eq!(format_eth(1), "0.000000000000000001");
    assert_eq!(format_eth(1_234_567_890_123_456_789_012), "1234.567890123456789012");
}

#[test]
fn decimal_string_values() {
    assert_eq!(decimal_string(0), "0");
    assert_eq!(decimal_string(9), "9");
    assert_eq!(decimal_string(10), "10");
    assert_eq!(decimal_string(u128::MAX), "340282366920938463463374607431768211455");
}

#[test]
fn parse_wei_accepts_digits() {
    assert_eq!(parse_wei("0"), Some(0));
    assert_eq!(parse_wei("1000000000000000000"), Some(1_000_000_000_000_000_000));
    assert_eq!(parse_wei("+42"), Some(42));
    assert_eq!(parse_wei("340282366920938463463374607431768211455"), Some(u128::MAX));
}

#[test]
fn parse_wei_rejects_other_text() {
    assert_eq!(parse_wei(""), None);
    assert_eq!(parse_wei("+"), None);
    assert_eq!(parse_wei("-1"), None);
    assert_eq!(parse_wei("12a"), None);
    assert_eq!(parse_wei("340282366920938463463374607431768211456"), None);
}
