use donation_watch::address::{address_text, reverse_name};
use donation_watch::ens::{
    name_call, name_from_reply, namehash, registry_address, resolver_call, resolver_from_reply, reverse_node,
    LookupAction, NameLookup,
};

fn word(v: u64) -> Vec<u8> {
    let mut w = vec![0u8; 24];
    w.extend_from_slice(&v.to_be_bytes());
    w
}

fn string_reply(s: &str) -> Vec<u8> {
    let mut r = word(32);
    r.extend(word(s.len() as u64));
    let mut body = s.as_bytes().to_vec();
    while body.len() % 32 != 0 {
        body.push(0);
    }
    r.extend(body);
    r
}

#[test]
fn namehash_of_empty_is_none() {
    assert_eq!(namehash(""), None);
}

#[test]
fn namehash_of_single_label() {
    assert_eq!(
        namehash("eth"),
        Some("0x93cdeb708b7545dc668eb9280176169d1c33cfd8ed6f04690a0bcc88a93fc4ae".to_string())
    );
}

#[test]
fn namehash_of_two_labels() {
    assert_eq!(
        namehash("foo.eth"),
        Some("0xde9b09fd7c5f901e23a3f19fecc54828e9c848539801e86591bd9801b019f84f".to_string())
    );
}

#[test]
fn reverse_name_spells_lowercase_hex() {
    let addr = [0xABu8; 20];
    assert_eq!(reverse_name(&addr), format!("{}.addr.reverse", "ab".repeat(20)));
    assert_eq!(address_text(&addr), format!("0x{}", "ab".repeat(20)));
}

#[test]
fn reverse_node_matches_namehash() {
    let addr = [0x12u8; 20];
    let node = reverse_node(&addr);
    let text = namehash(&reverse_name(&addr)).unwrap();
    assert_eq!(format!("0x{}", hex::encode(node)), text);
}

#[test]
fn call_data_selectors() {
    let node = [7u8; 32];
    let r = resolver_call(&node);
    assert_eq!(&r[..4], &[0x01, 0x78, 0xb8, 0xbf]);
    assert_eq!(&r[4..], &node[..]);
    let n = name_call(&node);
    assert_eq!(&n[..4], &[0x69, 0x1f, 0x34, 0x31]);
    assert_eq!(n.len(), 36);
}

#[test]
fn registry_address_value() {
    assert_eq!(hex::encode(registry_address()), "00000000000c2e074ec69a0dfb2997ba6c7d2e1e");
}

#[test]
fn zero_resolver_is_no_resolution() {
    assert_eq!(resolver_from_reply(&[0u8; 32]), None);
    assert_eq!(resolver_from_reply(&[1u8; 31]), None);
}

#[test]
fn resolver_is_low_twenty_bytes() {
    let mut reply = vec![0u8; 32];
    reply[31] = 5;
    reply[12] = 9;
    let addr = resolver_from_reply(&reply).unwrap();
    assert_eq!(addr.len(), 20);
    assert_eq!(addr[0], 9);
    assert_eq!(addr[19], 5);
}

#[test]
fn name_reply_decodes_string() {
    assert_eq!(name_from_reply(&string_reply("alice.eth")), Some("alice.eth".to_string()));
}

#[test]
fn empty_or_malformed_name_is_no_resolution() {
    assert_eq!(name_from_reply(&string_reply("")), None);
    assert_eq!(name_from_reply(&[0u8; 10]), None);
    let mut bad = string_reply("bob");
    bad.truncate(40);
    assert_eq!(name_from_reply(&bad), None);
}

fn expect_call(a: LookupAction) -> (Vec<u8>, Vec<u8>) {
    match a {
        LookupAction::Call { to, data } => (to, data),
        LookupAction::Done(_) => panic!("expected a call"),
    }
}

fn expect_done(a: LookupAction) -> Option<String> {
    match a {
        LookupAction::Done(n) => n,
        LookupAction::Call { .. } => panic!("expected the end"),
    }
}

#[test]
fn lookup_asks_registry_then_resolver() {
    let addr = [0x33u8; 20];
    let (mut lookup, first) = NameLookup::start(&addr);
    let (to, data) = expect_call(first);
    assert_eq!(to, registry_address().to_vec());
    assert_eq!(data, resolver_call(&reverse_node(&addr)));
    let mut reply = vec![0u8; 32];
    reply[31] = 0x44;
    let (to2, data2) = expect_call(lookup.advance(Some(reply)));
    let mut resolver = vec![0u8; 20];
    resolver[19] = 0x44;
    assert_eq!(to2, resolver);
    assert_eq!(data2, name_call(&reverse_node(&addr)));
    assert_eq!(expect_done(lookup.advance(Some(string_reply("carol.eth")))), Some("carol.eth".to_string()));
}

#[test]
fn lookup_with_zero_resolver_or_failure_finds_nothing() {
    let addr = [0x33u8; 20];
    let (mut lookup, _) = NameLookup::start(&addr);
    assert_eq!(expect_done(lookup.advance(Some(vec![0u8; 32]))), None);
    let (mut failed, _) = NameLookup::start(&addr);
    assert_eq!(expect_done(failed.advance(None)), None);
    let (mut empty, _) = NameLookup::start(&addr);
    let mut reply = vec![0u8; 32];
    reply[31] = 1;
    expect_call(empty.advance(Some(reply)));
    assert_eq!(expect_done(empty.advance(Some(string_reply("")))), None);
}
