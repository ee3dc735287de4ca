use donation_watch::checker::{Checker, ConfigError};
use donation_watch::ledger::Transfer;
use donation_watch::donation::{decode_donation, donation_record, DecodeError, RawLog};
use donation_watch::keys::generate_transfer_hash_key;
use donation_watch::ledger::{DbClient, StoreError};
use donation_watch::reconcile::{
    record_transfer, select_transfers, transfer_action, unrecorded, EtherscanResponse, ReconcileError, TransactionInfo,
    TransferAction,
};
use donation_watch::scan::{backfill_windows, incremental_window, next_backfill_window, next_step, BlockWindow, PollStep};
use sha2::{Digest, Sha256};
use tiny_keccak::Hasher;

const TARGET: &str = "0x1111111111111111111111111111111111abcdef";
const DONOR: &str = "5aaeb6053f3e94c9b9a09f33669435e7ef1beaed";
const SENDER: &str = "0xAAaaaaaaaaaaaaaaaaaaaaaaaaaaaaaaaaaaaaaa";

fn tx(from: &str, to: &str, value: &str, hash: &str) -> TransactionInfo {
    TransactionInfo { from: from.to_string(), to: to.to_string(), value: value.to_string(), hash: hash.to_string() }
}

fn reply(status: &str, result: Vec<TransactionInfo>) -> EtherscanResponse {
    EtherscanResponse { status: status.to_string(), result }
}

fn keccak(data: &[u8]) -> [u8; 32] {
    let mut out = [0u8; 32];
    let mut k = tiny_keccak::Keccak::v256();
    k.update(data);
    k.finalize(&mut out);
    out
}

fn donation_log(removed: bool) -> RawLog {
    let mut donor_topic = [0u8; 32];
    donor_topic[12..].copy_from_slice(&hex::decode(DONOR).unwrap());
    let mut data = vec![0u8; 32];
    data[24..].copy_from_slice(&1_000_000_000_000_000_000u64.to_be_bytes());
    RawLog {
        topics: vec![keccak(b"Donation(address,uint256)"), donor_topic],
        data,
        transaction_hash: Some([0x02u8; 32]),
        log_index: Some(3),
        removed,
    }
}

fn record(db: &mut DbClient, normal: &EtherscanResponse, internal: &EtherscanResponse) -> usize {
    let plan = select_transfers(TARGET, normal, internal).unwrap();
    let n = plan.len();
    for c in plan {
        record_transfer(db, c, None).unwrap();
    }
    n
}

#[test]
fn end_to_end_transfer_without_reverse_record() {
    let normal = reply("1", vec![tx(SENDER, TARGET, "1000000000000000000", "0x1")]);
    let internal = reply("0", vec![]);
    let mut db = DbClient::new();
    assert_eq!(record(&mut db, &normal, &internal), 1);
    let rows = db.get_transfers();
    assert_eq!(rows.len(), 1);
    assert_eq!(rows[0].eth_amount, "1.000000000000000000");
    assert_eq!(rows[0].from_name, SENDER.to_lowercase());
    assert_eq!(rows[0].from_address, SENDER);
    assert_eq!(rows[0].tx_hash, "0x1");
    let expected = hex::encode(Sha256::digest(format!("1000000000000000000{}0x1", SENDER).as_bytes()));
    assert_eq!(generate_transfer_hash_key("1000000000000000000", SENDER, "0x1"), expected);
    assert!(db.check_transfer_exists(expected));
}

#[test]
fn reconciling_twice_inserts_once() {
    let normal = reply("1", vec![tx(SENDER, TARGET, "5", "0x1"), tx(SENDER, TARGET, "6", "0x2")]);
    let internal = reply("1", vec![tx(SENDER, TARGET, "5", "0x1")]);
    let mut db = DbClient::new();
    record(&mut db, &normal, &internal);
    record(&mut db, &normal, &internal);
    assert_eq!(db.get_transfers().len(), 2);
}

#[test]
fn zero_value_and_other_recipient_are_skipped() {
    let normal = reply(
        "1",
        vec![
            tx(SENDER, TARGET, "0", "0x1"),
            tx(SENDER, "0x2222222222222222222222222222222222222222", "9", "0x2"),
            tx(SENDER, &TARGET.to_uppercase().replace("0X", "0x"), "9", "0x3"),
            tx(SENDER, TARGET, "not a number", "0x4"),
        ],
    );
    let plan = select_transfers(TARGET, &normal, &reply("0", vec![])).unwrap();
    assert_eq!(plan.len(), 1);
    assert_eq!(plan[0].tx_hash, "0x3");
    assert_eq!(plan[0].eth_amount, "0.000000000000000009");
}

#[test]
fn both_listings_failing_is_an_error() {
    let r = select_transfers(TARGET, &reply("0", vec![]), &reply("2", vec![]));
    assert!(matches!(r, Err(ReconcileError::BothFailed)));
}

#[test]
fn failed_listing_contributes_nothing() {
    let normal = reply("0", vec![tx(SENDER, TARGET, "1", "0x1")]);
    let internal = reply("1", vec![tx(SENDER, TARGET, "2", "0x2")]);
    let plan = select_transfers(TARGET, &normal, &internal).unwrap();
    assert_eq!(plan.len(), 1);
    assert_eq!(plan[0].tx_hash, "0x2");
}

#[test]
fn resolved_name_is_stored() {
    let plan = select_transfers(TARGET, &reply("1", vec![tx(SENDER, TARGET, "1", "0x1")]), &reply("0", vec![])).unwrap();
    let mut db = DbClient::new();
    for c in plan {
        record_transfer(&mut db, c, Some("alice.eth".to_string())).unwrap();
    }
    assert_eq!(db.get_transfers()[0].from_name, "alice.eth");
}

#[test]
fn new_transfer_with_bad_sender_is_refused() {
    let plan = select_transfers(TARGET, &reply("1", vec![tx("nonsense", TARGET, "1", "0x1")]), &reply("0", vec![])).unwrap();
    let mut db = DbClient::new();
    assert!(matches!(transfer_action(&db, &plan[0]), TransferAction::InvalidSender));
    let c = plan.into_iter().next().unwrap();
    assert_eq!(record_transfer(&mut db, c, None), Err(ReconcileError::InvalidSender));
    assert_eq!(db.get_transfers().len(), 0);
}

#[test]
fn duplicate_transfer_insert_is_refused() {
    let mut db = DbClient::new();
    let s = |x: &str| x.to_string();
    assert_eq!(db.insert_transfer(s("0x1"), s("a"), s("1"), s("k"), s("n")), Ok(()));
    assert_eq!(db.insert_transfer(s("0x2"), s("b"), s("2"), s("k"), s("m")), Err(StoreError::DuplicateKey));
    assert_eq!(db.get_transfers().len(), 1);
}

#[test]
fn donation_decodes_from_log() {
    let d = decode_donation(&donation_log(false)).unwrap();
    assert_eq!(d.amount, "1000000000000000000");
    assert_eq!(d.eth_amount, "1.000000000000000000");
    assert_eq!(d.log_index, "3");
    assert_eq!(d.tx_hash, format!("0x{}", "02".repeat(32)));
    assert_eq!(d.donor, hex::decode(DONOR).unwrap());
    assert_eq!(d.donor_text, "0x5aAeb6053F3E94C9b9A09f33669435E7Ef1BeAed");
    let expected = hex::encode(Sha256::digest(format!("1000000000000000000{}{}3", d.donor_text, d.tx_hash).as_bytes()));
    assert_eq!(d.hash_key, expected);
}

#[test]
fn foreign_log_is_not_a_donation() {
    let mut log = donation_log(false);
    log.topics[0] = [0u8; 32];
    assert!(matches!(decode_donation(&log), Err(DecodeError::WrongTopics)));
    let mut short = donation_log(false);
    short.data.truncate(31);
    assert!(matches!(decode_donation(&short), Err(DecodeError::ShortData)));
}

#[test]
fn retraction_updates_only_removed() {
    let mut db = DbClient::new();
    for removed in [false, true] {
        let d = decode_donation(&donation_log(removed)).unwrap();
        let known = db.check_donation_exists(d.hash_key.clone());
        assert_eq!(known, removed);
        let r = donation_record(d, known, None);
        db.insert_donation(r.removed, r.tx_hash, r.log_index, r.from_address, r.eth_amount, r.hash_key, r.from_name)
            .unwrap();
    }
    assert_eq!(db.get_donations().len(), 0);
    let d = decode_donation(&donation_log(false)).unwrap();
    let key = d.hash_key.clone();
    let r = donation_record(d, true, None);
    assert_eq!(r.from_name, "");
    db.insert_donation(r.removed, r.tx_hash, r.log_index, r.from_address, r.eth_amount, r.hash_key, r.from_name)
        .unwrap();
    let live = db.get_donations();
    assert_eq!(live.len(), 1);
    assert_eq!(live[0].eth_amount, "1.000000000000000000");
    assert_eq!(live[0].from_name, live[0].from_address);
    assert!(db.check_donation_exists(key));
}

#[test]
fn backfill_windows_from_head() {
    let w = backfill_windows(1000, 120000);
    assert_eq!(
        w,
        vec![
            BlockWindow { from_block: 70001, to_block: 120000 },
            BlockWindow { from_block: 20002, to_block: 70001 },
            BlockWindow { from_block: 1000, to_block: 20002 },
        ]
    );
    assert_eq!(next_backfill_window(1000, 1000), None);
    assert!(backfill_windows(5, 5).is_empty());
}

#[test]
fn incremental_window_clips_at_zero() {
    assert_eq!(incremental_window(10), BlockWindow { from_block: 0, to_block: 10 });
    assert_eq!(incremental_window(100), BlockWindow { from_block: 36, to_block: 100 });
}

#[test]
fn poll_cycle_order() {
    assert_eq!(next_step(PollStep::Backfill), PollStep::Reconcile);
    assert_eq!(next_step(PollStep::Reconcile), PollStep::ScanRecent);
    assert_eq!(next_step(PollStep::ScanRecent), PollStep::Sleep);
    assert_eq!(next_step(PollStep::Sleep), PollStep::Reconcile);
}

#[test]
fn checker_builds_urls_and_rejects_bad_contract() {
    let c = Checker::new(TARGET.to_string(), TARGET.to_string(), "KEY".to_string(), 7, 1).unwrap();
    assert_eq!(
        c.transfer_list_url(),
        format!("https://api.etherscan.io/v2/api?chainid=1&module=account&action=txlist&address={}&startblock=0&endblock=99999999&sort=asc&apikey=KEY", TARGET)
    );
    assert!(c.internal_list_url().contains("action=txlistinternal&"));
    assert_eq!(hex::encode(c.donation_contract), TARGET[2..]);
    assert_eq!(c.past_log_windows(7).len(), 0);
    assert!(matches!(
        Checker::new(TARGET.to_string(), "0x12".to_string(), "KEY".to_string(), 7, 1),
        Err(ConfigError::InvalidDonationAddress)
    ));
}

fn checker() -> Checker {
    Checker::new(TARGET.to_string(), TARGET.to_string(), "KEY".to_string(), 0, 1).unwrap()
}

fn listed(rows: &[Transfer]) -> Vec<(String, String)> {
    rows.iter().map(|t| (t.eth_amount.clone(), t.from_name.clone())).collect()
}

#[test]
fn process_donation_event_resolves_only_new_donations() {
    let c = checker();
    let mut db = DbClient::new();
    let first = c.process_donation_event(&mut db, decode_donation(&donation_log(false)).unwrap(), Some("bob.eth".to_string()));
    assert_eq!(first.from_name, "bob.eth");
    assert!(!first.removed);
    let again = c.process_donation_event(&mut db, decode_donation(&donation_log(false)).unwrap(), Some("other".to_string()));
    assert_eq!(again.from_name, "");
    assert_eq!(listed(&db.get_donations()), vec![("1.000000000000000000".to_string(), "bob.eth".to_string())]);
    let gone = c.process_donation_event(&mut db, decode_donation(&donation_log(true)).unwrap(), None);
    assert!(gone.removed);
    assert_eq!(gone.hash_key, first.hash_key);
    assert!(db.get_donations().is_empty());
    assert!(db.check_donation_exists(first.hash_key.clone()));
}

#[test]
fn unresolved_donor_falls_back_to_checksum_spelling() {
    let c = checker();
    let mut db = DbClient::new();
    let r = c.process_donation_event(&mut db, decode_donation(&donation_log(false)).unwrap(), None);
    assert_eq!(r.from_name, "0x5aAeb6053F3E94C9b9A09f33669435E7Ef1BeAed");
}

fn donation_log_with_amount(amount: [u8; 32]) -> RawLog {
    let mut log = donation_log(false);
    log.data = amount.to_vec();
    log
}

#[test]
fn donation_amount_has_eighteen_decimals() {
    let mut amount = [0u8; 32];
    amount[24..].copy_from_slice(&1_500_000_000_000_000_000u64.to_be_bytes());
    let d = decode_donation(&donation_log_with_amount(amount)).unwrap();
    assert_eq!(d.eth_amount, "1.500000000000000000");
    let mut small = [0u8; 32];
    small[31] = 7;
    assert_eq!(decode_donation(&donation_log_with_amount(small)).unwrap().eth_amount, "0.000000000000000007");
}

#[test]
fn donation_amount_past_128_bits_is_exact() {
    let d = decode_donation(&donation_log_with_amount([0xFFu8; 32])).unwrap();
    assert_eq!(d.amount, "115792089237316195423570985008687907853269984665640564039457584007913129639935");
    assert_eq!(d.eth_amount, "115792089237316195423570985008687907853269984665640564039457.584007913129639935");
    let mut big = [0u8; 32];
    big[15] = 1;
    let d = decode_donation(&donation_log_with_amount(big)).unwrap();
    assert_eq!(d.amount, "340282366920938463463374607431768211456");
    assert_eq!(d.eth_amount, "340282366920938463463.374607431768211456");
}

#[test]
fn keys_are_sixty_four_hex_digits() {
    let d = decode_donation(&donation_log(false)).unwrap();
    assert_eq!(d.hash_key.len(), 64);
    assert!(d.hash_key.chars().all(|c| c.is_ascii_hexdigit() && !c.is_ascii_uppercase()));
}

#[test]
fn replayed_pass_has_nothing_unrecorded() {
    let normal = reply("1", vec![tx(SENDER, TARGET, "5", "0x1"), tx(SENDER, TARGET, "6", "0x2")]);
    let internal = reply("0", vec![]);
    let mut db = DbClient::new();
    let first = unrecorded(&db, select_transfers(TARGET, &normal, &internal).unwrap());
    assert_eq!(first.len(), 2);
    for c in first {
        record_transfer(&mut db, c, None).unwrap();
    }
    assert!(unrecorded(&db, select_transfers(TARGET, &normal, &internal).unwrap()).is_empty());
    assert_eq!(db.get_transfers().len(), 2);
}
