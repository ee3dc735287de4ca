//! The watcher's settings and the requests it derives from them.
use vstd::prelude::*;
use vstd::string::*;
use vstd::utf8::encode_utf8;
use crate::address::{address_bytes, address_text_ok, parse_address};
use crate::amount::decimal_string;
use crate::reconcile::{select_transfers, usable, wanted, all_match, reply_ok, EtherscanResponse, ReconcileError, TransferCandidate};
use crate::scan::{backfill_plan, backfill_windows, incremental_window, BlockWindow, TRAILING_SPAN};
use crate::donation::{donation_record, row_matches, DonationDraft};
use crate::ledger::{has_donation_key, upsert_donation, DbClient, DonationRecord};
use crate::text::decimal_text;

verus! {

/// Why the settings were refused.
#[derive(Debug, PartialEq, Eq, Structural)]
pub enum ConfigError {
    /// The donation contract is not an address.
    InvalidDonationAddress,
}

/// The watcher's settings.
pub struct Checker {
    pub target_address: String,
    pub etherscan_api_key: String,
    pub donation_contract: [u8; 20],
    pub start_block: u64,
    pub chain_id: u64,
}

/// The explorer request for one listing of the target's transactions.
pub open spec fn explorer_url_text(chain_id: u64, action: Seq<char>, address: Seq<char>, key: Seq<char>) -> Seq<char> {
    "https://api.etherscan.io/v2/api?chainid="@ + decimal_text(chain_id as nat) + "&module=account&action="@
        + action + "&address="@ + address + "&startblock=0&endblock=99999999&sort=asc&apikey="@ + key
}

impl Checker {
    /// Settings for a target, a donation contract given as hex text, an
    /// explorer key, the first block of the history and the chain.
    pub fn new(
        target_transfer_address: String,
        target_donation_address: String,
        etherscan_api_key: String,
        start_block: u64,
        chain_id: u64,
    ) -> (r: Result<Checker, ConfigError>)
        ensures
            r is Err <==> !address_text_ok(encode_utf8(target_donation_address@)),
            r is Err ==> r == Err::<Checker, ConfigError>(ConfigError::InvalidDonationAddress),
            r is Ok ==> ({
                let c = r->Ok_0;
                &&& c.target_address == target_transfer_address
                &&& c.etherscan_api_key == etherscan_api_key
                &&& c.donation_contract@ == address_bytes(encode_utf8(target_donation_address@))
                &&& c.start_block == start_block
                &&& c.chain_id == chain_id
            }),
    {
        match parse_address(target_donation_address.as_str()) {
            Some(donation_contract) => Ok(Checker {
                target_address: target_transfer_address,
                etherscan_api_key,
                donation_contract,
                start_block,
                chain_id,
            }),
            None => Err(ConfigError::InvalidDonationAddress),
        }
    }

    /// The explorer request for the listing named by `action`.
    pub fn explorer_url(&self, action: &str) -> (r: String)
        ensures
            r@ == explorer_url_text(self.chain_id, action@, self.target_address@, self.etherscan_api_key@),
    {
        let chain = decimal_string(self.chain_id as u128);
        let url = "https://api.etherscan.io/v2/api?chainid=".to_owned();
        let url = url.concat(chain.as_str());
        let url = url.concat("&module=account&action=");
        let url = url.concat(action);
        let url = url.concat("&address=");
        let url = url.concat(self.target_address.as_str());
        let url = url.concat("&startblock=0&endblock=99999999&sort=asc&apikey=");
        url.concat(self.etherscan_api_key.as_str())
    }

    /// The explorer request for the target's regular transactions.
    pub fn transfer_list_url(&self) -> (r: String)
        ensures
            r@ == explorer_url_text(self.chain_id, "txlist"@, self.target_address@, self.etherscan_api_key@),
    {
        self.explorer_url("txlist")
    }

    /// The explorer request for the target's internal transactions.
    pub fn internal_list_url(&self) -> (r: String)
        ensures
            r@ == explorer_url_text(self.chain_id, "txlistinternal"@, self.target_address@, self.etherscan_api_key@),
    {
        self.explorer_url("txlistinternal")
    }

    /// The windows of the one history scan, newest first, for a chain head.
    pub fn past_log_windows(&self, head: u64) -> (r: Vec<BlockWindow>)
        ensures
            r@ == backfill_plan(self.start_block, head),
    {
        backfill_windows(self.start_block, head)
    }

    /// The window of one incremental scan, for a chain head.
    pub fn new_log_window(&self, head: u64) -> (r: BlockWindow)
        ensures
            r.to_block == head,
            r.from_block == if head >= TRAILING_SPAN { head - TRAILING_SPAN } else { 0 },
    {
        incremental_window(head)
    }

    /// The transfers to record out of the two explorer listings.
    pub fn check_transfers(
        &self,
        normal: &EtherscanResponse,
        internal: &EtherscanResponse,
    ) -> (r: Result<Vec<TransferCandidate>, ReconcileError>)
        ensures
            r is Err <==> !reply_ok(*normal) && !reply_ok(*internal),
            r is Err ==> r == Err::<Vec<TransferCandidate>, ReconcileError>(ReconcileError::BothFailed),
            r is Ok ==> all_match(r->Ok_0@, wanted(self.target_address@, usable(*normal) + usable(*internal))),
    {
        select_transfers(self.target_address.as_str(), normal, internal)
    }

    /// Stores a decoded donation: a new one with the resolved name (or the
    /// donor's spelling), a known one by replacing only its `removed` flag.
    /// Returns the record that was upserted.
    pub fn process_donation_event(
        &self,
        db: &mut DbClient,
        draft: DonationDraft,
        resolved: Option<String>,
    ) -> (r: DonationRecord)
        requires
            old(db).wf(),
        ensures
            final(db).wf(),
            final(db).transfer_rows() == old(db).transfer_rows(),
            row_matches(r, draft, has_donation_key(old(db).donation_rows(), draft.hash_key@), resolved),
            final(db).donation_rows() == upsert_donation(old(db).donation_rows(), r),
    {
        let known = db.check_donation_exists(draft.hash_key.clone());
        let rec = donation_record(draft, known, resolved);
        let stored = rec.duplicate();
        let _ = db.insert_donation(
            rec.removed,
            rec.tx_hash,
            rec.log_index,
            rec.from_address,
            rec.eth_amount,
            rec.hash_key,
            rec.from_name,
        );
        stored
    }
}

} // verus!
