//! Explorer transfers: picking the ones paid to the target and recording
//! each at most once.
use vstd::prelude::*;
use vstd::utf8::encode_utf8;
use crate::address::{address_bytes, address_text, address_text_ok, parse_address};
use crate::amount::{eth_text, format_eth, parse_wei, wei_value};
use crate::digest::{lower_of, lowercase};
use crate::ens::display_of;
use crate::keys::{generate_transfer_hash_key, key_of, transfer_key_input};
use crate::ledger::{has_transfer_key, DbClient, StoreError, TransferRecord};
use crate::text::prefixed_hex;

verus! {

/// One transaction of an explorer listing.
pub struct TransactionInfo {
    pub from: String,
    pub to: String,
    pub value: String,
    pub hash: String,
}

/// An explorer reply: a status and a listing.
pub struct EtherscanResponse {
    pub status: String,
    pub result: Vec<TransactionInfo>,
}

/// Why a reconciliation step stopped.
#[derive(Debug, PartialEq, Eq, Structural)]
pub enum ReconcileError {
    /// Neither listing could be fetched.
    BothFailed,
    /// A new transfer names a sender that is not an address.
    InvalidSender,
    /// The ledger refused the write.
    Store(StoreError),
}

/// A transfer paid to the target, in its stored spelling.
pub struct TransferCandidate {
    pub tx_hash: String,
    pub from_address: String,
    pub eth_amount: String,
    pub hash_key: String,
    pub sender: Option<[u8; 20]>,
}

/// Whether a reply reports success.
pub open spec fn reply_ok(r: EtherscanResponse) -> bool {
    r.status@ == seq!['1']
}

/// The listing of a reply that succeeded; nothing from one that failed.
pub open spec fn usable(r: EtherscanResponse) -> Seq<TransactionInfo> {
    if reply_ok(r) { r.result@ } else { Seq::empty() }
}

/// Whether a transaction pays a nonzero amount to the target.
pub open spec fn is_wanted(target: Seq<char>, t: TransactionInfo) -> bool {
    &&& lower_of(t.to@) == lower_of(target)
    &&& match wei_value(t.value@) {
        Some(v) => v > 0,
        None => false,
    }
}

/// The transactions that pay a nonzero amount to the target, in order.
pub open spec fn wanted(target: Seq<char>, txs: Seq<TransactionInfo>) -> Seq<TransactionInfo>
    decreases txs.len(),
{
    if txs.len() == 0 {
        Seq::empty()
    } else {
        let rest = wanted(target, txs.drop_last());
        if is_wanted(target, txs.last()) { rest.push(txs.last()) } else { rest }
    }
}

/// What a wanted transaction becomes.
pub open spec fn candidate_matches(c: TransferCandidate, t: TransactionInfo) -> bool {
    let from = encode_utf8(t.from@);
    &&& c.tx_hash@ == t.hash@
    &&& c.from_address@ == t.from@
    &&& c.eth_amount@ == eth_text(wei_value(t.value@)->Some_0)
    &&& c.hash_key@ == key_of(transfer_key_input(t.value@, t.from@, t.hash@))
    &&& (c.sender is Some <==> address_text_ok(from))
    &&& (c.sender is Some ==> c.sender->Some_0@ == address_bytes(from))
}

/// Candidates and transactions correspond one to one.
pub open spec fn all_match(cs: Seq<TransferCandidate>, ts: Seq<TransactionInfo>) -> bool {
    cs.len() == ts.len() && forall|i: int| 0 <= i < cs.len() ==> candidate_matches(#[trigger] cs[i], ts[i])
}

/// The candidate for a wanted transaction.
fn candidate_of(t: &TransactionInfo, wei: u128) -> (c: TransferCandidate)
    requires
        wei_value(t.value@) == Some(wei as nat),
    ensures
        candidate_matches(c, *t),
{
    TransferCandidate {
        tx_hash: t.hash.clone(),
        from_address: t.from.clone(),
        eth_amount: format_eth(wei),
        hash_key: generate_transfer_hash_key(t.value.as_str(), t.from.as_str(), t.hash.as_str()),
        sender: parse_address(t.from.as_str()),
    }
}

/// Appends the candidates of the wanted transactions of `txs` to `out`.
fn push_wanted(
    target: &str,
    target_lower: &String,
    txs: &Vec<TransactionInfo>,
    out: &mut Vec<TransferCandidate>,
    Ghost(before): Ghost<Seq<TransactionInfo>>,
)
    requires
        target_lower@ == lower_of(target@),
        all_match(old(out)@, wanted(target@, before)),
    ensures
        all_match(final(out)@, wanted(target@, before + txs@)),
{
    let mut i: usize = 0;
    while i < txs.len()
        invariant
            i <= txs@.len(),
            target_lower@ == lower_of(target@),
            all_match(out@, wanted(target@, before + txs@.subrange(0, i as int))),
        decreases txs@.len() - i,
    {
        let t = &txs[i];
        let ghost seen = before + txs@.subrange(0, i as int);
        let ghost next = before + txs@.subrange(0, i + 1);
        assert(next.drop_last() == seen);
        assert(next.last() == *t);
        let to_lower = lowercase(t.to.as_str());
        if to_lower == *target_lower {
            match parse_wei(t.value.as_str()) {
                Some(wei) => {
                    if wei > 0 {
                        let c = candidate_of(t, wei);
                        let ghost prev = out@;
                        out.push(c);
                        assert(all_match(out@, wanted(target@, next))) by {
                            assert forall|k: int| 0 <= k < out@.len() implies candidate_matches(
                                #[trigger] out@[k],
                                wanted(target@, next)[k],
                            ) by {
                                if k < prev.len() {
                                    assert(out@[k] == prev[k]);
                                }
                            }
                        }
                    }
                },
                None => {},
            }
        }
        i = i + 1;
    }
    assert(txs@.subrange(0, txs@.len() as int) == txs@);
}

/// Picks, from the listings that succeeded, the transfers that pay a nonzero
/// amount to the target (compared case-insensitively), in listing order.
pub fn select_transfers(
    target: &str,
    normal: &EtherscanResponse,
    internal: &EtherscanResponse,
) -> (r: Result<Vec<TransferCandidate>, ReconcileError>)
    ensures
        r is Err <==> !reply_ok(*normal) && !reply_ok(*internal),
        r is Err ==> r == Err::<Vec<TransferCandidate>, ReconcileError>(ReconcileError::BothFailed),
        r is Ok ==> all_match(r->Ok_0@, wanted(target@, usable(*normal) + usable(*internal))),
{
    proof {
        reveal_strlit("1");
    }
    let one: String = "1".to_owned();
    assert(one@ =~= seq!['1']);
    let normal_ok = normal.status == one;
    let internal_ok = internal.status == one;
    if !normal_ok && !internal_ok {
        return Err(ReconcileError::BothFailed);
    }
    let target_lower = lowercase(target);
    let mut out: Vec<TransferCandidate> = Vec::new();
    let empty: Vec<TransactionInfo> = Vec::new();
    let first = if normal_ok { &normal.result } else { &empty };
    let second = if internal_ok { &internal.result } else { &empty };
    assert(Seq::<TransactionInfo>::empty() + first@ == first@);
    push_wanted(target, &target_lower, first, &mut out, Ghost(Seq::empty()));
    push_wanted(target, &target_lower, second, &mut out, Ghost(first@));
    Ok(out)
}

/// What to do next with a candidate.
pub enum TransferAction {
    /// Its key is recorded: nothing to do.
    Known,
    /// It is new but its sender is not an address.
    InvalidSender,
    /// It is new: resolve the sender's name, then record it.
    Resolve([u8; 20]),
}

/// Decides what to do next with a candidate.
pub fn transfer_action(db: &DbClient, c: &TransferCandidate) -> (r: TransferAction)
    ensures
        r is Known <==> has_transfer_key(db.transfer_rows(), c.hash_key@),
        r is InvalidSender <==> !has_transfer_key(db.transfer_rows(), c.hash_key@) && c.sender is None,
        r is Resolve ==> c.sender == Some(r->Resolve_0),
{
    if db.check_transfer_exists(c.hash_key.clone()) {
        return TransferAction::Known;
    }
    match c.sender {
        Some(a) => TransferAction::Resolve(a),
        None => TransferAction::InvalidSender,
    }
}

/// What a new candidate is stored as.
pub open spec fn transfer_row_matches(r: TransferRecord, c: TransferCandidate, resolved: Option<String>) -> bool {
    &&& r.tx_hash == c.tx_hash
    &&& r.from_address == c.from_address
    &&& r.eth_amount == c.eth_amount
    &&& r.hash_key == c.hash_key
    &&& r.from_name@ == display_of(
        match resolved { Some(n) => Some(n@), None => None },
        prefixed_hex(c.sender->Some_0@),
    )
}

/// Records a candidate unless its key is known; a new one is stored with the
/// resolved name, or else with its sender's normalized spelling.
pub fn record_transfer(db: &mut DbClient, c: TransferCandidate, resolved: Option<String>) -> (r: Result<(), ReconcileError>)
    requires
        old(db).wf(),
    ensures
        final(db).wf(),
        final(db).donation_rows() == old(db).donation_rows(),
        has_transfer_key(old(db).transfer_rows(), c.hash_key@) ==> r is Ok && final(db).transfer_rows() == old(db).transfer_rows(),
        !has_transfer_key(old(db).transfer_rows(), c.hash_key@) && c.sender is None ==> r == Err::<(), ReconcileError>(ReconcileError::InvalidSender)
            && final(db).transfer_rows() == old(db).transfer_rows(),
        !has_transfer_key(old(db).transfer_rows(), c.hash_key@) && c.sender is Some ==> r is Ok
            && final(db).transfer_rows().len() == old(db).transfer_rows().len() + 1
            && final(db).transfer_rows().drop_last() == old(db).transfer_rows()
            && transfer_row_matches(final(db).transfer_rows().last(), c, resolved),
        !has_transfer_key(old(db).transfer_rows(), c.hash_key@) && c.sender is Some && resolved is None
            ==> final(db).transfer_rows().last().from_name@ == prefixed_hex(c.sender->Some_0@),
{
    let sender = match transfer_action(db, &c) {
        TransferAction::Known => return Ok(()),
        TransferAction::InvalidSender => return Err(ReconcileError::InvalidSender),
        TransferAction::Resolve(a) => a,
    };
    let from_name = match resolved {
        Some(n) => n,
        None => address_text(&sender),
    };
    match db.insert_transfer(c.tx_hash, c.from_address, c.eth_amount, c.hash_key, from_name) {
        Ok(()) => {
            assert(db.transfer_rows().drop_last() == old(db).transfer_rows());
            Ok(())
        },
        Err(e) => Err(ReconcileError::Store(e)),
    }
}

/// The candidates whose keys the ledger does not hold yet, in order.
pub open spec fn unknown_of(rows: Seq<TransferRecord>, plan: Seq<TransferCandidate>) -> Seq<TransferCandidate>
    decreases plan.len(),
{
    if plan.len() == 0 {
        Seq::empty()
    } else {
        let rest = unknown_of(rows, plan.drop_last());
        if has_transfer_key(rows, plan.last().hash_key@) { rest } else { rest.push(plan.last()) }
    }
}

/// Where every candidate's key is stored, none is left to record.
pub proof fn law_known_plan_leaves_nothing(rows: Seq<TransferRecord>, plan: Seq<TransferCandidate>)
    requires
        forall|j: int| 0 <= j < plan.len() ==> has_transfer_key(rows, (#[trigger] plan[j]).hash_key@),
    ensures
        unknown_of(rows, plan) == Seq::<TransferCandidate>::empty(),
    decreases plan.len(),
{
    if plan.len() > 0 {
        assert(has_transfer_key(rows, plan[plan.len() - 1].hash_key@));
        assert forall|j: int| 0 <= j < plan.drop_last().len() implies has_transfer_key(rows, (#[trigger] plan.drop_last()[j]).hash_key@) by {
            assert(plan.drop_last()[j] == plan[j]);
        }
        law_known_plan_leaves_nothing(rows, plan.drop_last());
    }
}

/// The candidates of a pass that still need a name lookup and a write: those
/// whose keys are not recorded. Replaying a pass that was recorded in full
/// gives none.
pub fn unrecorded(db: &DbClient, plan: Vec<TransferCandidate>) -> (r: Vec<TransferCandidate>)
    ensures
        r@ == unknown_of(db.transfer_rows(), plan@),
{
    let ghost all = plan@;
    let mut rest = plan;
    let mut out: Vec<TransferCandidate> = Vec::new();
    let mut k: usize = 0;
    let n: usize = rest.len();
    assert(all.subrange(0, 0) =~= Seq::<TransferCandidate>::empty());
    assert(all.subrange(0, all.len() as int) =~= all);
    while rest.len() > 0
        invariant
            k <= all.len(),
            all.len() == n,
            rest@ == all.subrange(k as int, all.len() as int),
            out@ == unknown_of(db.transfer_rows(), all.subrange(0, k as int)),
        decreases rest@.len(),
    {
        let c = rest.remove(0);
        let ghost seen = all.subrange(0, k + 1);
        assert(seen.drop_last() == all.subrange(0, k as int));
        assert(seen.last() == c);
        let known = db.check_transfer_exists(c.hash_key.clone());
        if !known {
            out.push(c);
        }
        k = k + 1;
        assert(rest@ =~= all.subrange(k as int, all.len() as int));
    }
    assert(k == all.len());
    assert(all.subrange(0, k as int) =~= all);
    out
}

} // verus!
