//! Properties that relate several operations of the library.
use vstd::prelude::*;
use vstd::utf8::encode_utf8;
use crate::amount::{digits_value, unsigned_body, wei_value};
use crate::digest::{keccak_of, lower_of, sha256_of};
use crate::donation::{draft_matches, DonationDraft, RawLog};
use crate::ens::{
    all_zero, display_of, dot_free, is_first_dot, name_bytes_of_reply, name_of_reply, namehash_text, resolver_of_reply,
    zero_node,
};
use crate::keys::{key_of, transfer_key_input};
use crate::ledger::{
    has_donation_key, has_transfer_key, insert_once, donation_keys_unique, transfer_keys_unique, upsert_donation,
    with_removed, DonationRecord, TransferRecord,
};
use crate::reconcile::{is_wanted, wanted, TransactionInfo};
use crate::scan::{backfill_plan, backfill_start, BlockWindow, BACKFILL_SPAN};
use crate::text::{hex_digit, hex_text, prefixed_hex};

verus! {

proof fn lemma_hex_digit_injective(a: int, b: int)
    requires
        0 <= a < 16,
        0 <= b < 16,
        hex_digit(a) == hex_digit(b),
    ensures
        a == b,
{
}

/// The hex spelling of bytes determines the bytes.
pub proof fn law_hex_text_injective(a: Seq<u8>, b: Seq<u8>)
    requires
        hex_text(a) == hex_text(b),
    ensures
        a == b,
{
    assert(hex_text(a).len() == 2 * a.len());
    assert forall|i: int| 0 <= i < a.len() implies a[i] == b[i] by {
        let ha = hex_text(a);
        let hb = hex_text(b);
        assert((2 * i) % 2 == 0 && (2 * i) / 2 == i);
        assert((2 * i + 1) % 2 == 1 && (2 * i + 1) / 2 == i);
        assert(ha[2 * i] == hex_digit(a[i] as int / 16));
        assert(hb[2 * i] == hex_digit(b[i] as int / 16));
        assert(ha[2 * i + 1] == hex_digit(a[i] as int % 16));
        assert(hb[2 * i + 1] == hex_digit(b[i] as int % 16));
        assert(a[i] as int == 16 * (a[i] as int / 16) + a[i] as int % 16);
        assert(b[i] as int == 16 * (b[i] as int / 16) + b[i] as int % 16);
        lemma_hex_digit_injective(a[i] as int / 16, b[i] as int / 16);
        lemma_hex_digit_injective(a[i] as int % 16, b[i] as int % 16);
    }
    assert(a =~= b);
}

/// A content key is a function of the hashed bytes, and two keys are equal
/// exactly when the digests of their inputs are: equal fields give equal keys,
/// and different fields give different keys unless SHA-256 collides.
pub proof fn law_key_matches_digest(x: Seq<u8>, y: Seq<u8>)
    ensures
        x == y ==> key_of(x) == key_of(y),
        key_of(x) == key_of(y) <==> sha256_of(x) == sha256_of(y),
{
    if key_of(x) == key_of(y) {
        law_hex_text_injective(sha256_of(x), sha256_of(y));
    }
}

/// The same transfer fields always give the same key.
pub proof fn law_transfer_key_deterministic(
    amount: Seq<char>,
    from: Seq<char>,
    tx: Seq<char>,
    amount2: Seq<char>,
    from2: Seq<char>,
    tx2: Seq<char>,
)
    requires
        amount == amount2,
        from == from2,
        tx == tx2,
    ensures
        key_of(transfer_key_input(amount, from, tx)) == key_of(transfer_key_input(amount2, from2, tx2)),
{
}

/// The ledger after recording each transfer of a pass in order.
pub open spec fn insert_all(s: Seq<TransferRecord>, recs: Seq<TransferRecord>) -> Seq<TransferRecord>
    decreases recs.len(),
{
    if recs.len() == 0 { s } else { insert_all(insert_once(s, recs[0]), recs.drop_first()) }
}

proof fn lemma_insert_all_keeps_keys(s: Seq<TransferRecord>, recs: Seq<TransferRecord>, k: Seq<char>)
    requires
        has_transfer_key(s, k),
    ensures
        has_transfer_key(insert_all(s, recs), k),
    decreases recs.len(),
{
    if recs.len() > 0 {
        let s1 = insert_once(s, recs[0]);
        if !has_transfer_key(s, recs[0].hash_key@) {
            let i = choose|i: int| 0 <= i < s.len() && (#[trigger] s[i]).hash_key@ == k;
            assert(s1[i] == s[i]);
        }
        lemma_insert_all_keeps_keys(s1, recs.drop_first(), k);
    }
}

proof fn lemma_insert_all_adds_keys(s: Seq<TransferRecord>, recs: Seq<TransferRecord>)
    ensures
        forall|j: int| 0 <= j < recs.len() ==> has_transfer_key(insert_all(s, recs), (#[trigger] recs[j]).hash_key@),
    decreases recs.len(),
{
    if recs.len() > 0 {
        let s1 = insert_once(s, recs[0]);
        if !has_transfer_key(s, recs[0].hash_key@) {
            assert(s1[s.len() as int] == recs[0]);
        }
        lemma_insert_all_adds_keys(s1, recs.drop_first());
        assert forall|j: int| 0 <= j < recs.len() implies has_transfer_key(insert_all(s, recs), (#[trigger] recs[j]).hash_key@) by {
            if j == 0 {
                lemma_insert_all_keeps_keys(s1, recs.drop_first(), recs[0].hash_key@);
            } else {
                assert(recs[j] == recs.drop_first()[j - 1]);
            }
        }
    }
}

proof fn lemma_insert_all_known(s: Seq<TransferRecord>, recs: Seq<TransferRecord>)
    requires
        forall|j: int| 0 <= j < recs.len() ==> has_transfer_key(s, (#[trigger] recs[j]).hash_key@),
    ensures
        insert_all(s, recs) == s,
    decreases recs.len(),
{
    if recs.len() > 0 {
        assert(has_transfer_key(s, recs[0].hash_key@));
        assert forall|j: int| 0 <= j < recs.drop_first().len() implies has_transfer_key(s, (#[trigger] recs.drop_first()[j]).hash_key@) by {
            assert(recs.drop_first()[j] == recs[j + 1]);
        }
        lemma_insert_all_known(s, recs.drop_first());
    }
}

/// Replaying a pass inserts nothing: once a pass of transfers has been
/// recorded, recording a pass with the same keys again (whatever names were
/// resolved the second time) leaves the ledger as it is.
pub proof fn law_replay_inserts_nothing(s: Seq<TransferRecord>, first: Seq<TransferRecord>, again: Seq<TransferRecord>)
    requires
        first.len() == again.len(),
        forall|j: int| 0 <= j < first.len() ==> (#[trigger] first[j]).hash_key@ == again[j].hash_key@,
    ensures
        insert_all(insert_all(s, first), again) == insert_all(s, first),
{
    let s1 = insert_all(s, first);
    lemma_insert_all_adds_keys(s, first);
    assert forall|j: int| 0 <= j < again.len() implies has_transfer_key(s1, (#[trigger] again[j]).hash_key@) by {
        assert(has_transfer_key(s1, first[j].hash_key@));
    }
    lemma_insert_all_known(s1, again);
}

/// Recording keeps keys unique: each transfer is stored at most once.
pub proof fn law_insert_all_unique(s: Seq<TransferRecord>, recs: Seq<TransferRecord>)
    requires
        transfer_keys_unique(s),
    ensures
        transfer_keys_unique(insert_all(s, recs)),
    decreases recs.len(),
{
    if recs.len() > 0 {
        let s1 = insert_once(s, recs[0]);
        if !has_transfer_key(s, recs[0].hash_key@) {
            assert forall|i: int, j: int|
                0 <= i < s1.len() && 0 <= j < s1.len() && i != j implies (#[trigger] s1[i]).hash_key@ != (#[trigger] s1[j]).hash_key@ by {
                if i == s.len() {
                    assert(s1[j] == s[j]);
                } else if j == s.len() {
                    assert(s1[i] == s[i]);
                } else {
                    assert(s1[i] == s[i] && s1[j] == s[j]);
                }
            }
        }
        law_insert_all_unique(s1, recs.drop_first());
    }
}

/// A sighting and then a retraction of one donation leave a single record
/// under its key, marked removed, with the amount, sender and key of the
/// first sighting.
pub proof fn law_retraction_keeps_one_record(s: Seq<DonationRecord>, seen: DonationRecord, retracted: DonationRecord)
    requires
        donation_keys_unique(s),
        !has_donation_key(s, seen.hash_key@),
        retracted.hash_key@ == seen.hash_key@,
        !seen.removed,
        retracted.removed,
    ensures
        ({
            let t = upsert_donation(upsert_donation(s, seen), retracted);
            &&& t.len() == s.len() + 1
            &&& t.last() == with_removed(seen, true)
            &&& t.drop_last() == s
            &&& forall|i: int| 0 <= i < s.len() ==> (#[trigger] t[i]).hash_key@ != seen.hash_key@
        }),
{
    let s1 = upsert_donation(s, seen);
    assert(s1 == s.push(seen));
    assert(s1[s.len() as int] == seen);
    assert(has_donation_key(s1, retracted.hash_key@));
    let i = choose|i: int| 0 <= i < s1.len() && (#[trigger] s1[i]).hash_key@ == retracted.hash_key@;
    if i < s.len() {
        assert(s1[i] == s[i]);
        assert(has_donation_key(s, seen.hash_key@));
    }
    assert(i == s.len());
    let t = upsert_donation(s1, retracted);
    assert(t == s1.update(i, with_removed(seen, true)));
    assert(t.drop_last() =~= s);
    assert forall|j: int| 0 <= j < s.len() implies (#[trigger] t[j]).hash_key@ != seen.hash_key@ by {
        assert(t[j] == s[j]);
        if s[j].hash_key@ == seen.hash_key@ {
            assert(has_donation_key(s, seen.hash_key@));
        }
    }
}

proof fn lemma_zero_text_is_zero()
    ensures
        wei_value(seq!['0']) == Some(0nat),
{
    let z = seq!['0'];
    assert(z.drop_first() =~= Seq::<char>::empty());
    assert(encode_utf8(z.drop_first()) =~= Seq::<u8>::empty());
    assert(z[0] as u32 == 48u32);
    assert((48u32 & 0x7F) as u8 == 48u8) by (bit_vector);
    assert(encode_utf8(z) =~= seq![48u8] + Seq::<u8>::empty());
    let b = seq![48u8];
    assert(encode_utf8(z) =~= b);
    assert(unsigned_body(b) == b);
    assert(b.drop_last() =~= Seq::<u8>::empty());
    assert(b.last() == 48u8);
    assert(digits_value(Seq::<u8>::empty()) == 0);
    assert(digits_value(b) == 0);
}

proof fn lemma_wanted_are_wanted(target: Seq<char>, txs: Seq<TransactionInfo>)
    ensures
        forall|i: int| 0 <= i < wanted(target, txs).len() ==> is_wanted(target, #[trigger] wanted(target, txs)[i]),
    decreases txs.len(),
{
    if txs.len() > 0 {
        lemma_wanted_are_wanted(target, txs.drop_last());
        let rest = wanted(target, txs.drop_last());
        if is_wanted(target, txs.last()) {
            assert(wanted(target, txs) == rest.push(txs.last()));
            assert forall|i: int| 0 <= i < wanted(target, txs).len() implies is_wanted(target, #[trigger] wanted(target, txs)[i]) by {
                if i < rest.len() {
                    assert(wanted(target, txs)[i] == rest[i]);
                }
            }
        }
    }
}

/// Every transaction kept for recording pays the target (compared
/// case-insensitively) a nonzero amount: a transaction with value "0", or
/// with another recipient, is never kept.
pub proof fn law_only_nonzero_payments_to_target(target: Seq<char>, txs: Seq<TransactionInfo>)
    ensures
        forall|i: int| 0 <= i < wanted(target, txs).len() ==> lower_of((#[trigger] wanted(target, txs)[i]).to@) == lower_of(target),
        forall|i: int| 0 <= i < wanted(target, txs).len() ==> (#[trigger] wanted(target, txs)[i]).value@ != seq!['0'],
{
    lemma_wanted_are_wanted(target, txs);
    lemma_zero_text_is_zero();
    assert forall|i: int| 0 <= i < wanted(target, txs).len() implies (#[trigger] wanted(target, txs)[i]).value@ != seq!['0'] by {
        assert(is_wanted(target, wanted(target, txs)[i]));
    }
}

/// The name a reverse lookup yields: nothing when the registry names no
/// resolver, else the name in the resolver's reply.
pub open spec fn resolved_name(registry_reply: Seq<u8>, resolver_reply: Seq<u8>) -> Option<Seq<char>> {
    match resolver_of_reply(registry_reply) {
        Some(_) => name_of_reply(resolver_reply),
        None => None,
    }
}

/// Where the registry names the zero resolver, or the resolver answers an
/// empty name, the stored name is the fallback spelling of the address.
pub proof fn law_unresolved_falls_back(registry_reply: Seq<u8>, resolver_reply: Seq<u8>, fallback: Seq<char>)
    requires
        (registry_reply.len() >= 32 && all_zero(registry_reply.subrange(12, 32)))
            || name_bytes_of_reply(resolver_reply) == Some(Seq::<u8>::empty()),
    ensures
        display_of(resolved_name(registry_reply, resolver_reply), fallback) == fallback,
{
}

/// The namehash of the empty name is nothing; that of a single label `l` is
/// keccak256(zero32 ++ keccak256(l)).
pub proof fn law_namehash_single_label(name: Seq<char>)
    requires
        dot_free(encode_utf8(name)),
    ensures
        name.len() == 0 ==> namehash_text(name) is None,
        name.len() > 0 ==> namehash_text(name) == Some(prefixed_hex(keccak_of(zero_node() + keccak_of(encode_utf8(name))))),
{
    let b = encode_utf8(name);
    assert(!exists|i: int| is_first_dot(b, i));
}

/// The backfill windows walk down from the head to the start block: the
/// first ends at the head, each spans at most `BACKFILL_SPAN` blocks after its
/// first one and starts where the next one ends, and the last starts at the
/// start block; there are none when the head is not past the start block.
pub proof fn law_backfill_windows_walk_down(start_block: u64, head: u64)
    ensures
        ({
            let w = backfill_plan(start_block, head);
            &&& (w.len() == 0 <==> head <= start_block)
            &&& w.len() > 0 ==> w[0].to_block == head && w.last().from_block == start_block
            &&& forall|i: int| 0 <= i < w.len() ==> start_block <= (#[trigger] w[i]).from_block < w[i].to_block
                && w[i].to_block - w[i].from_block <= BACKFILL_SPAN
            &&& forall|i: int| 0 <= i < w.len() - 1 ==> (#[trigger] w[i + 1]).to_block == w[i].from_block
        }),
    decreases head,
{
    if head > start_block {
        let from = backfill_start(start_block, head);
        law_backfill_windows_walk_down(start_block, from);
        let rest = backfill_plan(start_block, from);
        let w = backfill_plan(start_block, head);
        let first = BlockWindow { from_block: from, to_block: head };
        assert(w == seq![first] + rest);
        assert forall|i: int| 0 <= i < w.len() implies start_block <= (#[trigger] w[i]).from_block < w[i].to_block
            && w[i].to_block - w[i].from_block <= BACKFILL_SPAN by {
            if i > 0 {
                assert(w[i] == rest[i - 1]);
            }
        }
        assert forall|i: int| 0 <= i < w.len() - 1 implies (#[trigger] w[i + 1]).to_block == w[i].from_block by {
            assert(w[i + 1] == rest[i]);
            if i > 0 {
                assert(w[i] == rest[i - 1]);
                assert(rest[(i - 1) + 1].to_block == rest[i - 1].from_block);
            } else {
                assert(w[0] == first);
                assert(rest.len() > 0);
                assert(rest[0].to_block == from);
            }
        }
        if rest.len() > 0 {
            assert(w.last() == rest.last());
        }
    }
}

/// A log and its retraction (the same log with `removed` set) decode to the
/// same key, amount, donor and transaction, so the retraction upserts onto
/// the record of the first sighting.
pub proof fn law_retraction_decodes_to_same_key(seen: RawLog, retracted: RawLog, d1: DonationDraft, d2: DonationDraft)
    requires
        seen.topics@ == retracted.topics@,
        seen.data@ == retracted.data@,
        seen.transaction_hash == retracted.transaction_hash,
        seen.log_index == retracted.log_index,
        draft_matches(seen, d1),
        draft_matches(retracted, d2),
    ensures
        d1.hash_key@ == d2.hash_key@,
        d1.eth_amount@ == d2.eth_amount@,
        d1.donor_text@ == d2.donor_text@,
        d1.tx_hash@ == d2.tx_hash@,
        d2.removed == retracted.removed,
{
}

/// Upserting a sighting and then its retraction, whether or not the key was
/// stored before, leaves exactly one record under the key: the one stored
/// after the sighting, with only `removed` set; every other record is as it
/// was after the sighting.
pub proof fn law_retraction_marks_removed(s: Seq<DonationRecord>, seen: DonationRecord, retracted: DonationRecord)
    requires
        donation_keys_unique(s),
        retracted.hash_key@ == seen.hash_key@,
        retracted.removed,
    ensures
        ({
            let s1 = upsert_donation(s, seen);
            let t = upsert_donation(s1, retracted);
            &&& t.len() == s1.len()
            &&& exists|i: int| 0 <= i < t.len() && t[i] == with_removed(s1[i], true) && (#[trigger] s1[i]).hash_key@ == seen.hash_key@
                && forall|j: int| 0 <= j < t.len() && j != i ==> t[j] == s1[j] && (#[trigger] t[j]).hash_key@ != seen.hash_key@
        }),
{
    let s1 = upsert_donation(s, seen);
    let k = seen.hash_key@;
    let i0 = if has_donation_key(s, k) {
        choose|i: int| 0 <= i < s.len() && (#[trigger] s[i]).hash_key@ == k
    } else {
        s.len() as int
    };
    assert(s1[i0].hash_key@ == k);
    assert(donation_keys_unique(s1)) by {
        assert forall|a: int, b: int|
            0 <= a < s1.len() && 0 <= b < s1.len() && a != b implies (#[trigger] s1[a]).hash_key@ != (#[trigger] s1[b]).hash_key@ by {
            if has_donation_key(s, k) {
                assert(s1[a].hash_key == s[a].hash_key);
                assert(s1[b].hash_key == s[b].hash_key);
            } else {
                if a == s.len() {
                    assert(s1[b] == s[b]);
                } else if b == s.len() {
                    assert(s1[a] == s[a]);
                } else {
                    assert(s1[a] == s[a] && s1[b] == s[b]);
                }
            }
        }
    }
    assert(has_donation_key(s1, k));
    let i = choose|i: int| 0 <= i < s1.len() && (#[trigger] s1[i]).hash_key@ == k;
    assert(i == i0);
    let t = upsert_donation(s1, retracted);
    assert(t == s1.update(i, with_removed(s1[i], true)));
    assert forall|j: int| 0 <= j < t.len() && j != i implies t[j] == s1[j] && (#[trigger] t[j]).hash_key@ != seen.hash_key@ by {
        assert(t[j] == s1[j]);
    }
    assert(t[i] == with_removed(s1[i], true));
}

} // verus!
