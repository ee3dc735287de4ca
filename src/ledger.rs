//! The record ledger: transfers are written once per key, donations are
//! upserted by key with only the `removed` flag changing on a later sighting.
use vstd::prelude::*;

verus! {

/// A stored row as it is listed.
pub struct Transfer {
    pub tx_hash: String,
    pub from_address: String,
    pub eth_amount: String,
    pub from_name: String,
}

/// A recorded transfer.
pub struct TransferRecord {
    pub tx_hash: String,
    pub from_address: String,
    pub eth_amount: String,
    pub hash_key: String,
    pub from_name: String,
}

/// A recorded donation.
pub struct DonationRecord {
    pub removed: bool,
    pub tx_hash: String,
    pub log_index: String,
    pub from_address: String,
    pub eth_amount: String,
    pub hash_key: String,
    pub from_name: String,
}

impl DonationRecord {
    /// A field-by-field copy.
    pub fn duplicate(&self) -> (r: DonationRecord)
        ensures
            r == *self,
    {
        DonationRecord {
            removed: self.removed,
            tx_hash: self.tx_hash.clone(),
            log_index: self.log_index.clone(),
            from_address: self.from_address.clone(),
            eth_amount: self.eth_amount.clone(),
            hash_key: self.hash_key.clone(),
            from_name: self.from_name.clone(),
        }
    }
}

/// Why a write was refused.
#[derive(Debug, PartialEq, Eq, Structural)]
pub enum StoreError {
    /// A transfer with the same key is already recorded.
    DuplicateKey,
}

/// Whether some transfer carries the key.
pub open spec fn has_transfer_key(s: Seq<TransferRecord>, k: Seq<char>) -> bool {
    exists|i: int| 0 <= i < s.len() && (#[trigger] s[i]).hash_key@ == k
}

/// Whether some donation carries the key.
pub open spec fn has_donation_key(s: Seq<DonationRecord>, k: Seq<char>) -> bool {
    exists|i: int| 0 <= i < s.len() && (#[trigger] s[i]).hash_key@ == k
}

/// No two transfers share a key.
pub open spec fn transfer_keys_unique(s: Seq<TransferRecord>) -> bool {
    forall|i: int, j: int|
        0 <= i < s.len() && 0 <= j < s.len() && i != j ==> (#[trigger] s[i]).hash_key@ != (#[trigger] s[j]).hash_key@
}

/// No two donations share a key.
pub open spec fn donation_keys_unique(s: Seq<DonationRecord>) -> bool {
    forall|i: int, j: int|
        0 <= i < s.len() && 0 <= j < s.len() && i != j ==> (#[trigger] s[i]).hash_key@ != (#[trigger] s[j]).hash_key@
}

/// The donation with its `removed` flag replaced.
pub open spec fn with_removed(d: DonationRecord, removed: bool) -> DonationRecord {
    DonationRecord {
        removed: removed,
        tx_hash: d.tx_hash,
        log_index: d.log_index,
        from_address: d.from_address,
        eth_amount: d.eth_amount,
        hash_key: d.hash_key,
        from_name: d.from_name,
    }
}

/// The ledger after an upsert: a known key has only its `removed` flag
/// replaced, a new key is appended.
pub open spec fn upsert_donation(s: Seq<DonationRecord>, d: DonationRecord) -> Seq<DonationRecord> {
    if has_donation_key(s, d.hash_key@) {
        let i = choose|i: int| 0 <= i < s.len() && (#[trigger] s[i]).hash_key@ == d.hash_key@;
        s.update(i, with_removed(s[i], d.removed))
    } else {
        s.push(d)
    }
}

/// The ledger after recording a transfer whose key may be known already.
pub open spec fn insert_once(s: Seq<TransferRecord>, t: TransferRecord) -> Seq<TransferRecord> {
    if has_transfer_key(s, t.hash_key@) { s } else { s.push(t) }
}

/// The listing of a transfer.
pub open spec fn transfer_listing(t: TransferRecord) -> Transfer {
    Transfer { tx_hash: t.tx_hash, from_address: t.from_address, eth_amount: t.eth_amount, from_name: t.from_name }
}

/// The listing of a donation.
pub open spec fn donation_listing(d: DonationRecord) -> Transfer {
    Transfer { tx_hash: d.tx_hash, from_address: d.from_address, eth_amount: d.eth_amount, from_name: d.from_name }
}

/// The listings of the donations that are not retracted, in ledger order.
pub open spec fn live_listings(s: Seq<DonationRecord>) -> Seq<Transfer>
    decreases s.len(),
{
    if s.len() == 0 {
        Seq::empty()
    } else if s.last().removed {
        live_listings(s.drop_last())
    } else {
        live_listings(s.drop_last()).push(donation_listing(s.last()))
    }
}

/// An in-memory ledger of transfers and donations.
pub struct DbClient {
    transfers: Vec<TransferRecord>,
    donations: Vec<DonationRecord>,
}

impl DbClient {
    /// The recorded transfers, in order of insertion.
    pub closed spec fn transfer_rows(&self) -> Seq<TransferRecord> {
        self.transfers@
    }

    /// The recorded donations, in order of first insertion.
    pub closed spec fn donation_rows(&self) -> Seq<DonationRecord> {
        self.donations@
    }

    /// Keys are unique in both tables.
    pub open spec fn wf(&self) -> bool {
        transfer_keys_unique(self.transfer_rows()) && donation_keys_unique(self.donation_rows())
    }

    /// An empty ledger.
    pub fn new() -> (r: Self)
        ensures
            r.wf(),
            r.transfer_rows() == Seq::<TransferRecord>::empty(),
            r.donation_rows() == Seq::<DonationRecord>::empty(),
    {
        DbClient { transfers: Vec::new(), donations: Vec::new() }
    }

    /// Whether a transfer with this key is recorded.
    pub fn check_transfer_exists(&self, hash_key: String) -> (r: bool)
        ensures
            r == has_transfer_key(self.transfer_rows(), hash_key@),
    {
        let mut i: usize = 0;
        while i < self.transfers.len()
            invariant
                i <= self.transfers@.len(),
                forall|j: int| 0 <= j < i ==> (#[trigger] self.transfers@[j]).hash_key@ != hash_key@,
            decreases self.transfers@.len() - i,
        {
            if self.transfers[i].hash_key == hash_key {
                return true;
            }
            i = i + 1;
        }
        false
    }

    /// The position of the donation with this key, if any.
    fn find_donation(&self, hash_key: &String) -> (r: Option<usize>)
        ensures
            match r {
                Some(i) => i < self.donations@.len() && self.donations@[i as int].hash_key@ == hash_key@,
                None => !has_donation_key(self.donations@, hash_key@),
            },
    {
        let mut i: usize = 0;
        while i < self.donations.len()
            invariant
                i <= self.donations@.len(),
                forall|j: int| 0 <= j < i ==> (#[trigger] self.donations@[j]).hash_key@ != hash_key@,
            decreases self.donations@.len() - i,
        {
            if self.donations[i].hash_key == *hash_key {
                return Some(i);
            }
            i = i + 1;
        }
        None
    }

    /// Whether a donation with this key is recorded.
    pub fn check_donation_exists(&self, hash_key: String) -> (r: bool)
        ensures
            r == has_donation_key(self.donation_rows(), hash_key@),
    {
        self.find_donation(&hash_key).is_some()
    }

    /// Records a transfer; a key that is already recorded is refused and the
    /// ledger is left as it was.
    pub fn insert_transfer(
        &mut self,
        tx_hash: String,
        from_address: String,
        eth_amount: String,
        hash_key: String,
        from_name: String,
    ) -> (r: Result<(), StoreError>)
        requires
            old(self).wf(),
        ensures
            final(self).wf(),
            final(self).donation_rows() == old(self).donation_rows(),
            r is Err <==> has_transfer_key(old(self).transfer_rows(), hash_key@),
            r is Err ==> final(self).transfer_rows() == old(self).transfer_rows(),
            r is Ok ==> final(self).transfer_rows() == old(self).transfer_rows().push(
                TransferRecord { tx_hash, from_address, eth_amount, hash_key, from_name },
            ),
            final(self).transfer_rows() == insert_once(
                old(self).transfer_rows(),
                TransferRecord { tx_hash, from_address, eth_amount, hash_key, from_name },
            ),
    {
        if self.check_transfer_exists(hash_key.clone()) {
            return Err(StoreError::DuplicateKey);
        }
        let rec = TransferRecord { tx_hash, from_address, eth_amount, hash_key, from_name };
        self.transfers.push(rec);
        proof {
            let s = self.transfers@;
            assert forall|i: int, j: int|
                0 <= i < s.len() && 0 <= j < s.len() && i != j implies (#[trigger] s[i]).hash_key@ != (#[trigger] s[j]).hash_key@ by {
                if i == s.len() - 1 {
                    assert(s[j] == old(self).transfers@[j]);
                } else if j == s.len() - 1 {
                    assert(s[i] == old(self).transfers@[i]);
                } else {
                    assert(s[i] == old(self).transfers@[i]);
                    assert(s[j] == old(self).transfers@[j]);
                }
            }
        }
        Ok(())
    }

    /// Records a donation, or, where its key is known, replaces only the
    /// `removed` flag of the recorded one.
    pub fn insert_donation(
        &mut self,
        removed: bool,
        tx_hash: String,
        log_index: String,
        from_address: String,
        eth_amount: String,
        hash_key: String,
        from_name: String,
    ) -> (r: Result<(), StoreError>)
        requires
            old(self).wf(),
        ensures
            final(self).wf(),
            r is Ok,
            final(self).transfer_rows() == old(self).transfer_rows(),
            final(self).donation_rows() == upsert_donation(
                old(self).donation_rows(),
                DonationRecord { removed, tx_hash, log_index, from_address, eth_amount, hash_key, from_name },
            ),
    {
        let ghost d = DonationRecord {
            removed,
            tx_hash: tx_hash,
            log_index: log_index,
            from_address: from_address,
            eth_amount: eth_amount,
            hash_key: hash_key,
            from_name: from_name,
        };
        let ghost s = self.donations@;
        match self.find_donation(&hash_key) {
            Some(i) => {
                let old_rec = self.donations.remove(i);
                let rec = DonationRecord {
                    removed,
                    tx_hash: old_rec.tx_hash,
                    log_index: old_rec.log_index,
                    from_address: old_rec.from_address,
                    eth_amount: old_rec.eth_amount,
                    hash_key: old_rec.hash_key,
                    from_name: old_rec.from_name,
                };
                self.donations.insert(i, rec);
                proof {
                    let j = choose|j: int| 0 <= j < s.len() && (#[trigger] s[j]).hash_key@ == d.hash_key@;
                    assert(s[i as int].hash_key@ == d.hash_key@);
                    assert(j == i);
                    assert(self.donations@ =~= s.update(i as int, with_removed(s[i as int], removed)));
                    let t = self.donations@;
                    assert forall|a: int, b: int|
                        0 <= a < t.len() && 0 <= b < t.len() && a != b implies (#[trigger] t[a]).hash_key@ != (#[trigger] t[b]).hash_key@ by {
                        assert(t[a].hash_key == s[a].hash_key);
                        assert(t[b].hash_key == s[b].hash_key);
                    }
                }
            },
            None => {
                let rec = DonationRecord { removed, tx_hash, log_index, from_address, eth_amount, hash_key, from_name };
                self.donations.push(rec);
                proof {
                    let t = self.donations@;
                    assert forall|a: int, b: int|
                        0 <= a < t.len() && 0 <= b < t.len() && a != b implies (#[trigger] t[a]).hash_key@ != (#[trigger] t[b]).hash_key@ by {
                        if a == t.len() - 1 {
                            assert(t[b] == s[b]);
                        } else if b == t.len() - 1 {
                            assert(t[a] == s[a]);
                        } else {
                            assert(t[a] == s[a]);
                            assert(t[b] == s[b]);
                        }
                    }
                }
            },
        }
        Ok(())
    }

    /// Every recorded transfer, in order of insertion.
    pub fn get_transfers(&self) -> (r: Vec<Transfer>)
        ensures
            r@ == self.transfer_rows().map_values(|t: TransferRecord| transfer_listing(t)),
    {
        let mut out: Vec<Transfer> = Vec::new();
        let mut i: usize = 0;
        while i < self.transfers.len()
            invariant
                i <= self.transfers@.len(),
                out@ == self.transfers@.subrange(0, i as int).map_values(|t: TransferRecord| transfer_listing(t)),
            decreases self.transfers@.len() - i,
        {
            let t = &self.transfers[i];
            out.push(Transfer {
                tx_hash: t.tx_hash.clone(),
                from_address: t.from_address.clone(),
                eth_amount: t.eth_amount.clone(),
                from_name: t.from_name.clone(),
            });
            i = i + 1;
            assert(out@ =~= self.transfers@.subrange(0, i as int).map_values(|t: TransferRecord| transfer_listing(t)));
        }
        assert(self.transfers@.subrange(0, self.transfers@.len() as int) == self.transfers@);
        out
    }

    /// The donations that are not retracted, in ledger order.
    pub fn get_donations(&self) -> (r: Vec<Transfer>)
        ensures
            r@ == live_listings(self.donation_rows()),
    {
        let mut out: Vec<Transfer> = Vec::new();
        let mut i: usize = 0;
        while i < self.donations.len()
            invariant
                i <= self.donations@.len(),
                out@ == live_listings(self.donations@.subrange(0, i as int)),
            decreases self.donations@.len() - i,
        {
            let d = &self.donations[i];
            assert(self.donations@.subrange(0, i + 1).drop_last() == self.donations@.subrange(0, i as int));
            if !d.removed {
                out.push(Transfer {
                    tx_hash: d.tx_hash.clone(),
                    from_address: d.from_address.clone(),
                    eth_amount: d.eth_amount.clone(),
                    from_name: d.from_name.clone(),
                });
            }
            i = i + 1;
        }
        assert(self.donations@.subrange(0, self.donations@.len() as int) == self.donations@);
        out
    }
}

} // verus!
