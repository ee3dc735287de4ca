//! Ingestion core of a donation and transfer watcher: content keys, amount
//! formatting, name-service hashing, log decoding, explorer filtering, block
//! windows and an in-memory ledger with insert-once and upsert semantics.
pub mod digest;
pub mod text;
pub mod keys;
pub mod amount;
pub mod ledger;
pub mod address;
pub mod ens;
pub mod donation;
pub mod reconcile;
pub mod scan;
pub mod checker;
pub mod laws;
