//! A lazily populated, write-through cache over remote ledger state.
//!
//! `fork_db` holds the consumer-facing cache: it answers account, storage and
//! block-hash queries from a local overlay first and falls back to a remote
//! source on a miss, memoizing what it learns. `provider` holds the logic of
//! the request bridge that serializes concurrent callers' requests into a
//! single worker. `primitives` holds the plain word types that both speak of.

pub mod fork_db;
pub mod primitives;
pub mod provider;
pub mod store;
