//! A verified ledger-pruning engine.
//!
//! The engine incrementally and atomically deletes historical records from a
//! set of version-keyed stores (transactions, write sets, ledger counters,
//! events) held in one key-value database, while recording its progress as a
//! durable checkpoint in the same atomic batch.  The orchestrator
//! [`pruner::LedgerPruner`] coordinates four sub-pruners, each owning one
//! record family, and advances its observable `min_readable_version` only
//! after a successful commit.

use vstd::prelude::*;

pub mod batch;
pub mod block;
pub mod db;
pub mod pruner;
pub mod pruner_metadata;
pub mod response;
pub mod schema;
pub mod state;
pub mod sub_pruner;
pub mod table;

verus! {

/// A monotonically increasing sequence number identifying one committed
/// ledger state.  All version-scoped records are keyed by this value.
pub type Version = u64;

/// Failures surfaced by the pruning engine.  All of them leave both the
/// in-memory progress counters and the database unchanged, so a caller may
/// always retry the same call.
#[derive(Clone, Copy, Debug, PartialEq, Eq, Structural)]
pub enum PrunerError {
    /// The atomic batch commit failed; nothing was persisted.
    CommitFailed,
    /// The persisted checkpoint record exists but cannot be decoded.
    MetadataCorruption,
}

} // verus!
