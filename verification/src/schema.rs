//! Typed keys of the ledger database.
//!
//! Every record family scoped by a version keys its records by that version;
//! in addition there is one checkpoint record per pruner tag.  No two record
//! families share a key.

use vstd::prelude::*;

use crate::pruner_metadata::PrunerTag;

verus! {

/// One of the four version-keyed record families that the ledger pruner
/// manages.  Each family is owned by exactly one sub-pruner.
#[derive(Clone, Copy, Debug, PartialEq, Eq, Structural)]
pub enum StoreFamily {
    Transaction,
    WriteSet,
    LedgerCounter,
    Event,
}

/// A typed key of the ledger database: a versioned record of one family, or
/// the persisted checkpoint of one pruner.
#[derive(Clone, Copy, Debug, PartialEq, Eq, Structural)]
pub enum LedgerKey {
    Transaction(u64),
    WriteSet(u64),
    LedgerCounter(u64),
    Event(u64),
    PrunerMetadata(PrunerTag),
}

/// The key under which records of `family` at `version` are stored.
pub open spec fn family_key(family: StoreFamily, version: u64) -> LedgerKey {
    match family {
        StoreFamily::Transaction => LedgerKey::Transaction(version),
        StoreFamily::WriteSet => LedgerKey::WriteSet(version),
        StoreFamily::LedgerCounter => LedgerKey::LedgerCounter(version),
        StoreFamily::Event => LedgerKey::Event(version),
    }
}

/// Executable counterpart of [`family_key`].
pub fn make_family_key(family: StoreFamily, version: u64) -> (k: LedgerKey)
    ensures
        k == family_key(family, version),
{
    match family {
        StoreFamily::Transaction => LedgerKey::Transaction(version),
        StoreFamily::WriteSet => LedgerKey::WriteSet(version),
        StoreFamily::LedgerCounter => LedgerKey::LedgerCounter(version),
        StoreFamily::Event => LedgerKey::Event(version),
    }
}

/// Whether `k` belongs to one of the version-keyed record families (as
/// opposed to a pruner checkpoint record).
pub open spec fn is_record_key(k: LedgerKey) -> bool {
    !(k matches LedgerKey::PrunerMetadata(_))
}

/// The family a record key belongs to.  Meaningful only for record keys.
pub open spec fn record_family(k: LedgerKey) -> StoreFamily {
    match k {
        LedgerKey::Transaction(_) => StoreFamily::Transaction,
        LedgerKey::WriteSet(_) => StoreFamily::WriteSet,
        LedgerKey::LedgerCounter(_) => StoreFamily::LedgerCounter,
        LedgerKey::Event(_) => StoreFamily::Event,
        LedgerKey::PrunerMetadata(_) => StoreFamily::Transaction,
    }
}

/// The version a record key is scoped by.  Meaningful only for record keys.
pub open spec fn record_version(k: LedgerKey) -> u64 {
    match k {
        LedgerKey::Transaction(v) => v,
        LedgerKey::WriteSet(v) => v,
        LedgerKey::LedgerCounter(v) => v,
        LedgerKey::Event(v) => v,
        LedgerKey::PrunerMetadata(_) => 0,
    }
}

/// Whether `k` is a versioned record with `start <= version < end`.
pub open spec fn record_key_in_range(k: LedgerKey, start: u64, end: u64) -> bool {
    is_record_key(k) && start <= record_version(k) < end
}

/// Every record key is the family key of its own family and version.
pub proof fn lemma_record_key_form(k: LedgerKey)
    requires
        is_record_key(k),
    ensures
        k == family_key(record_family(k), record_version(k)),
{
}

} // verus!
