//! The sub-pruner contract and the four concrete sub-pruners.
//!
//! A sub-pruner owns the deletion logic for exactly one record family.  Its
//! one operation stages deletions for a version range into a shared batch and
//! never commits anything itself; durability is the orchestrator's job.
//! Staging is pure: for the same database contents and range, the same
//! deletions are staged every time, which is what makes a retry after a
//! failed commit safe.

use vstd::prelude::*;

use crate::batch::{deletes_from, is_present_range_delete, OpModel, SchemaBatch};
use crate::db::LedgerDb;
use crate::schema::{family_key, record_family, LedgerKey, StoreFamily};
use crate::PrunerError;

verus! {

/// Whether `op` deletes a key of `family` with version in `[start, end)`
/// that is present in `m`.
pub open spec fn is_family_range_delete(
    op: OpModel,
    family: StoreFamily,
    start: u64,
    end: u64,
    m: Map<LedgerKey, Seq<u8>>,
) -> bool {
    is_present_range_delete(op, start, end, m) && (op matches OpModel::Delete(k) ==> record_family(
        k,
    ) == family)
}

/// The contract every sub-pruner implements: stage into `batch` the deletion
/// of exactly those records of its own family whose version lies in
/// `[start_version, end_version)`, purely additively.  With `start_version
/// == end_version` this is a no-op.
pub trait DbSubPruner {
    /// The record family this sub-pruner owns.
    spec fn family(&self) -> StoreFamily;

    /// Stages this family's deletions for `[start_version, end_version)`.
    fn prune(
        &self,
        db: &LedgerDb,
        batch: &mut SchemaBatch,
        start_version: u64,
        end_version: u64,
    ) -> (r: Result<(), PrunerError>)
        requires
            db.wf(),
            start_version <= end_version,
        ensures
            r is Ok,
            old(batch)@.is_prefix_of(final(batch)@),
            forall|i: int|
                old(batch)@.len() <= i < final(batch)@.len() ==> is_family_range_delete(
                    #[trigger] final(batch)@[i],
                    self.family(),
                    start_version,
                    end_version,
                    db@,
                ),
            forall|v: u64|
                start_version <= v < end_version && db@.contains_key(
                    #[trigger] family_key(self.family(), v),
                ) ==> deletes_from(
                    final(batch)@,
                    old(batch)@.len() as int,
                    family_key(self.family(), v),
                ),
    ;
}

/// Stages the deletion of every record of `family` with version in
/// `[start_version, end_version)` that the database currently holds.  Shared
/// by all four sub-pruners, which differ only in their family.
fn stage_family_deletions(
    family: StoreFamily,
    db: &LedgerDb,
    batch: &mut SchemaBatch,
    start_version: u64,
    end_version: u64,
)
    requires
        db.wf(),
        start_version <= end_version,
    ensures
        old(batch)@.is_prefix_of(final(batch)@),
        forall|i: int|
            old(batch)@.len() <= i < final(batch)@.len() ==> is_family_range_delete(
                #[trigger] final(batch)@[i],
                family,
                start_version,
                end_version,
                db@,
            ),
        forall|v: u64|
            start_version <= v < end_version && db@.contains_key(
                #[trigger] family_key(family, v),
            ) ==> deletes_from(final(batch)@, old(batch)@.len() as int, family_key(family, v)),
{
    let ghost n0 = batch@.len() as int;
    let versions = db.family_versions_in_range(family, start_version, end_version);
    let m = versions.len();
    let mut i: usize = 0;
    while i < m
        invariant
            db.wf(),
            m == versions@.len(),
            i <= m,
            n0 == old(batch)@.len(),
            old(batch)@.is_prefix_of(batch@),
            batch@.len() == n0 + i,
            forall|v: u64|
                versions@.contains(v) <==> (start_version <= v < end_version && db@.contains_key(
                    #[trigger] family_key(family, v),
                )),
            forall|j: int|
                0 <= j < i ==> batch@[n0 + j] == OpModel::Delete(
                    family_key(family, #[trigger] versions@[j]),
                ),
        decreases m - i,
    {
        let v = versions[i];
        let key = crate::schema::make_family_key(family, v);
        batch.delete(key);
        proof {
            assert(versions@.contains(versions@[i as int]));
            assert(old(batch)@.is_prefix_of(batch@)) by {
                assert(old(batch)@ =~= batch@.subrange(0, n0));
            }
        }
        i += 1;
    }
    proof {
        assert forall|k: int| n0 <= k < batch@.len() implies is_family_range_delete(
            #[trigger] batch@[k],
            family,
            start_version,
            end_version,
            db@,
        ) by {
            let j = k - n0;
            assert(batch@[n0 + j] == OpModel::Delete(family_key(family, versions@[j])));
            assert(versions@.contains(versions@[j]));
        }
        assert forall|v: u64|
            start_version <= v < end_version && db@.contains_key(
                #[trigger] family_key(family, v),
            ) implies deletes_from(batch@, n0, family_key(family, v)) by {
            assert(versions@.contains(v));
            let j = choose|j: int| 0 <= j < versions@.len() && versions@[j] == v;
            assert(batch@[n0 + j] == OpModel::Delete(family_key(family, v)));
        }
    }
}

/// Prunes the transaction store: transaction records keyed by version.
pub struct TransactionStorePruner {}

impl TransactionStorePruner {
    pub fn new() -> (p: TransactionStorePruner)
        ensures
            p.family() == StoreFamily::Transaction,
    {
        TransactionStorePruner {  }
    }
}

impl DbSubPruner for TransactionStorePruner {
    open spec fn family(&self) -> StoreFamily {
        StoreFamily::Transaction
    }

    fn prune(
        &self,
        db: &LedgerDb,
        batch: &mut SchemaBatch,
        start_version: u64,
        end_version: u64,
    ) -> (r: Result<(), PrunerError>) {
        stage_family_deletions(StoreFamily::Transaction, db, batch, start_version, end_version);
        Ok(())
    }
}

/// Prunes the write-set store: write-set diffs keyed by version.
pub struct WriteSetPruner {}

impl WriteSetPruner {
    pub fn new() -> (p: WriteSetPruner)
        ensures
            p.family() == StoreFamily::WriteSet,
    {
        WriteSetPruner {  }
    }
}

impl DbSubPruner for WriteSetPruner {
    open spec fn family(&self) -> StoreFamily {
        StoreFamily::WriteSet
    }

    fn prune(
        &self,
        db: &LedgerDb,
        batch: &mut SchemaBatch,
        start_version: u64,
        end_version: u64,
    ) -> (r: Result<(), PrunerError>) {
        stage_family_deletions(StoreFamily::WriteSet, db, batch, start_version, end_version);
        Ok(())
    }
}

/// Prunes the derived ledger-counter store: counters keyed by version.
pub struct LedgerCounterPruner {}

impl LedgerCounterPruner {
    pub fn new() -> (p: LedgerCounterPruner)
        ensures
            p.family() == StoreFamily::LedgerCounter,
    {
        LedgerCounterPruner {  }
    }
}

impl DbSubPruner for LedgerCounterPruner {
    open spec fn family(&self) -> StoreFamily {
        StoreFamily::LedgerCounter
    }

    fn prune(
        &self,
        db: &LedgerDb,
        batch: &mut SchemaBatch,
        start_version: u64,
        end_version: u64,
    ) -> (r: Result<(), PrunerError>) {
        stage_family_deletions(StoreFamily::LedgerCounter, db, batch, start_version, end_version);
        Ok(())
    }
}

/// Prunes the event store: event lists keyed by version.
pub struct EventStorePruner {}

impl EventStorePruner {
    pub fn new() -> (p: EventStorePruner)
        ensures
            p.family() == StoreFamily::Event,
    {
        EventStorePruner {  }
    }
}

impl DbSubPruner for EventStorePruner {
    open spec fn family(&self) -> StoreFamily {
        StoreFamily::Event
    }

    fn prune(
        &self,
        db: &LedgerDb,
        batch: &mut SchemaBatch,
        start_version: u64,
        end_version: u64,
    ) -> (r: Result<(), PrunerError>) {
        stage_family_deletions(StoreFamily::Event, db, batch, start_version, end_version);
        Ok(())
    }
}

} // verus!
