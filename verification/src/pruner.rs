//! The orchestrator: the ledger pruner.
//!
//! [`LedgerPruner`] coordinates the four sub-pruners plus one checkpoint
//! write into a single atomic batch, and owns the externally visible
//! progress state: `target_version`, the ceiling below which it may prune,
//! and `min_readable_version`, the inclusive lower bound of versions
//! guaranteed still present.  `min_readable_version` advances only after a
//! successful commit, and only to a value that the same commit has persisted
//! as the new checkpoint, so a restart resumes exactly where pruning left
//! off.

use vstd::math::min;
use vstd::prelude::*;

use crate::batch::{
    delete_only_from, deleted_keys_from, deletes_from, is_present_range_delete,
    lemma_apply_batch_delete_only, lemma_apply_batch_push, lemma_deletes_from_prefix,
    lemma_deletes_from_weaken, lemma_prefix_index, lemma_prefix_transitive, OpModel, SchemaBatch,
};
use crate::db::LedgerDb;
use crate::pruner_metadata::{
    decode_pruner_metadata, encode_pruner_metadata, lemma_pruner_metadata_round_trip,
    spec_decode_pruner_metadata, spec_encode_pruner_metadata, PrunerMetadata, PrunerTag,
};
use crate::schema::{
    lemma_record_key_form, record_family, record_key_in_range, record_version, LedgerKey,
    StoreFamily,
};
use crate::sub_pruner::{
    is_family_range_delete, DbSubPruner, EventStorePruner, LedgerCounterPruner,
    TransactionStorePruner, WriteSetPruner,
};
use crate::{PrunerError, Version};

verus! {

/// The key under which the ledger pruner's checkpoint is persisted.
pub open spec fn ledger_meta_key() -> LedgerKey {
    LedgerKey::PrunerMetadata(PrunerTag::LedgerPruner)
}

/// Whether the persisted checkpoint record, if present, decodes.
pub open spec fn metadata_wf(m: Map<LedgerKey, Seq<u8>>) -> bool {
    m.contains_key(ledger_meta_key()) ==> spec_decode_pruner_metadata(
        m[ledger_meta_key()],
    ) is Some
}

/// The min readable version a fresh orchestrator reads back from the
/// database: the persisted checkpoint, or zero if none exists (nothing
/// pruned yet).
pub open spec fn spec_initial_min(m: Map<LedgerKey, Seq<u8>>) -> Version {
    if m.contains_key(ledger_meta_key()) {
        match spec_decode_pruner_metadata(m[ledger_meta_key()]) {
            Some(PrunerMetadata::LatestVersion(v)) => v,
            None => 0,
        }
    } else {
        0
    }
}

/// The bounded target of one prune call: the externally set ceiling, capped
/// so that at most `max_versions` versions are processed in one go.
pub open spec fn spec_batch_target(target: u64, min_readable: u64, max_versions: u64) -> int {
    min(target as int, min_readable + max_versions)
}

/// The database contents after a successful prune of `[start, end)`: every
/// record of every family with version in the window is gone, and the
/// checkpoint records `end`; nothing else changes.
pub open spec fn pruned_db(m: Map<LedgerKey, Seq<u8>>, start: u64, end: u64) -> Map<
    LedgerKey,
    Seq<u8>,
> {
    m.remove_keys(Set::new(|k: LedgerKey| record_key_in_range(k, start, end))).insert(
        ledger_meta_key(),
        spec_encode_pruner_metadata(PrunerMetadata::LatestVersion(end)),
    )
}

/// Cross-store consistency, first half: after a prune of `[start, end)`, a
/// scan of any family for a version inside the window finds nothing.
pub proof fn lemma_pruned_db_in_window(m: Map<LedgerKey, Seq<u8>>, start: u64, end: u64, k: LedgerKey)
    requires
        record_key_in_range(k, start, end),
    ensures
        !pruned_db(m, start, end).contains_key(k),
{
    assert(Set::new(|k2: LedgerKey| record_key_in_range(k2, start, end)).contains(k));
}

/// Cross-store consistency, second half: a prune of `[start, end)` touches
/// no key outside the window other than its own checkpoint record.
pub proof fn lemma_pruned_db_outside_window(
    m: Map<LedgerKey, Seq<u8>>,
    start: u64,
    end: u64,
    k: LedgerKey,
)
    requires
        !record_key_in_range(k, start, end),
        k != ledger_meta_key(),
    ensures
        pruned_db(m, start, end).contains_key(k) == m.contains_key(k),
        m.contains_key(k) ==> pruned_db(m, start, end)[k] == m[k],
{
    assert(!Set::new(|k2: LedgerKey| record_key_in_range(k2, start, end)).contains(k));
}

/// Idempotent resume: the checkpoint written by a prune to `end` reads back
/// as `end`, so a fresh orchestrator constructed against the pruned database
/// initializes its min readable version to exactly `end`.
pub proof fn lemma_pruned_db_checkpoint(m: Map<LedgerKey, Seq<u8>>, start: u64, end: u64)
    ensures
        metadata_wf(pruned_db(m, start, end)),
        spec_initial_min(pruned_db(m, start, end)) == end,
{
    lemma_pruner_metadata_round_trip(PrunerMetadata::LatestVersion(end));
}

/// The orchestrator.  Responsible for pruning everything except the state
/// tree: it owns the four sub-pruners and the checkpoint protocol.
///
/// One instance is driven by a single loop; calls to [`LedgerPruner::prune`]
/// on one instance must be serialized by the caller.
pub struct LedgerPruner {
    target_version: u64,
    min_readable_version: u64,
    transaction_store_pruner: TransactionStorePruner,
    event_store_pruner: EventStorePruner,
    write_set_pruner: WriteSetPruner,
    ledger_counter_pruner: LedgerCounterPruner,
}

impl LedgerPruner {
    /// The ceiling below which pruning is currently permitted.
    pub closed spec fn spec_target(&self) -> u64 {
        self.target_version
    }

    /// The inclusive lower bound of versions guaranteed still present.
    pub closed spec fn spec_min_readable(&self) -> u64 {
        self.min_readable_version
    }

    /// The name this pruner reports itself under.
    pub fn name(&self) -> (r: &'static str)
        ensures
            r@ == "ledger_pruner"@,
    {
        "ledger_pruner"
    }

    /// Constructs the orchestrator against an already-open database and
    /// initializes its min readable version from the persisted checkpoint
    /// (zero if none exists).  Fails only on a checkpoint record that does
    /// not decode.
    pub fn new(db: &LedgerDb) -> (r: Result<LedgerPruner, PrunerError>)
        requires
            db.wf(),
        ensures
            metadata_wf(db@) ==> (r matches Ok(p) && p.spec_min_readable() == spec_initial_min(db@)
                && p.spec_target() == 0),
            !metadata_wf(db@) ==> r == Err::<LedgerPruner, PrunerError>(
                PrunerError::MetadataCorruption,
            ),
    {
        let mut pruner = LedgerPruner {
            target_version: 0,
            min_readable_version: 0,
            ledger_counter_pruner: LedgerCounterPruner::new(),
            transaction_store_pruner: TransactionStorePruner::new(),
            event_store_pruner: EventStorePruner::new(),
            write_set_pruner: WriteSetPruner::new(),
        };
        let min_readable = match pruner.initialize_min_readable_version(db) {
            Ok(v) => v,
            Err(e) => {
                return Err(e);
            },
        };
        pruner.record_progress(min_readable);
        Ok(pruner)
    }

    /// Reads the persisted checkpoint; zero if none exists.  Called exactly
    /// once, at construction.
    pub fn initialize_min_readable_version(&self, db: &LedgerDb) -> (r: Result<
        Version,
        PrunerError,
    >)
        requires
            db.wf(),
        ensures
            metadata_wf(db@) ==> r == Ok::<Version, PrunerError>(spec_initial_min(db@)),
            !metadata_wf(db@) ==> r == Err::<Version, PrunerError>(PrunerError::MetadataCorruption),
    {
        let key = LedgerKey::PrunerMetadata(PrunerTag::LedgerPruner);
        match db.get(&key) {
            None => Ok(0),
            Some(bytes) => match decode_pruner_metadata(bytes) {
                Some(PrunerMetadata::LatestVersion(version)) => Ok(version),
                None => Err(PrunerError::MetadataCorruption),
            },
        }
    }

    /// The current min readable version.
    pub fn min_readable_version(&self) -> (v: Version)
        ensures
            v == self.spec_min_readable(),
    {
        self.min_readable_version
    }

    /// The current target version.
    pub fn target_version(&self) -> (v: Version)
        ensures
            v == self.spec_target(),
    {
        self.target_version
    }

    /// Raises (or lowers) the ceiling below which pruning is permitted.
    /// Always legal, any number of times; set by the retention policy.
    pub fn set_target_version(&mut self, target_version: Version)
        ensures
            final(self).spec_target() == target_version,
            final(self).spec_min_readable() == old(self).spec_min_readable(),
    {
        self.target_version = target_version;
    }

    /// Whether there is pending work below the target.
    pub fn is_pruning_pending(&self) -> (r: bool)
        ensures
            r == (self.spec_min_readable() < self.spec_target()),
    {
        self.target_version() > self.min_readable_version()
    }

    /// Updates the in-memory min readable version.  Only ever called after a
    /// durable commit has succeeded for `min_readable_version`; publishing
    /// the value to a telemetry gauge is the embedding's job.
    pub fn record_progress(&mut self, min_readable_version: Version)
        ensures
            final(self).spec_min_readable() == min_readable_version,
            final(self).spec_target() == old(self).spec_target(),
    {
        self.min_readable_version = min_readable_version;
    }

    /// (For tests only.)  Updates the minimal readable version kept by the
    /// pruner, bypassing the durability protocol.  Must not be reachable
    /// from production code paths.
    pub fn testonly_update_min_version(&mut self, version: Version)
        ensures
            final(self).spec_min_readable() == version,
            final(self).spec_target() == old(self).spec_target(),
    {
        self.min_readable_version = version;
    }

    /// The target of the current batch: the ceiling, capped so that at most
    /// `max_versions` versions are pruned in one go.
    fn current_batch_target(&self, max_versions: u64) -> (v: u64)
        ensures
            v as int == spec_batch_target(self.spec_target(), self.spec_min_readable(), max_versions),
    {
        if self.target_version <= self.min_readable_version {
            self.target_version
        } else {
            let gap = self.target_version - self.min_readable_version;
            if max_versions >= gap {
                self.target_version
            } else {
                self.min_readable_version + max_versions
            }
        }
    }

    /// Stages into `db_batch` the deletions of every sub-pruner for the
    /// window from the current min readable version up to the bounded
    /// target, in a fixed order, and returns that target.  Stages only;
    /// commits nothing.
    fn prune_inner(&self, db: &LedgerDb, max_versions: u64, db_batch: &mut SchemaBatch) -> (r:
        Result<Version, PrunerError>)
        requires
            db.wf(),
            self.spec_min_readable() <= self.spec_target(),
        ensures
            r matches Ok(v) && {
                &&& v as int == spec_batch_target(
                    self.spec_target(),
                    self.spec_min_readable(),
                    max_versions,
                )
                &&& old(db_batch)@.is_prefix_of(final(db_batch)@)
                &&& forall|i: int|
                    old(db_batch)@.len() <= i < final(db_batch)@.len()
                        ==> is_present_range_delete(
                        #[trigger] final(db_batch)@[i],
                        self.spec_min_readable(),
                        v,
                        db@,
                    )
                &&& forall|k: LedgerKey|
                    record_key_in_range(k, self.spec_min_readable(), v) && #[trigger] db@.contains_key(
                        k,
                    ) ==> deletes_from(final(db_batch)@, old(db_batch)@.len() as int, k)
            },
    {
        let min_readable_version = self.min_readable_version();

        // The current target may be less than the target version, to ensure
        // no more than `max_versions` versions are pruned in one go.
        let current_target_version = self.current_batch_target(max_versions);
        let ghost lo = min_readable_version;
        let ghost hi = current_target_version;
        let ghost b0 = db_batch@;

        match self.transaction_store_pruner.prune(
            db,
            db_batch,
            min_readable_version,
            current_target_version,
        ) {
            Ok(_) => {},
            Err(e) => {
                return Err(e);
            },
        }
        let ghost b1 = db_batch@;
        match self.write_set_pruner.prune(
            db,
            db_batch,
            min_readable_version,
            current_target_version,
        ) {
            Ok(_) => {},
            Err(e) => {
                return Err(e);
            },
        }
        let ghost b2 = db_batch@;
        match self.ledger_counter_pruner.prune(
            db,
            db_batch,
            min_readable_version,
            current_target_version,
        ) {
            Ok(_) => {},
            Err(e) => {
                return Err(e);
            },
        }
        let ghost b3 = db_batch@;
        match self.event_store_pruner.prune(
            db,
            db_batch,
            min_readable_version,
            current_target_version,
        ) {
            Ok(_) => {},
            Err(e) => {
                return Err(e);
            },
        }
        let ghost b4 = db_batch@;

        proof {
            lemma_prefix_transitive(b1, b2, b3);
            lemma_prefix_transitive(b1, b3, b4);
            lemma_prefix_transitive(b2, b3, b4);
            lemma_prefix_transitive(b0, b1, b4);

            assert forall|i: int| b0.len() <= i < b4.len() implies is_present_range_delete(
                #[trigger] b4[i],
                lo,
                hi,
                db@,
            ) by {
                if i < b1.len() {
                    lemma_prefix_index(b1, b4, i);
                    assert(is_family_range_delete(b1[i], StoreFamily::Transaction, lo, hi, db@));
                } else if i < b2.len() {
                    lemma_prefix_index(b2, b4, i);
                    assert(is_family_range_delete(b2[i], StoreFamily::WriteSet, lo, hi, db@));
                } else if i < b3.len() {
                    lemma_prefix_index(b3, b4, i);
                    assert(is_family_range_delete(b3[i], StoreFamily::LedgerCounter, lo, hi, db@));
                } else {
                    assert(is_family_range_delete(b4[i], StoreFamily::Event, lo, hi, db@));
                }
            }

            assert forall|k: LedgerKey|
                record_key_in_range(k, lo, hi) && #[trigger] db@.contains_key(k) implies
                deletes_from(b4, b0.len() as int, k) by {
                lemma_record_key_form(k);
                let ver = record_version(k);
                match record_family(k) {
                    StoreFamily::Transaction => {
                        assert(db@.contains_key(
                            crate::schema::family_key(StoreFamily::Transaction, ver),
                        ));
                        assert(deletes_from(b1, b0.len() as int, k));
                        lemma_deletes_from_prefix(b1, b4, b0.len() as int, k);
                    },
                    StoreFamily::WriteSet => {
                        assert(db@.contains_key(
                            crate::schema::family_key(StoreFamily::WriteSet, ver),
                        ));
                        assert(deletes_from(b2, b1.len() as int, k));
                        lemma_deletes_from_prefix(b2, b4, b1.len() as int, k);
                        lemma_deletes_from_weaken(b4, b1.len() as int, b0.len() as int, k);
                    },
                    StoreFamily::LedgerCounter => {
                        assert(db@.contains_key(
                            crate::schema::family_key(StoreFamily::LedgerCounter, ver),
                        ));
                        assert(deletes_from(b3, b2.len() as int, k));
                        lemma_deletes_from_prefix(b3, b4, b2.len() as int, k);
                        lemma_deletes_from_weaken(b4, b2.len() as int, b0.len() as int, k);
                    },
                    StoreFamily::Event => {
                        assert(db@.contains_key(crate::schema::family_key(StoreFamily::Event, ver)));
                        assert(deletes_from(b4, b3.len() as int, k));
                        lemma_deletes_from_weaken(b4, b3.len() as int, b0.len() as int, k);
                    },
                }
            }
        }

        Ok(current_target_version)
    }

    /// One bounded, atomic pruning step.
    ///
    /// With no pending work this is a no-op fast path: it performs zero
    /// writes and returns the current min readable version unchanged, for
    /// any `max_versions`.  Otherwise it stages every sub-pruner's deletions
    /// for the window from the current min readable version up to the
    /// bounded target, stages the new checkpoint, commits all of it
    /// atomically, and only then advances the observable min readable
    /// version — which thus never decreases and never exceeds the target as
    /// observed at the start of the call.  If the commit fails, nothing has
    /// changed, in memory or in the database, and the identical call may be
    /// retried.
    pub fn prune(&mut self, db: &mut LedgerDb, max_versions: usize) -> (r: Result<
        Version,
        PrunerError,
    >)
        requires
            old(db).wf(),
        ensures
            final(db).wf(),
            final(db).commit_failure() == old(db).commit_failure(),
            final(self).spec_target() == old(self).spec_target(),
            final(self).spec_min_readable() >= old(self).spec_min_readable(),
            r matches Err(e) ==> {
                &&& e == PrunerError::CommitFailed
                &&& old(self).spec_min_readable() < old(self).spec_target()
                &&& old(db).commit_failure()
                &&& *final(self) == *old(self)
                &&& final(db)@ == old(db)@
            },
            r matches Ok(v) ==> {
                &&& final(self).spec_min_readable() == v
                &&& if old(self).spec_min_readable() >= old(self).spec_target() {
                    &&& v == old(self).spec_min_readable()
                    &&& *final(self) == *old(self)
                    &&& final(db)@ == old(db)@
                } else {
                    &&& !old(db).commit_failure()
                    &&& v as int == spec_batch_target(
                        old(self).spec_target(),
                        old(self).spec_min_readable(),
                        max_versions as u64,
                    )
                    &&& old(self).spec_min_readable() <= v <= old(self).spec_target()
                    &&& v - old(self).spec_min_readable() == min(
                        max_versions as int,
                        old(self).spec_target() - old(self).spec_min_readable(),
                    )
                    &&& final(db)@ == pruned_db(old(db)@, old(self).spec_min_readable(), v)
                    &&& metadata_wf(final(db)@)
                    &&& spec_initial_min(final(db)@) == v
                }
            },
    {
        if !self.is_pruning_pending() {
            return Ok(self.min_readable_version());
        }

        // Collect the staged writes of every sub-pruner.
        let mut db_batch = SchemaBatch::new();
        let current_target_version = match self.prune_inner(
            db,
            max_versions as u64,
            &mut db_batch,
        ) {
            Ok(v) => v,
            Err(e) => {
                return Err(e);
            },
        };
        let ghost lo = self.spec_min_readable();
        let ghost dels = db_batch@;
        let meta_value = encode_pruner_metadata(
            &PrunerMetadata::LatestVersion(current_target_version),
        );
        db_batch.put(LedgerKey::PrunerMetadata(PrunerTag::LedgerPruner), meta_value);
        let ghost ops = db_batch@;
        let ghost m0 = db@;

        // Commit all the changes to the database atomically.
        match db.write_batch(db_batch) {
            Ok(_) => {},
            Err(e) => {
                return Err(e);
            },
        }

        proof {
            assert(delete_only_from(dels, 0)) by {
                assert(forall|i: int|
                    0 <= i < dels.len() ==> is_present_range_delete(
                        #[trigger] dels[i],
                        lo,
                        current_target_version,
                        m0,
                    ));
            }
            lemma_apply_batch_push(
                m0,
                dels,
                OpModel::Put(
                    ledger_meta_key(),
                    spec_encode_pruner_metadata(
                        PrunerMetadata::LatestVersion(current_target_version),
                    ),
                ),
            );
            lemma_apply_batch_delete_only(m0, dels);
            let range_keys = Set::new(
                |k: LedgerKey| record_key_in_range(k, lo, current_target_version),
            );
            assert forall|k: LedgerKey|
                deleted_keys_from(dels, 0).contains(k) <==> (range_keys.contains(k)
                    && m0.contains_key(k)) by {
                if deletes_from(dels, 0, k) {
                    let i = choose|i: int| 0 <= i < dels.len() && dels[i] == OpModel::Delete(k);
                    assert(is_present_range_delete(dels[i], lo, current_target_version, m0));
                }
            }
            assert(db@ =~= pruned_db(m0, lo, current_target_version));
            lemma_pruned_db_checkpoint(m0, lo, current_target_version);
        }

        // Recording progress strictly after the durable commit is a known,
        // accepted staleness window: a concurrent reader of the min readable
        // version may briefly under-report pruning progress, never
        // over-report it.
        self.record_progress(current_target_version);
        Ok(current_target_version)
    }

    /// Prunes the genesis placeholder version and saves the staged
    /// deletions to the given change set, which the caller — during ledger
    /// bootstrap, against a fresh database — is already building.  Reuses
    /// the staging logic of a freshly constructed orchestrator without
    /// touching the commit/record-progress protocol: in particular it writes
    /// no checkpoint.
    pub fn prune_genesis(ledger_db: &LedgerDb, change_set: &mut SchemaBatch) -> (r: Result<
        (),
        PrunerError,
    >)
        requires
            ledger_db.wf(),
            !ledger_db@.contains_key(ledger_meta_key()),
        ensures
            r is Ok,
            old(change_set)@.is_prefix_of(final(change_set)@),
            forall|i: int|
                old(change_set)@.len() <= i < final(change_set)@.len() ==> is_present_range_delete(
                    #[trigger] final(change_set)@[i],
                    0,
                    1,
                    ledger_db@,
                ),
            forall|k: LedgerKey|
                record_key_in_range(k, 0, 1) && #[trigger] ledger_db@.contains_key(k)
                    ==> deletes_from(final(change_set)@, old(change_set)@.len() as int, k),
    {
        let target_version: u64 = 1;  // The genesis version is 0. Delete [0, 1) (exclusive).
        let max_versions: u64 = 1;  // Only a single version is pruned.

        let mut ledger_pruner = match LedgerPruner::new(ledger_db) {
            Ok(p) => p,
            Err(e) => {
                return Err(e);
            },
        };
        ledger_pruner.set_target_version(target_version);
        match ledger_pruner.prune_inner(ledger_db, max_versions, change_set) {
            Ok(_) => Ok(()),
            Err(e) => Err(e),
        }
    }
}

} // verus!

