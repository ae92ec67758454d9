use ledger_pruner::batch::SchemaBatch;
use ledger_pruner::db::LedgerDb;
use ledger_pruner::pruner::LedgerPruner;
use ledger_pruner::schema::{LedgerKey, StoreFamily};
use ledger_pruner::PrunerError;

/// A database holding one record per family for each version in `0..n`.
fn populated_db(n: u64) -> LedgerDb {
    let mut db = LedgerDb::new();
    let mut batch = SchemaBatch::new();
    for v in 0..n {
        batch.put(LedgerKey::Transaction(v), vec![1u8, v as u8]);
        batch.put(LedgerKey::WriteSet(v), vec![2u8, v as u8]);
        batch.put(LedgerKey::LedgerCounter(v), vec![3u8, v as u8]);
        batch.put(LedgerKey::Event(v), vec![4u8, v as u8]);
    }
    db.write_batch(batch).unwrap();
    db
}

const FAMILIES: [StoreFamily; 4] = [
    StoreFamily::Transaction,
    StoreFamily::WriteSet,
    StoreFamily::LedgerCounter,
    StoreFamily::Event,
];

fn key_of(family: StoreFamily, v: u64) -> LedgerKey {
    match family {
        StoreFamily::Transaction => LedgerKey::Transaction(v),
        StoreFamily::WriteSet => LedgerKey::WriteSet(v),
        StoreFamily::LedgerCounter => LedgerKey::LedgerCounter(v),
        StoreFamily::Event => LedgerKey::Event(v),
    }
}

#[test]
fn bounded_prune_then_capped_prune() {
    // min_readable_version = 0, target_version = 100, prune(30) advances to
    // exactly 30; a following prune(1000) is capped by the target at 100.
    let mut db = populated_db(120);
    let mut pruner = LedgerPruner::new(&db).unwrap();
    assert_eq!(pruner.min_readable_version(), 0);
    pruner.set_target_version(100);

    let v = pruner.prune(&mut db, 30).unwrap();
    assert_eq!(v, 30);
    assert_eq!(pruner.min_readable_version(), 30);
    for family in FAMILIES {
        assert!(db.family_empty_below(family, 30));
        for keep in 30..120 {
            assert!(db.get(&key_of(family, keep)).is_some());
        }
    }

    let v = pruner.prune(&mut db, 1000).unwrap();
    assert_eq!(v, 100);
    assert_eq!(pruner.min_readable_version(), 100);
    for family in FAMILIES {
        assert!(db.family_empty_below(family, 100));
        for keep in 100..120 {
            assert!(db.get(&key_of(family, keep)).is_some());
        }
    }
}

#[test]
fn noop_below_target() {
    // With no pending work, prune performs zero writes and returns the
    // current min readable version unchanged, for any chunk size.
    let mut db = populated_db(10);
    let mut pruner = LedgerPruner::new(&db).unwrap();
    pruner.set_target_version(5);
    assert_eq!(pruner.prune(&mut db, 100).unwrap(), 5);
    assert_eq!(pruner.min_readable_version(), 5);

    for n in [0usize, 1, 7, 1000] {
        let v = pruner.prune(&mut db, n).unwrap();
        assert_eq!(v, 5);
        assert_eq!(pruner.min_readable_version(), 5);
    }
    // Nothing above the target was touched at any point.
    for family in FAMILIES {
        for keep in 5..10 {
            assert!(db.get(&key_of(family, keep)).is_some());
        }
    }
}

#[test]
fn lowering_target_below_min_is_still_a_noop() {
    // Lowering the ceiling is legal (if unsupported as a use case); pruning
    // then simply has no pending work and changes nothing.
    let mut db = populated_db(10);
    let mut pruner = LedgerPruner::new(&db).unwrap();
    pruner.set_target_version(6);
    assert_eq!(pruner.prune(&mut db, 100).unwrap(), 6);
    pruner.set_target_version(3);
    assert_eq!(pruner.prune(&mut db, 100).unwrap(), 6);
    assert_eq!(pruner.min_readable_version(), 6);
}

#[test]
fn bounded_chunk_advances_by_min_of_pending_and_chunk() {
    let mut db = populated_db(20);
    let mut pruner = LedgerPruner::new(&db).unwrap();
    pruner.set_target_version(10);
    // 10 versions pending, chunk of 4: advance by exactly 4.
    assert_eq!(pruner.prune(&mut db, 4).unwrap(), 4);
    // 6 pending, chunk of 4 again.
    assert_eq!(pruner.prune(&mut db, 4).unwrap(), 8);
    // 2 pending, chunk of 4: advance by the 2 pending only.
    assert_eq!(pruner.prune(&mut db, 4).unwrap(), 10);
    assert_eq!(pruner.min_readable_version(), 10);
}

#[test]
fn monotonic_over_any_sequence_of_calls() {
    let mut db = populated_db(50);
    let mut pruner = LedgerPruner::new(&db).unwrap();
    let mut last = pruner.min_readable_version();
    let targets = [10u64, 7, 30, 30, 45];
    let chunks = [3usize, 100, 0, 12, 40];
    for (t, n) in targets.iter().zip(chunks.iter()) {
        pruner.set_target_version(*t);
        let v = pruner.prune(&mut db, *n).unwrap();
        assert!(v >= last);
        assert!(pruner.min_readable_version() >= last);
        assert_eq!(pruner.min_readable_version(), v);
        last = v;
    }
}

#[test]
fn forced_commit_failure_changes_nothing() {
    // Atomic all-or-nothing: with a forced commit failure, the call fails,
    // the observable progress is unchanged, and no sub-store reflects a
    // partial deletion; the identical call then succeeds after the fault is
    // cleared.
    let mut db = populated_db(10);
    let mut pruner = LedgerPruner::new(&db).unwrap();
    pruner.set_target_version(8);
    db.inject_commit_failure(true);

    let before = pruner.min_readable_version();
    let r = pruner.prune(&mut db, 100);
    assert_eq!(r, Err(PrunerError::CommitFailed));
    assert_eq!(pruner.min_readable_version(), before);
    for family in FAMILIES {
        for v in 0..10 {
            assert!(db.get(&key_of(family, v)).is_some());
        }
    }

    db.inject_commit_failure(false);
    assert_eq!(pruner.prune(&mut db, 100).unwrap(), 8);
    for family in FAMILIES {
        assert!(db.family_empty_below(family, 8));
    }
}

#[test]
fn fresh_instance_resumes_from_checkpoint() {
    // Idempotent resume: a fresh orchestrator against the same database
    // initializes its min readable version from the persisted checkpoint.
    let mut db = populated_db(40);
    let mut pruner = LedgerPruner::new(&db).unwrap();
    pruner.set_target_version(25);
    assert_eq!(pruner.prune(&mut db, 100).unwrap(), 25);

    let resumed = LedgerPruner::new(&db).unwrap();
    assert_eq!(resumed.min_readable_version(), 25);
    assert_eq!(resumed.target_version(), 0);
    assert_eq!(
        resumed.initialize_min_readable_version(&db).unwrap(),
        25
    );
}

#[test]
fn prune_genesis_stages_exactly_version_zero() {
    // prune_genesis folds the deletion of exactly version 0 into the
    // caller's change set and writes no checkpoint of its own.
    let mut db = populated_db(3);
    let mut change_set = SchemaBatch::new();
    LedgerPruner::prune_genesis(&db, &mut change_set).unwrap();
    db.write_batch(change_set).unwrap();

    for family in FAMILIES {
        assert!(db.get(&key_of(family, 0)).is_none());
        assert!(db.get(&key_of(family, 1)).is_some());
        assert!(db.get(&key_of(family, 2)).is_some());
    }
    // No min readable version checkpoint was persisted.
    let fresh = LedgerPruner::new(&db).unwrap();
    assert_eq!(fresh.min_readable_version(), 0);
}

#[test]
fn corrupt_checkpoint_is_reported() {
    let mut db = LedgerDb::new();
    let mut batch = SchemaBatch::new();
    batch.put(
        LedgerKey::PrunerMetadata(ledger_pruner::pruner_metadata::PrunerTag::LedgerPruner),
        vec![9u8, 9, 9],
    );
    db.write_batch(batch).unwrap();
    assert_eq!(
        LedgerPruner::new(&db).err(),
        Some(PrunerError::MetadataCorruption)
    );
}

#[test]
fn state_machine_accessors() {
    let db = LedgerDb::new();
    let mut pruner = LedgerPruner::new(&db).unwrap();
    assert_eq!(pruner.name(), "ledger_pruner");
    assert!(!pruner.is_pruning_pending());
    pruner.set_target_version(17);
    assert_eq!(pruner.target_version(), 17);
    assert!(pruner.is_pruning_pending());
    pruner.record_progress(17);
    assert_eq!(pruner.min_readable_version(), 17);
    assert!(!pruner.is_pruning_pending());
    pruner.testonly_update_min_version(3);
    assert_eq!(pruner.min_readable_version(), 3);
    assert!(pruner.is_pruning_pending());
}

#[test]
fn prune_with_zero_chunk_advances_nothing() {
    let mut db = populated_db(6);
    let mut pruner = LedgerPruner::new(&db).unwrap();
    pruner.set_target_version(6);
    assert_eq!(pruner.prune(&mut db, 0).unwrap(), 0);
    assert_eq!(pruner.min_readable_version(), 0);
    for family in FAMILIES {
        for v in 0..6 {
            assert!(db.get(&key_of(family, v)).is_some());
        }
    }
}
