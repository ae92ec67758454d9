use ledger_pruner::batch::SchemaBatch;
use ledger_pruner::db::LedgerDb;
use ledger_pruner::pruner_metadata::{
    decode_pruner_metadata, encode_pruner_metadata, PrunerMetadata,
};
use ledger_pruner::schema::{LedgerKey, StoreFamily};
use ledger_pruner::sub_pruner::{
    DbSubPruner, EventStorePruner, LedgerCounterPruner, TransactionStorePruner, WriteSetPruner,
};

#[test]
fn checkpoint_encoding_is_variant_byte_then_little_endian_version() {
    let bytes = encode_pruner_metadata(&PrunerMetadata::LatestVersion(30));
    assert_eq!(bytes, vec![0u8, 30, 0, 0, 0, 0, 0, 0, 0]);
    let bytes = encode_pruner_metadata(&PrunerMetadata::LatestVersion(0x0102_0304_0506_0708));
    assert_eq!(bytes, vec![0u8, 0x08, 0x07, 0x06, 0x05, 0x04, 0x03, 0x02, 0x01]);
}

#[test]
fn checkpoint_decoding_inverts_encoding() {
    for v in [0u64, 1, 30, u64::MAX] {
        let m = PrunerMetadata::LatestVersion(v);
        assert_eq!(decode_pruner_metadata(&encode_pruner_metadata(&m)), Some(m));
    }
}

#[test]
fn malformed_checkpoints_do_not_decode() {
    assert_eq!(decode_pruner_metadata(&vec![]), None);
    assert_eq!(decode_pruner_metadata(&vec![0u8]), None);
    // Wrong variant byte.
    assert_eq!(decode_pruner_metadata(&vec![1u8, 0, 0, 0, 0, 0, 0, 0, 0]), None);
    // One byte short, one byte long.
    assert_eq!(decode_pruner_metadata(&vec![0u8, 0, 0, 0, 0, 0, 0, 0]), None);
    assert_eq!(
        decode_pruner_metadata(&vec![0u8, 0, 0, 0, 0, 0, 0, 0, 0, 0]),
        None
    );
}

#[test]
fn batch_applies_in_order_and_overwrites() {
    let mut db = LedgerDb::new();
    let mut batch = SchemaBatch::new();
    batch.put(LedgerKey::Transaction(1), vec![1]);
    batch.put(LedgerKey::Transaction(1), vec![2]);
    batch.put(LedgerKey::Event(1), vec![3]);
    batch.delete(LedgerKey::Event(1));
    batch.delete(LedgerKey::WriteSet(9)); // absent: a no-op
    assert_eq!(batch.len(), 5);
    db.write_batch(batch).unwrap();

    assert_eq!(db.get(&LedgerKey::Transaction(1)), Some(&vec![2u8]));
    assert!(db.get(&LedgerKey::Event(1)).is_none());
    assert!(db.get(&LedgerKey::WriteSet(9)).is_none());
}

#[test]
fn scans_see_only_their_own_family() {
    let mut db = LedgerDb::new();
    let mut batch = SchemaBatch::new();
    batch.put(LedgerKey::Transaction(2), vec![1]);
    batch.put(LedgerKey::Event(4), vec![2]);
    db.write_batch(batch).unwrap();

    assert_eq!(
        db.family_versions_in_range(StoreFamily::Transaction, 0, 10),
        vec![2u64]
    );
    assert_eq!(
        db.family_versions_in_range(StoreFamily::Event, 0, 10),
        vec![4u64]
    );
    assert!(db
        .family_versions_in_range(StoreFamily::WriteSet, 0, 10)
        .is_empty());
    assert!(db.family_empty_below(StoreFamily::Transaction, 2));
    assert!(!db.family_empty_below(StoreFamily::Transaction, 3));
}

#[test]
fn sub_pruner_stages_only_its_family_in_range() {
    let mut db = LedgerDb::new();
    let mut fill = SchemaBatch::new();
    for v in 0..5u64 {
        fill.put(LedgerKey::Transaction(v), vec![v as u8]);
        fill.put(LedgerKey::Event(v), vec![v as u8]);
    }
    db.write_batch(fill).unwrap();

    let mut batch = SchemaBatch::new();
    TransactionStorePruner::new()
        .prune(&db, &mut batch, 1, 3)
        .unwrap();
    db.write_batch(batch).unwrap();

    // Transactions 1 and 2 are gone; everything else is untouched.
    assert!(db.get(&LedgerKey::Transaction(0)).is_some());
    assert!(db.get(&LedgerKey::Transaction(1)).is_none());
    assert!(db.get(&LedgerKey::Transaction(2)).is_none());
    assert!(db.get(&LedgerKey::Transaction(3)).is_some());
    for v in 0..5u64 {
        assert!(db.get(&LedgerKey::Event(v)).is_some());
    }
}

#[test]
fn sub_pruner_empty_range_is_a_noop() {
    let mut db = LedgerDb::new();
    let mut fill = SchemaBatch::new();
    fill.put(LedgerKey::WriteSet(1), vec![7]);
    db.write_batch(fill).unwrap();

    let mut batch = SchemaBatch::new();
    WriteSetPruner::new().prune(&db, &mut batch, 1, 1).unwrap();
    LedgerCounterPruner::new().prune(&db, &mut batch, 0, 9).unwrap();
    EventStorePruner::new().prune(&db, &mut batch, 0, 9).unwrap();
    assert_eq!(batch.len(), 0);
}
