//! The ledger database: a key-value store with an atomic batch commit.
//!
//! The store maps typed [`LedgerKey`]s to opaque byte values.  Its one
//! durability primitive is [`LedgerDb::write_batch`], which applies a whole
//! [`SchemaBatch`] all-or-nothing: on success every staged write is applied
//! in order, on failure nothing is.  A test hook injects forced commit
//! failures so that the all-or-nothing contract can be exercised.

use vstd::prelude::*;

use crate::batch::{apply_batch, apply_op, SchemaBatch, WriteOp};
use crate::schema::{family_key, LedgerKey, StoreFamily};
use crate::PrunerError;

verus! {

/// The contents of a database as a map, built from an association list.
pub open spec fn entries_map(s: Seq<(LedgerKey, Vec<u8>)>) -> Map<LedgerKey, Seq<u8>>
    decreases s.len(),
{
    if s.len() == 0 {
        Map::empty()
    } else {
        entries_map(s.drop_last()).insert(s.last().0, s.last().1@)
    }
}

/// Whether no key occurs twice in an association list.
pub open spec fn entries_unique(s: Seq<(LedgerKey, Vec<u8>)>) -> bool {
    forall|i: int, j: int| 0 <= i < j < s.len() ==> (#[trigger] s[i]).0 != (#[trigger] s[j]).0
}

/// A key is in the map exactly when some entry holds it.
proof fn lemma_entries_map_domain(s: Seq<(LedgerKey, Vec<u8>)>, k: LedgerKey)
    ensures
        entries_map(s).contains_key(k) <==> exists|i: int|
            0 <= i < s.len() && (#[trigger] s[i]).0 == k,
    decreases s.len(),
{
    if s.len() > 0 {
        lemma_entries_map_domain(s.drop_last(), k);
        if s.last().0 == k {
            assert(s[s.len() - 1].0 == k);
        } else if entries_map(s).contains_key(k) {
            let i = choose|i: int| 0 <= i < s.drop_last().len() && (#[trigger] s.drop_last()[i]).0
                == k;
            assert(s[i].0 == k);
        } else {
            assert forall|i: int| 0 <= i < s.len() implies (#[trigger] s[i]).0 != k by {
                if i < s.len() - 1 {
                    assert(s.drop_last()[i].0 == s[i].0);
                }
            }
        }
    }
}

/// The value of a present key is the value of the entry that holds it.
proof fn lemma_entries_map_value(s: Seq<(LedgerKey, Vec<u8>)>, i: int)
    requires
        entries_unique(s),
        0 <= i < s.len(),
    ensures
        entries_map(s).contains_key(s[i].0),
        entries_map(s)[s[i].0] == s[i].1@,
    decreases s.len(),
{
    if i == s.len() - 1 {
    } else {
        lemma_entries_map_value(s.drop_last(), i);
        assert(s.drop_last()[i] == s[i]);
        assert(s[i].0 != s.last().0);
    }
}

/// Removing one entry removes exactly its key from the map.
proof fn lemma_entries_map_remove(s: Seq<(LedgerKey, Vec<u8>)>, i: int)
    requires
        entries_unique(s),
        0 <= i < s.len(),
    ensures
        entries_map(s.remove(i)) == entries_map(s).remove(s[i].0),
    decreases s.len(),
{
    if i == s.len() - 1 {
        assert(s.remove(i) =~= s.drop_last());
        lemma_entries_map_domain(s.drop_last(), s[i].0);
        assert forall|j: int| 0 <= j < s.drop_last().len() implies (#[trigger] s.drop_last()[j]).0
            != s[i].0 by {
            assert(s[j] == s.drop_last()[j]);
        }
        assert(!entries_map(s.drop_last()).contains_key(s[i].0));
        assert(entries_map(s.remove(i)) =~= entries_map(s).remove(s[i].0));
    } else {
        let dl = s.drop_last();
        assert(entries_unique(dl)) by {
            assert(forall|a: int| 0 <= a < dl.len() ==> (#[trigger] dl[a]) == s[a]);
        }
        lemma_entries_map_remove(dl, i);
        assert(s.remove(i).drop_last() =~= dl.remove(i));
        assert(s.remove(i).last() == s.last());
        assert(entries_map(s.remove(i)) == entries_map(dl.remove(i)).insert(
            s.last().0,
            s.last().1@,
        ));
        assert(s[i].0 != s.last().0);
        assert(entries_map(dl).remove(s[i].0).insert(s.last().0, s.last().1@) =~= entries_map(
            dl,
        ).insert(s.last().0, s.last().1@).remove(s[i].0));
    }
}

/// The ledger database.
pub struct LedgerDb {
    entries: Vec<(LedgerKey, Vec<u8>)>,
    commit_failure_injected: bool,
}

impl View for LedgerDb {
    type V = Map<LedgerKey, Seq<u8>>;

    closed spec fn view(&self) -> Map<LedgerKey, Seq<u8>> {
        entries_map(self.entries@)
    }
}

impl LedgerDb {
    /// Well-formedness: no key is stored twice.
    pub closed spec fn wf(&self) -> bool {
        entries_unique(self.entries@)
    }

    /// Whether the test hook forcing the next commits to fail is set.
    pub closed spec fn commit_failure(&self) -> bool {
        self.commit_failure_injected
    }

    /// A fresh, empty database.
    pub fn new() -> (db: LedgerDb)
        ensures
            db.wf(),
            db@ == Map::<LedgerKey, Seq<u8>>::empty(),
            !db.commit_failure(),
    {
        LedgerDb { entries: Vec::new(), commit_failure_injected: false }
    }

    /// Test hook: forces every following commit to fail (or succeed again)
    /// without touching the contents.
    pub fn inject_commit_failure(&mut self, fail: bool)
        ensures
            final(self).wf() == old(self).wf(),
            final(self)@ == old(self)@,
            final(self).commit_failure() == fail,
    {
        self.commit_failure_injected = fail;
    }

    /// The index of the entry holding `key`, if any.
    fn find_index(&self, key: &LedgerKey) -> (r: Option<usize>)
        requires
            self.wf(),
        ensures
            match r {
                Some(i) => i < self.entries@.len() && self.entries@[i as int].0 == *key,
                None => !self@.contains_key(*key),
            },
    {
        let n = self.entries.len();
        let mut i: usize = 0;
        while i < n
            invariant
                n == self.entries@.len(),
                i <= n,
                forall|j: int| 0 <= j < i ==> (#[trigger] self.entries@[j]).0 != *key,
            decreases n - i,
        {
            if self.entries[i].0 == *key {
                return Some(i);
            }
            i += 1;
        }
        proof {
            lemma_entries_map_domain(self.entries@, *key);
        }
        None
    }

    /// Point read of one key.
    pub fn get(&self, key: &LedgerKey) -> (r: Option<&Vec<u8>>)
        requires
            self.wf(),
        ensures
            match r {
                Some(v) => self@.contains_key(*key) && v@ == self@[*key],
                None => !self@.contains_key(*key),
            },
    {
        match self.find_index(key) {
            Some(i) => {
                proof {
                    lemma_entries_map_value(self.entries@, i as int);
                }
                Some(&self.entries[i].1)
            },
            None => None,
        }
    }

    /// Inserts `value` under `key`, overwriting any previous value.
    fn upsert(&mut self, key: LedgerKey, value: Vec<u8>)
        requires
            old(self).wf(),
        ensures
            final(self).wf(),
            final(self)@ == old(self)@.insert(key, value@),
            final(self).commit_failure() == old(self).commit_failure(),
    {
        let ghost s0 = self.entries@;
        match self.find_index(&key) {
            Some(i) => {
                proof {
                    lemma_entries_map_remove(s0, i as int);
                }
                self.entries.remove(i);
                let ghost s1 = self.entries@;
                self.entries.push((key, value));
                proof {
                    assert(entries_unique(self.entries@)) by {
                        assert(forall|a: int| 0 <= a < s1.len() ==> (#[trigger] s1[a]) == s0.remove(
                            i as int,
                        )[a]);
                        lemma_entries_map_domain(s1, key);
                        assert(!entries_map(s1).contains_key(key));
                        assert(forall|a: int| 0 <= a < self.entries@.len() - 1 ==> (
                        #[trigger] self.entries@[a]) == s1[a]);
                    }
                    assert(self.entries@.drop_last() =~= s1);
                    assert(self@ =~= old(self)@.insert(key, value@));
                }
            },
            None => {
                self.entries.push((key, value));
                proof {
                    lemma_entries_map_domain(s0, key);
                    assert(entries_unique(self.entries@)) by {
                        assert(forall|a: int| 0 <= a < self.entries@.len() - 1 ==> (
                        #[trigger] self.entries@[a]) == s0[a]);
                    }
                    assert(self.entries@.drop_last() =~= s0);
                    assert(self@ =~= old(self)@.insert(key, value@));
                }
            },
        }
    }

    /// Deletes `key`; deleting an absent key is a no-op.
    fn delete_key(&mut self, key: &LedgerKey)
        requires
            old(self).wf(),
        ensures
            final(self).wf(),
            final(self)@ == old(self)@.remove(*key),
            final(self).commit_failure() == old(self).commit_failure(),
    {
        let ghost s0 = self.entries@;
        match self.find_index(key) {
            Some(i) => {
                proof {
                    lemma_entries_map_remove(s0, i as int);
                }
                self.entries.remove(i);
                proof {
                    assert(entries_unique(self.entries@)) by {
                        assert(forall|a: int| 0 <= a < self.entries@.len() ==> (
                        #[trigger] self.entries@[a]) == s0.remove(i as int)[a]);
                    }
                }
            },
            None => {
                proof {
                    assert(old(self)@ =~= old(self)@.remove(*key));
                }
            },
        }
    }

    /// Commits a whole batch atomically: on success every staged write is
    /// applied in order; on failure (forced by the test hook) nothing is.
    /// Success is owed whenever no failure is injected.
    pub fn write_batch(&mut self, batch: SchemaBatch) -> (r: Result<(), PrunerError>)
        requires
            old(self).wf(),
        ensures
            final(self).wf(),
            final(self).commit_failure() == old(self).commit_failure(),
            match r {
                Ok(_) => !old(self).commit_failure() && final(self)@ == apply_batch(
                    old(self)@,
                    batch@,
                ),
                Err(e) => e == PrunerError::CommitFailed && old(self).commit_failure()
                    && final(self)@ == old(self)@,
            },
    {
        if self.commit_failure_injected {
            return Err(PrunerError::CommitFailed);
        }
        let ghost all_ops = batch@;
        let ghost m0 = self@;
        let mut ops = batch.ops;
        let ghost n0 = all_ops.len();
        while ops.len() > 0
            invariant
                self.wf(),
                !self.commit_failure_injected,
                ops@.len() <= n0,
                n0 == all_ops.len(),
                ops@.map_values(|op: WriteOp| op@) =~= all_ops.skip(n0 - ops@.len()),
                self@ == apply_batch(m0, all_ops.take(n0 - ops@.len())),
            decreases ops@.len(),
        {
            let ghost done = n0 - ops@.len();
            let ghost ops_pre = ops@;
            let op = ops.remove(0);
            proof {
                assert(op@ == all_ops.skip(done)[0]);
                assert(op@ == all_ops[done]);
                assert(all_ops.take(done + 1).drop_last() =~= all_ops.take(done));
                assert(all_ops.take(done + 1).last() == all_ops[done]);
                assert(apply_batch(m0, all_ops.take(done + 1)) == apply_op(
                    apply_batch(m0, all_ops.take(done)),
                    all_ops[done],
                ));
            }
            match op {
                WriteOp::Put(k, v) => {
                    self.upsert(k, v);
                },
                WriteOp::Delete(k) => {
                    self.delete_key(&k);
                },
            }
            proof {
                assert forall|j: int| 0 <= j < ops@.len() implies (#[trigger] ops@[j])@
                    == all_ops.skip(done + 1)[j] by {
                    assert(ops@[j] == ops_pre[j + 1]);
                    assert(ops_pre.map_values(|op: WriteOp| op@)[j + 1] == all_ops.skip(done)[j
                        + 1]);
                }
                assert(ops@.map_values(|op: WriteOp| op@) =~= all_ops.skip(done + 1));
            }
        }
        proof {
            assert(all_ops.take(n0 as int) =~= all_ops);
        }
        Ok(())
    }

    /// All versions in `[start, end)` at which `family` holds a record.
    /// Used by sub-pruners to compute the deletions a prune stages.
    pub fn family_versions_in_range(&self, family: StoreFamily, start: u64, end: u64) -> (r: Vec<
        u64,
    >)
        requires
            self.wf(),
        ensures
            forall|v: u64|
                r@.contains(v) <==> (start <= v < end && self@.contains_key(
                    #[trigger] family_key(family, v),
                )),
    {
        let n = self.entries.len();
        let mut out: Vec<u64> = Vec::new();
        let mut i: usize = 0;
        while i < n
            invariant
                self.wf(),
                n == self.entries@.len(),
                i <= n,
                forall|v: u64|
                    out@.contains(v) <==> exists|j: int|
                        0 <= j < i && (#[trigger] self.entries@[j]).0 == family_key(family, v)
                            && start <= v < end,
            decreases n - i,
        {
            let (k, _) = &self.entries[i];
            let ghost out_prev = out@;
            match k {
                LedgerKey::Transaction(v) => {
                    if matches!(family, StoreFamily::Transaction) && start <= *v && *v < end {
                        out.push(*v);
                    }
                },
                LedgerKey::WriteSet(v) => {
                    if matches!(family, StoreFamily::WriteSet) && start <= *v && *v < end {
                        out.push(*v);
                    }
                },
                LedgerKey::LedgerCounter(v) => {
                    if matches!(family, StoreFamily::LedgerCounter) && start <= *v && *v < end {
                        out.push(*v);
                    }
                },
                LedgerKey::Event(v) => {
                    if matches!(family, StoreFamily::Event) && start <= *v && *v < end {
                        out.push(*v);
                    }
                },
                LedgerKey::PrunerMetadata(_) => {},
            }
            proof {
                assert forall|v: u64| out@.contains(v) implies exists|j: int|
                    0 <= j < i + 1 && (#[trigger] self.entries@[j]).0 == family_key(family, v)
                        && start <= v < end by {
                    if out_prev.contains(v) {
                        let j = choose|j: int|
                            0 <= j < i && (#[trigger] self.entries@[j]).0 == family_key(family, v)
                                && start <= v < end;
                        assert(0 <= j < i + 1 && self.entries@[j].0 == family_key(family, v));
                    } else {
                        assert(self.entries@[i as int].0 == family_key(family, v));
                    }
                }
                assert forall|v: u64|
                    (exists|j: int|
                        0 <= j < i + 1 && (#[trigger] self.entries@[j]).0 == family_key(family, v)
                            && start <= v < end) implies out@.contains(v) by {
                    let j = choose|j: int|
                        0 <= j < i + 1 && (#[trigger] self.entries@[j]).0 == family_key(family, v)
                            && start <= v < end;
                    if j < i {
                        assert(out_prev.contains(v));
                        let jj = choose|jj: int| 0 <= jj < out_prev.len() && out_prev[jj] == v;
                        assert(out@[jj] == v);
                    } else {
                        assert(out@[out@.len() - 1] == v);
                    }
                }
            }
            i += 1;
        }
        proof {
            assert forall|v: u64|
                out@.contains(v) <==> (start <= v < end && self@.contains_key(
                    #[trigger] family_key(family, v),
                )) by {
                lemma_entries_map_domain(self.entries@, family_key(family, v));
            }
        }
        out
    }

    /// Whether `family` holds no record at any version below `bound`.
    /// The scan a reader uses to observe that a prune removed a whole range.
    pub fn family_empty_below(&self, family: StoreFamily, bound: u64) -> (r: bool)
        requires
            self.wf(),
        ensures
            r <==> forall|v: u64| v < bound ==> !self@.contains_key(#[trigger] family_key(family, v)),
    {
        let found = self.family_versions_in_range(family, 0, bound);
        let r = found.len() == 0;
        proof {
            if found@.len() == 0 {
                assert forall|v: u64| v < bound implies !self@.contains_key(
                    #[trigger] family_key(family, v),
                ) by {
                    assert(!found@.contains(v));
                }
            } else {
                let v0 = found@[0];
                assert(found@.contains(v0));
                assert(v0 < bound && self@.contains_key(family_key(family, v0)));
            }
        }
        r
    }
}

} // verus!
