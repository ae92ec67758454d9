//! The atomic write batch.
//!
//! A batch is an ordered list of staged key writes and deletions that the
//! database commits as one indivisible unit.  It is constructed exclusively
//! by the orchestrator for the duration of one prune call; sub-pruners only
//! append to it and never commit it themselves.

use vstd::prelude::*;

use crate::schema::{record_key_in_range, LedgerKey};

verus! {

/// One staged write: insert (or overwrite) a value under a key, or delete a
/// key.  Deleting an absent key is a no-op.
pub enum WriteOp {
    Put(LedgerKey, Vec<u8>),
    Delete(LedgerKey),
}

/// The mathematical model of one staged write.
pub enum OpModel {
    Put(LedgerKey, Seq<u8>),
    Delete(LedgerKey),
}

impl View for WriteOp {
    type V = OpModel;

    open spec fn view(&self) -> OpModel {
        match self {
            WriteOp::Put(k, v) => OpModel::Put(*k, v@),
            WriteOp::Delete(k) => OpModel::Delete(*k),
        }
    }
}

/// An ordered set of staged writes, committed all-or-nothing.
pub struct SchemaBatch {
    pub ops: Vec<WriteOp>,
}

impl View for SchemaBatch {
    type V = Seq<OpModel>;

    open spec fn view(&self) -> Seq<OpModel> {
        self.ops@.map_values(|op: WriteOp| op@)
    }
}

impl SchemaBatch {
    /// An empty batch.
    pub fn new() -> (b: SchemaBatch)
        ensures
            b@ == Seq::<OpModel>::empty(),
    {
        let b = SchemaBatch { ops: Vec::new() };
        proof {
            assert(b@ =~= Seq::<OpModel>::empty());
        }
        b
    }

    /// Stages an insertion (or overwrite) of `value` under `key`.
    pub fn put(&mut self, key: LedgerKey, value: Vec<u8>)
        ensures
            final(self)@ == old(self)@.push(OpModel::Put(key, value@)),
    {
        let ghost v = value@;
        self.ops.push(WriteOp::Put(key, value));
        proof {
            assert(self@ =~= old(self)@.push(OpModel::Put(key, v)));
        }
    }

    /// Stages a deletion of `key`.
    pub fn delete(&mut self, key: LedgerKey)
        ensures
            final(self)@ == old(self)@.push(OpModel::Delete(key)),
    {
        self.ops.push(WriteOp::Delete(key));
        proof {
            assert(self@ =~= old(self)@.push(OpModel::Delete(key)));
        }
    }

    /// The number of staged writes.
    pub fn len(&self) -> (n: usize)
        ensures
            n == self@.len(),
    {
        self.ops.len()
    }
}

/// The effect of one staged write on the database contents.
pub open spec fn apply_op(m: Map<LedgerKey, Seq<u8>>, op: OpModel) -> Map<LedgerKey, Seq<u8>> {
    match op {
        OpModel::Put(k, v) => m.insert(k, v),
        OpModel::Delete(k) => m.remove(k),
    }
}

/// The effect of a whole batch on the database contents: its writes applied
/// in order.
pub open spec fn apply_batch(m: Map<LedgerKey, Seq<u8>>, ops: Seq<OpModel>) -> Map<
    LedgerKey,
    Seq<u8>,
>
    decreases ops.len(),
{
    if ops.len() == 0 {
        m
    } else {
        apply_op(apply_batch(m, ops.drop_last()), ops.last())
    }
}

/// Whether every op at index `from` or later is a deletion.
pub open spec fn delete_only_from(ops: Seq<OpModel>, from: int) -> bool {
    forall|i: int| from <= i < ops.len() ==> (#[trigger] ops[i]) matches OpModel::Delete(_)
}

/// Whether some op at index `from` or later deletes `k`.
pub open spec fn deletes_from(ops: Seq<OpModel>, from: int, k: LedgerKey) -> bool {
    exists|i: int| from <= i < ops.len() && ops[i] == OpModel::Delete(k)
}

/// The set of keys deleted by ops at index `from` or later.
pub open spec fn deleted_keys_from(ops: Seq<OpModel>, from: int) -> Set<LedgerKey> {
    Set::new(|k: LedgerKey| deletes_from(ops, from, k))
}

/// Whether `op` is a deletion of a record key in `[start, end)` that is
/// present in `m`.
pub open spec fn is_present_range_delete(
    op: OpModel,
    start: u64,
    end: u64,
    m: Map<LedgerKey, Seq<u8>>,
) -> bool {
    op matches OpModel::Delete(k) && record_key_in_range(k, start, end) && m.contains_key(k)
}

/// Appending one op applies after the rest of the batch.
pub proof fn lemma_apply_batch_push(m: Map<LedgerKey, Seq<u8>>, ops: Seq<OpModel>, op: OpModel)
    ensures
        apply_batch(m, ops.push(op)) == apply_op(apply_batch(m, ops), op),
{
    assert(ops.push(op).drop_last() =~= ops);
    assert(ops.push(op).last() == op);
}

/// A batch that only deletes removes exactly the keys it deletes, whatever
/// database contents it is applied to.
pub proof fn lemma_apply_batch_delete_only(m: Map<LedgerKey, Seq<u8>>, ops: Seq<OpModel>)
    requires
        delete_only_from(ops, 0),
    ensures
        apply_batch(m, ops) =~= m.remove_keys(deleted_keys_from(ops, 0)),
    decreases ops.len(),
{
    if ops.len() == 0 {
        assert(forall|k: LedgerKey| !deleted_keys_from(ops, 0).contains(k));
    } else {
        let dl = ops.drop_last();
        assert(delete_only_from(dl, 0)) by {
            assert(forall|i: int| 0 <= i < dl.len() ==> dl[i] == ops[i]);
        }
        lemma_apply_batch_delete_only(m, dl);
        assert((#[trigger] ops[ops.len() - 1]) matches OpModel::Delete(_));
        let k0 = ops.last()->Delete_0;
        assert(ops.last() == OpModel::Delete(k0));
        assert forall|k: LedgerKey|
            deleted_keys_from(ops, 0).contains(k) <==> (deleted_keys_from(dl, 0).contains(k) || k
                == k0) by {
            if deletes_from(ops, 0, k) {
                let i = choose|i: int| 0 <= i < ops.len() && ops[i] == OpModel::Delete(k);
                if i < ops.len() - 1 {
                    assert(dl[i] == ops[i]);
                    assert(deletes_from(dl, 0, k));
                }
            }
            if deletes_from(dl, 0, k) {
                let i = choose|i: int| 0 <= i < dl.len() && dl[i] == OpModel::Delete(k);
                assert(ops[i] == dl[i]);
                assert(deletes_from(ops, 0, k));
            }
            if k == k0 {
                assert(ops[ops.len() - 1] == OpModel::Delete(k));
                assert(deletes_from(ops, 0, k));
            }
        }
        assert(apply_batch(m, ops) == apply_batch(m, dl).remove(k0));
        assert(apply_batch(m, ops) =~= m.remove_keys(deleted_keys_from(ops, 0)));
    }
}

/// A deletion found from some index on is also found from any earlier index.
pub proof fn lemma_deletes_from_weaken(ops: Seq<OpModel>, from1: int, from0: int, k: LedgerKey)
    requires
        from0 <= from1,
        deletes_from(ops, from1, k),
    ensures
        deletes_from(ops, from0, k),
{
    let i = choose|i: int| from1 <= i < ops.len() && ops[i] == OpModel::Delete(k);
    assert(from0 <= i < ops.len() && ops[i] == OpModel::Delete(k));
}

/// Prefixes compose: a prefix of a prefix is a prefix.
pub proof fn lemma_prefix_transitive(a: Seq<OpModel>, b: Seq<OpModel>, c: Seq<OpModel>)
    requires
        a.is_prefix_of(b),
        b.is_prefix_of(c),
    ensures
        a.is_prefix_of(c),
{
    assert forall|i: int| 0 <= i < a.len() implies a[i] == c.subrange(0, a.len() as int)[i] by {
        assert(a[i] == b.subrange(0, a.len() as int)[i]);
        assert(b[i] == c.subrange(0, b.len() as int)[i]);
    }
    assert(a =~= c.subrange(0, a.len() as int));
}

/// Within a prefix, both sequences agree.
pub proof fn lemma_prefix_index(a: Seq<OpModel>, b: Seq<OpModel>, i: int)
    requires
        a.is_prefix_of(b),
        0 <= i < a.len(),
    ensures
        a[i] == b[i],
{
    assert(a[i] == b.subrange(0, a.len() as int)[i]);
}

/// A key deleted somewhere in a prefix is still deleted in any extension.
pub proof fn lemma_deletes_from_prefix(
    shorter: Seq<OpModel>,
    longer: Seq<OpModel>,
    from: int,
    k: LedgerKey,
)
    requires
        0 <= from,
        shorter.is_prefix_of(longer),
        deletes_from(shorter, from, k),
    ensures
        deletes_from(longer, from, k),
{
    let i = choose|i: int| from <= i < shorter.len() && shorter[i] == OpModel::Delete(k);
    assert(shorter[i] == longer.subrange(0, shorter.len() as int)[i]);
    assert(longer[i] == OpModel::Delete(k));
}

} // verus!
