//! The persisted pruner checkpoint record and its byte encoding.
//!
//! One record per pruner tag is kept in the ledger database.  It is the sole
//! durable source of truth for where pruning left off: the in-memory counter
//! is reconstructed from it on restart.  The record's value is the canonical
//! binary encoding of [`PrunerMetadata`]: a one-byte variant index followed
//! by the version as eight little-endian bytes.

use vstd::bytes::*;
use vstd::prelude::*;
use vstd::slice::slice_subrange;

verus! {

/// Identity of a pruner whose checkpoint is persisted.  An enumerated small
/// set of known pruners; only the ledger pruner is driven by this crate.
#[derive(Clone, Copy, Debug, PartialEq, Eq, Structural)]
pub enum PrunerTag {
    LedgerPruner,
    StateStorePruner,
}

/// The durable checkpoint of one pruner: the version up to which (exclusive)
/// everything has been pruned, equally the least version still readable.
#[derive(Clone, Copy, Debug, PartialEq, Eq, Structural)]
pub enum PrunerMetadata {
    LatestVersion(u64),
}

/// The canonical encoding of a checkpoint record: variant index byte, then
/// the version in little-endian.
pub open spec fn spec_encode_pruner_metadata(m: PrunerMetadata) -> Seq<u8> {
    match m {
        PrunerMetadata::LatestVersion(v) => seq![0u8] + spec_u64_to_le_bytes(v),
    }
}

/// The decoding of a checkpoint record; `None` on any malformed input.
pub open spec fn spec_decode_pruner_metadata(b: Seq<u8>) -> Option<PrunerMetadata> {
    if b.len() == 9 && b[0] == 0u8 {
        Some(PrunerMetadata::LatestVersion(spec_u64_from_le_bytes(b.skip(1))))
    } else {
        None
    }
}

/// Decoding inverts encoding: a checkpoint read back is the checkpoint that
/// was written.
pub proof fn lemma_pruner_metadata_round_trip(m: PrunerMetadata)
    ensures
        spec_decode_pruner_metadata(spec_encode_pruner_metadata(m)) == Some(m),
{
    lemma_auto_spec_u64_to_from_le_bytes();
    match m {
        PrunerMetadata::LatestVersion(v) => {
            assert((seq![0u8] + spec_u64_to_le_bytes(v)).skip(1) =~= spec_u64_to_le_bytes(v));
        },
    }
}

/// Relies on `bcs::to_bytes` for `u64`: the value is written as exactly its
/// eight little-endian bytes, and serialization of an integer cannot fail.
#[verifier::external_body]
fn bcs_encode_u64(v: u64) -> (r: Vec<u8>)
    ensures
        r@ == spec_u64_to_le_bytes(v),
{
    bcs::to_bytes(&v).expect("integer serialization cannot fail")
}

/// Relies on `bcs::from_bytes` for `u64`: it succeeds exactly when the input
/// is eight bytes, read as a little-endian value; a shorter input fails with
/// an end-of-input error and a longer one with a remaining-input error.
#[verifier::external_body]
fn bcs_decode_u64(b: &[u8]) -> (r: Option<u64>)
    ensures
        r == if b@.len() == 8 {
            Some(spec_u64_from_le_bytes(b@))
        } else {
            None::<u64>
        },
{
    bcs::from_bytes::<u64>(b).ok()
}

/// Encodes a checkpoint record for persistence.
pub fn encode_pruner_metadata(m: &PrunerMetadata) -> (r: Vec<u8>)
    ensures
        r@ == spec_encode_pruner_metadata(*m),
{
    match m {
        PrunerMetadata::LatestVersion(v) => {
            let mut out: Vec<u8> = Vec::new();
            out.push(0u8);
            let mut tail = bcs_encode_u64(*v);
            out.append(&mut tail);
            proof {
                assert(out@ =~= spec_encode_pruner_metadata(*m));
            }
            out
        },
    }
}

/// Decodes a persisted checkpoint record; `None` on any malformed input.
pub fn decode_pruner_metadata(b: &Vec<u8>) -> (r: Option<PrunerMetadata>)
    ensures
        r == spec_decode_pruner_metadata(b@),
{
    if b.len() != 9 {
        return None;
    }
    if b[0] != 0u8 {
        return None;
    }
    let tail = slice_subrange(b.as_slice(), 1, 9);
    proof {
        assert(tail@ =~= b@.skip(1));
    }
    match bcs_decode_u64(tail) {
        Some(v) => Some(PrunerMetadata::LatestVersion(v)),
        None => None,
    }
}

} // verus!
