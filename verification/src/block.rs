//! Block descriptions.
//!
//! A block covers a contiguous range of ledger versions; whether its
//! versions are still readable is decided against the pruner's min readable
//! version.

use vstd::prelude::*;

verus! {

/// A 32-byte hash identifying a block.
#[derive(Clone, Copy, Debug)]
pub struct HashValue {
    pub hash: [u8; 32],
}

/// A description of a block: its position, identity, time, and the range of
/// ledger versions it covers.
#[derive(Clone, Copy, Debug)]
pub struct BlockInfo {
    pub block_height: u64,
    pub block_hash: HashValue,
    pub block_timestamp: u64,
    pub start_version: u64,
    pub end_version: u64,
    pub num_transactions: u16,
}

} // verus!
