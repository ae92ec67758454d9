//! Table handles of the state store.

use vstd::prelude::*;

verus! {

/// A handle identifying one table in the state store.
#[derive(Clone, Copy, Debug, Eq, Hash, Ord, PartialEq, PartialOrd, Structural)]
pub struct TableHandle(pub u128);

impl TableHandle {
    /// The byte width of the raw handle value: a handle is a 128-bit
    /// integer, so sixteen bytes.
    pub fn size(&self) -> (n: usize)
        ensures
            n == 16,
    {
        16
    }
}

} // verus!
