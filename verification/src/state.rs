//! The read path's request preprocessing.
//!
//! Every state read is evaluated at a ledger version: the one the caller
//! asked for, or the latest one when none was given.  A request for a
//! version beyond the latest is answered "not found" — the same storage
//! 404 semantics a caller sees for data below the pruner's min readable
//! version.

use vstd::prelude::*;

use crate::response::{build_not_found, BasicErrorWith404};

verus! {

/// The canonical decimal rendering of an unsigned value.
pub open spec fn spec_u64_decimal(v: u64) -> Seq<char>
    decreases v,
{
    if v < 10 {
        seq![((v + 48) as u8) as char]
    } else {
        spec_u64_decimal((v / 10) as u64) + seq![((v % 10 + 48) as u8) as char]
    }
}

/// Relies on std's `format!` for `u64`: the canonical decimal digits, most
/// significant first, with no sign, padding or separators.
#[verifier::external_body]
fn format_u64(v: u64) -> (r: String)
    ensures
        r@ == spec_u64_decimal(v),
{
    format!("{}", v)
}

/// Resolves the ledger version a read request is evaluated at: the
/// requested version, or the latest one when none was requested.  A request
/// beyond the latest version is answered with the read path's "not found"
/// response, reporting the latest version.
pub fn resolve_requested_version(
    requested_ledger_version: Option<u64>,
    latest_ledger_version: u64,
) -> (r: Result<u64, BasicErrorWith404>)
    ensures
        match r {
            Ok(v) => (requested_ledger_version matches Some(rv) && rv <= latest_ledger_version && v
                == rv) || (requested_ledger_version is None && v == latest_ledger_version),
            Err(e) => requested_ledger_version matches Some(rv) && rv > latest_ledger_version && (e
                matches BasicErrorWith404::NotFound(ae) && ae.message@ == "ledger"@
                + " not found by "@ + spec_u64_decimal(rv) && ae.aptos_ledger_version == Some(
                latest_ledger_version,
            )),
        },
{
    match requested_ledger_version {
        None => Ok(latest_ledger_version),
        Some(requested) => {
            if requested > latest_ledger_version {
                let identifier = format_u64(requested);
                Err(build_not_found("ledger", identifier.as_str(), latest_ledger_version))
            } else {
                Ok(requested)
            }
        },
    }
}

} // verus!
