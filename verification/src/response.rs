//! Error responses of the storage read path.
//!
//! A reader asked for data at a version below the pruner's min readable
//! version must treat the data as possibly pruned and answer "not found",
//! reporting the ledger version it served.  This module holds that response
//! shape and its builder; transport and serialization are the embedding's
//! job.

use vstd::prelude::*;

verus! {

/// The error payload served to a caller: a message, and the ledger version
/// the failing request was evaluated at, when one is known.
#[derive(Debug, Eq, PartialEq)]
pub struct AptosError {
    pub message: String,
    pub aptos_ledger_version: Option<u64>,
}

impl AptosError {
    /// An error with a message and no ledger version attached yet.
    pub fn new(message: String) -> (r: AptosError)
        ensures
            r.message@ == message@,
            r.aptos_ledger_version is None,
    {
        AptosError { message, aptos_ledger_version: None }
    }
}

/// An error response of the read path, tagged with the status it is served
/// under: bad request, not found, or internal.
#[derive(Debug, Eq, PartialEq)]
pub enum BasicErrorWith404 {
    BadRequest(AptosError),
    NotFound(AptosError),
    Internal(AptosError),
}

impl BasicErrorWith404 {
    /// The payload inside, whatever the status.
    pub open spec fn spec_inner(&self) -> &AptosError {
        match self {
            BasicErrorWith404::BadRequest(e) => e,
            BasicErrorWith404::NotFound(e) => e,
            BasicErrorWith404::Internal(e) => e,
        }
    }

    /// A "not found" response with the given message.
    pub fn not_found_str(error_str: &str) -> (r: BasicErrorWith404)
        ensures
            r matches BasicErrorWith404::NotFound(e) && e.message@ == error_str@
                && e.aptos_ledger_version is None,
    {
        BasicErrorWith404::NotFound(AptosError::new(error_str.to_owned()))
    }

    /// A "bad request" response with the given message.
    pub fn bad_request_str(error_str: &str) -> (r: BasicErrorWith404)
        ensures
            r matches BasicErrorWith404::BadRequest(e) && e.message@ == error_str@
                && e.aptos_ledger_version is None,
    {
        BasicErrorWith404::BadRequest(AptosError::new(error_str.to_owned()))
    }

    /// An "internal error" response with the given message.
    pub fn internal_str(error_str: &str) -> (r: BasicErrorWith404)
        ensures
            r matches BasicErrorWith404::Internal(e) && e.message@ == error_str@
                && e.aptos_ledger_version is None,
    {
        BasicErrorWith404::Internal(AptosError::new(error_str.to_owned()))
    }

    /// Attaches the ledger version the failing request was evaluated at.
    pub fn aptos_ledger_version(self, aptos_ledger_version: u64) -> (r: BasicErrorWith404)
        ensures
            r.spec_inner().message@ == self.spec_inner().message@,
            r.spec_inner().aptos_ledger_version == Some(aptos_ledger_version),
            r is NotFound <==> self is NotFound,
            r is BadRequest <==> self is BadRequest,
            r is Internal <==> self is Internal,
    {
        match self {
            BasicErrorWith404::BadRequest(e) => BasicErrorWith404::BadRequest(
                AptosError { message: e.message, aptos_ledger_version: Some(aptos_ledger_version) },
            ),
            BasicErrorWith404::NotFound(e) => BasicErrorWith404::NotFound(
                AptosError { message: e.message, aptos_ledger_version: Some(aptos_ledger_version) },
            ),
            BasicErrorWith404::Internal(e) => BasicErrorWith404::Internal(
                AptosError { message: e.message, aptos_ledger_version: Some(aptos_ledger_version) },
            ),
        }
    }
}

/// Relies on std's `format!`: the result is the first argument, the literal
/// separator, then the second argument.
#[verifier::external_body]
fn format_not_found_message(resource: &str, identifier: &str) -> (r: String)
    ensures
        r@ == resource@ + " not found by "@ + identifier@,
{
    format!("{} not found by {}", resource, identifier)
}

/// Builds the "not found" response served when a requested item does not
/// exist at the requested ledger version — including when that version lies
/// below the pruner's min readable version and the item may simply have been
/// pruned.
pub fn build_not_found(resource: &str, identifier: &str, ledger_version: u64) -> (r:
    BasicErrorWith404)
    ensures
        r matches BasicErrorWith404::NotFound(e) && e.message@ == resource@ + " not found by "@
            + identifier@ && e.aptos_ledger_version == Some(ledger_version),
{
    let message = format_not_found_message(resource, identifier);
    BasicErrorWith404::not_found_str(message.as_str()).aptos_ledger_version(ledger_version)
}

} // verus!
