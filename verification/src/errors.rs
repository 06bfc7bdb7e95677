//! The error taxonomy of the escrow vault.

use vstd::prelude::*;

verus! {

/// Every way a create or withdraw request can be rejected. Each failure aborts
/// the whole request: no funds move and no record is written or removed.
#[derive(Clone, Copy, Debug, PartialEq, Eq, Structural)]
pub enum ErrorCode {
    /// Address derivation found no valid canonicalization nonce for the triple.
    InvalidSeed,
    /// A create request hit a triple whose record is still held.
    AlreadyExists,
    /// The request references a triple with no active record.
    NotFound,
    /// The sender lacks the balance to fund the escrow.
    InsufficientFunds,
    /// The caller's identity does not match the role the operation requires.
    WrongAccount,
    /// Withdrawal was attempted before the record's unlock time.
    HandsTooWeak,
}

} // verus!
