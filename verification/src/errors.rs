//! The typed failures an operation can report. Every failure aborts the
//! whole operation: the caller sees the error and no partial mutation.

use vstd::prelude::*;

verus! {

/// Why an operation was refused. Each operation's contract says exactly
/// which inputs produce which variant.
#[derive(Clone, Copy, Debug, PartialEq, Eq, Structural)]
pub enum GhostError {
    /// A zero or otherwise out-of-range quantity was supplied.
    InvalidAmount,
    /// The operation targeted a vault that is closed (or that no record
    /// resolves to).
    VaultInactive,
    /// The supplied proof was missing, malformed, or rejected at swap
    /// initiation.
    InvalidProof,
    /// The custodial holding lacks the funds the transfer asked for.
    InsufficientBalance,
    /// The caller or authority does not match what the operation demands,
    /// or the proof verifier rejected a withdrawal claim.
    Unauthorized,
    /// A vault already exists for the identity a creation targeted.
    AlreadyExists,
    /// A swap-status transition was attempted from a state that does not
    /// permit it.
    InvalidState,
    /// A counter addition would exceed the representable range; the
    /// operation fails rather than wraps.
    Overflow,
}

} // verus!
