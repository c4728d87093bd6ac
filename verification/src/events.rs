//! The typed notifications an operation hands to the delivery collaborator.
//!
//! Each successful operation produces exactly one event; the core returns it
//! to the caller, and delivery — ordered, at-least-once — is the sink's
//! business, not the ledger's.

use vstd::prelude::*;

use crate::ids::{AssetId, Identity};

verus! {

/// A vault was created.
#[derive(Clone, Copy, Debug, PartialEq, Eq, Structural)]
pub struct VaultCreated {
    /// Derivation key of the new vault.
    pub vault: Identity,
    /// The identity the vault was created for.
    pub owner: Identity,
    /// Wall-clock time of creation.
    pub timestamp: i64,
}

/// A deposit was transferred in and recorded.
#[derive(Clone, Copy, Debug, PartialEq, Eq, Structural)]
pub struct DepositMade {
    /// Derivation key of the vault deposited into.
    pub vault: Identity,
    /// The amount moved into custody.
    pub amount: u64,
    /// The asset deposited.
    pub mint: AssetId,
    /// Wall-clock time of the deposit.
    pub timestamp: i64,
}

/// A confidential swap record was created.
#[derive(Clone, Copy, Debug, PartialEq, Eq, Structural)]
pub struct SwapInitiated {
    /// Derivation key of the vault the swap belongs to.
    pub vault: Identity,
    /// Source asset.
    pub from_mint: AssetId,
    /// Destination asset.
    pub to_mint: AssetId,
    /// Wall-clock time of initiation.
    pub timestamp: i64,
}

/// A withdrawal was paid out and recorded.
#[derive(Clone, Copy, Debug, PartialEq, Eq, Structural)]
pub struct WithdrawalMade {
    /// Derivation key of the vault withdrawn from.
    pub vault: Identity,
    /// The amount paid out of custody.
    pub amount: u64,
    /// The asset withdrawn.
    pub mint: AssetId,
    /// Wall-clock time of the withdrawal.
    pub timestamp: i64,
}

/// A vault was closed; its totals remain as a historical record.
#[derive(Clone, Copy, Debug, PartialEq, Eq, Structural)]
pub struct VaultClosed {
    /// Derivation key of the closed vault.
    pub vault: Identity,
    /// Wall-clock time of closure.
    pub timestamp: i64,
}

} // verus!
