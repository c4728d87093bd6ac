//! The confidential swap record and its lifecycle.
//!
//! A record is created in `Pending` and is settled exactly once, to
//! `Completed` or to `Failed`; a terminal record never changes again.

use vstd::prelude::*;

use crate::errors::GhostError;
use crate::ids::{AssetId, Identity};

verus! {

/// The bytes of an encrypted swap amount: a fixed-size ciphertext the
/// coordinator stores verbatim and never decrypts.
pub const CIPHERTEXT_LEN: usize = 64;

/// Where a swap record stands in its lifecycle.
#[derive(Clone, Copy, Debug, PartialEq, Eq, Structural)]
pub enum SwapStatus {
    /// Created, not yet settled.
    Pending,
    /// Settled successfully. Terminal.
    Completed,
    /// Settlement failed. Terminal.
    Failed,
}

impl Default for SwapStatus {
    /// A record starts its life `Pending`.
    fn default() -> (s: SwapStatus)
        ensures
            s is Pending,
    {
        SwapStatus::Pending
    }
}

/// Whether a status permits no further transition.
pub open spec fn is_terminal(s: SwapStatus) -> bool {
    s is Completed || s is Failed
}

/// What the settlement process reports back for a pending swap.
#[derive(Clone, Copy, Debug, PartialEq, Eq, Structural)]
pub enum SettlementResult {
    /// The swap went through: the record completes.
    Succeeded,
    /// The swap could not be executed: the record fails.
    Failed,
}

/// One initiated confidential swap. Its storage lifetime is independent of
/// the vault it references: `vault` is a lookup key back to the owning
/// vault, never an owning pointer.
#[derive(Clone, Copy, Debug, PartialEq, Eq)]
pub struct SwapRecord {
    /// Derivation key of the vault the swap belongs to.
    pub vault: Identity,
    /// Source asset.
    pub from_mint: AssetId,
    /// Destination asset.
    pub to_mint: AssetId,
    /// The encrypted amount, stored verbatim.
    pub encrypted_amount: [u8; CIPHERTEXT_LEN],
    /// Wall-clock time of initiation.
    pub timestamp: i64,
    /// Where the record stands in its lifecycle.
    pub status: SwapStatus,
}

/// The status a settlement report moves a pending record to.
pub open spec fn settled_status(settlement: SettlementResult) -> SwapStatus {
    match settlement {
        SettlementResult::Succeeded => SwapStatus::Completed,
        SettlementResult::Failed => SwapStatus::Failed,
    }
}

impl SwapRecord {
    /// Settle this record: the single permitted mutation of a swap record.
    /// Only a `Pending` record may move, and only to the terminal status the
    /// settlement report names.
    pub fn settle(&mut self, settlement: SettlementResult) -> (r: Result<(), GhostError>)
        ensures
            r is Ok <==> old(self).status is Pending,
            old(self).status is Pending ==> *final(self) == (SwapRecord {
                status: settled_status(settlement),
                ..*old(self)
            }),
            !(old(self).status is Pending) ==> (r == Result::<(), GhostError>::Err(
                GhostError::InvalidState,
            )) && *final(self) == *old(self),
    {
        match self.status {
            SwapStatus::Pending => {
                self.status = match settlement {
                    SettlementResult::Succeeded => SwapStatus::Completed,
                    SettlementResult::Failed => SwapStatus::Failed,
                };
                Ok(())
            },
            _ => Err(GhostError::InvalidState),
        }
    }
}

} // verus!
