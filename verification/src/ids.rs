//! Plain identifiers for the actors and assets the ledger speaks of.
//!
//! The storage substrate addresses every persistent record by a key derived
//! from stable inputs, and the token machinery tells holdings apart by the
//! authority that controls them. The core only ever compares such keys for
//! equality, so each is carried here as a plain integer identifier.

use vstd::prelude::*;

verus! {

/// An identity: a signer, a recipient address, or the key a vault is
/// derived from. The core never inspects it beyond equality.
#[derive(Clone, Copy, Debug, PartialEq, Eq, Hash, Structural)]
pub struct Identity {
    pub id: u64,
}

/// A fungible asset (a mint). Compared only for equality.
#[derive(Clone, Copy, Debug, PartialEq, Eq, Hash, Structural)]
pub struct AssetId {
    pub id: u64,
}

/// Who controls a holding of the transfer engine. A vault's custodial
/// holding is kept under the vault's own derived authority, never under the
/// identity that deposited into it: the two are distinct by construction.
#[derive(Clone, Copy, Debug, PartialEq, Eq, Hash, Structural)]
pub enum Holder {
    /// A holding controlled directly by an identity's own signature.
    User(Identity),
    /// The custodial holding of the vault derived from the given identity,
    /// controlled by the vault's own signing authority.
    Vault(Identity),
}

} // verus!
