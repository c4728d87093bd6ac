//! A custodial privacy vault: per-identity vaults that take deposits of
//! fungible assets, initiate confidential swaps whose amounts stay opaque,
//! and pay withdrawals out to addresses that need not be linkable to the
//! depositing identity.
//!
//! The verified core is the vault ledger and the authorization rules built
//! on top of it: how cumulative totals are tracked, when each operation is
//! owed success, and how a swap record moves through its lifecycle. The
//! collaborators around the core — the proof-verification oracle, the token
//! transfer mechanism, persistent storage, and event delivery — are modelled
//! at their interfaces: the transfer engine as a verified ledger of custodial
//! holdings, the proof verifier as a verdict handed in by the caller.

pub mod errors;
pub mod events;
pub mod ids;
pub mod laws;
pub mod ledger;
pub mod swap;
pub mod transfer;
pub mod vault;
