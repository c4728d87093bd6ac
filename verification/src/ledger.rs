//! The operation surface: vault lifecycle, deposits, withdrawals, and
//! confidential swaps, over the stored records and the transfer engine.
//!
//! Each operation is specified twice over the same abstract state: an
//! outcome function that says exactly which inputs yield which result, and a
//! next-state function that says exactly what the stored records become.
//! Every failure leaves the state untouched: the transfer and the ledger
//! update move together or not at all, so the engine is only invoked once
//! every ledger-side check has passed and the ledger counter is only bumped
//! once the engine has accepted.
//!
//! The proof-verification oracle is a collaborator: the caller hands its
//! verdict in, and the contracts state what is done with every verdict.
//! Wall-clock time is likewise handed in by the caller.

use vstd::prelude::*;

use crate::errors::GhostError;
use crate::events::{DepositMade, SwapInitiated, VaultClosed, VaultCreated, WithdrawalMade};
use crate::ids::{AssetId, Holder, Identity};
use crate::swap::{settled_status, SwapRecord, SwapStatus, CIPHERTEXT_LEN};
use crate::swap::SettlementResult;
use crate::transfer::{
    balance_in, transfer_apply, transfer_outcome, Holding, TransferEngine,
};
use crate::vault::{
    has_vault, lemma_vault_index, lemma_vault_index_of_match, lemma_vault_push,
    lemma_vault_update, vault_at, vault_index, PrivateVault,
};

verus! {

/// What the proof-verification oracle said of a proof in its context.
#[derive(Clone, Copy, Debug, PartialEq, Eq, Structural)]
pub enum ProofVerdict {
    /// The proof binds to the claimed operation and holds.
    Accept,
    /// The proof does not hold for the claimed operation.
    Reject,
}

/// The accounts a vault creation names.
#[derive(Clone, Copy, Debug, PartialEq, Eq, Structural)]
pub struct InitializeVault {
    /// The signing identity the vault is created for; also its storage key.
    pub owner: Identity,
}

/// The accounts a deposit names.
#[derive(Clone, Copy, Debug, PartialEq, Eq, Structural)]
pub struct Deposit {
    /// Derivation key of the vault deposited into.
    pub vault: Identity,
    /// The signing identity making the deposit.
    pub owner: Identity,
    /// The asset deposited.
    pub mint: AssetId,
}

/// The accounts a swap initiation names.
#[derive(Clone, Copy, Debug, PartialEq, Eq, Structural)]
pub struct PrivateSwap {
    /// The signing identity; the swap belongs to the vault derived from it.
    pub owner: Identity,
    /// Source asset of the swap.
    pub from_mint: AssetId,
    /// Destination asset of the swap.
    pub to_mint: AssetId,
}

/// The accounts a withdrawal names.
#[derive(Clone, Copy, Debug, PartialEq, Eq, Structural)]
pub struct Withdraw {
    /// Derivation key of the vault withdrawn from.
    pub vault: Identity,
    /// The identity claiming withdrawal authority; it need not be the
    /// vault's owner — the proof, judged by the oracle, carries the claim.
    pub authority: Identity,
    /// The asset withdrawn.
    pub mint: AssetId,
    /// Where the funds go: any address, linked to no deposit.
    pub recipient: Identity,
}

/// The accounts a vault closure names.
#[derive(Clone, Copy, Debug, PartialEq, Eq, Structural)]
pub struct CloseVault {
    /// Derivation key of the vault to close.
    pub vault: Identity,
    /// The signing identity asking for closure.
    pub owner: Identity,
}

/// Everything the service stores, abstractly: the vault records, the swap
/// records, and the engine's custodial holdings.
#[verifier::ext_equal]
pub struct LedgerState {
    /// The stored vault records, at most one per owning identity.
    pub vaults: Seq<PrivateVault>,
    /// The stored swap records, in order of initiation.
    pub swaps: Seq<SwapRecord>,
    /// The transfer engine's holdings.
    pub holdings: Seq<Holding>,
}

impl LedgerState {
    /// Whether a vault record is stored under `key`.
    pub open spec fn has_vault(self, key: Identity) -> bool {
        has_vault(self.vaults, key)
    }

    /// The vault record stored under `key`.
    pub open spec fn vault(self, key: Identity) -> PrivateVault
        recommends
            self.has_vault(key),
    {
        vault_at(self.vaults, key)
    }

    /// Whether `key` resolves to a vault that is open for operations. A key
    /// no record resolves to is treated exactly as a closed vault.
    pub open spec fn vault_active(self, key: Identity) -> bool {
        self.has_vault(key) && self.vault(key).is_active
    }

    /// `holder`'s balance of `mint` in the engine's custody.
    pub open spec fn balance(self, mint: AssetId, holder: Holder) -> u64 {
        balance_in(self.holdings, mint, holder)
    }
}

/// The record a vault creation stores: zeroed totals, active.
pub open spec fn fresh_vault(owner: Identity, vault_bump: u8, now: i64) -> PrivateVault {
    PrivateVault {
        owner,
        bump: vault_bump,
        created_at: now,
        total_deposits: 0u64,
        total_withdrawals: 0u64,
        is_active: true,
    }
}

/// What a vault creation returns: refused exactly when a vault already
/// exists for the identity.
pub open spec fn initialize_vault_outcome(
    pre: LedgerState,
    ctx: InitializeVault,
    vault_bump: u8,
    now: i64,
) -> Result<VaultCreated, GhostError> {
    if pre.has_vault(ctx.owner) {
        Err(GhostError::AlreadyExists)
    } else {
        Ok(VaultCreated { vault: ctx.owner, owner: ctx.owner, timestamp: now })
    }
}

/// The state after a vault creation.
pub open spec fn initialize_vault_next(
    pre: LedgerState,
    ctx: InitializeVault,
    vault_bump: u8,
    now: i64,
) -> LedgerState {
    if pre.has_vault(ctx.owner) {
        pre
    } else {
        LedgerState { vaults: pre.vaults.push(fresh_vault(ctx.owner, vault_bump, now)), ..pre }
    }
}

/// What a deposit returns. A zero amount is refused first; a closed (or
/// unresolved) vault next; a caller other than the vault's owner next — a
/// deposit is the one operation tied to the depositor's identity; a ledger
/// total that would wrap next, before anything moves; and then the transfer
/// engine judges sufficiency.
pub open spec fn deposit_outcome(
    pre: LedgerState,
    ctx: Deposit,
    amount: u64,
    now: i64,
) -> Result<DepositMade, GhostError> {
    if amount == 0 {
        Err(GhostError::InvalidAmount)
    } else if !pre.vault_active(ctx.vault) {
        Err(GhostError::VaultInactive)
    } else if ctx.owner != pre.vault(ctx.vault).owner {
        Err(GhostError::Unauthorized)
    } else if pre.vault(ctx.vault).total_deposits + amount > u64::MAX {
        Err(GhostError::Overflow)
    } else {
        match transfer_outcome(
            pre.holdings,
            ctx.mint,
            Holder::User(ctx.owner),
            Holder::Vault(ctx.vault),
            amount,
            Holder::User(ctx.owner),
        ) {
            Ok(u) => Ok(DepositMade { vault: ctx.vault, amount, mint: ctx.mint, timestamp: now }),
            Err(e) => Err(e),
        }
    }
}

/// The state after a deposit: on acceptance the caller's holding loses
/// `amount` to the vault's custodial holding and `total_deposits` grows by
/// exactly `amount`; on any refusal nothing changes.
pub open spec fn deposit_next(
    pre: LedgerState,
    ctx: Deposit,
    amount: u64,
    now: i64,
) -> LedgerState {
    if deposit_outcome(pre, ctx, amount, now) is Ok {
        let v = pre.vault(ctx.vault);
        LedgerState {
            vaults: pre.vaults.update(
                vault_index(pre.vaults, ctx.vault),
                PrivateVault { total_deposits: (v.total_deposits + amount) as u64, ..v },
            ),
            holdings: transfer_apply(
                pre.holdings,
                ctx.mint,
                Holder::User(ctx.owner),
                Holder::Vault(ctx.vault),
                amount,
            ),
            ..pre
        }
    } else {
        pre
    }
}

/// What a withdrawal returns. A zero amount is refused first; a closed (or
/// unresolved) vault next; an empty proof next, before the oracle is
/// consulted; a rejected proof next; a ledger total that would wrap next;
/// and then the engine judges whether the vault's custody holds the funds.
pub open spec fn withdraw_outcome(
    pre: LedgerState,
    ctx: Withdraw,
    amount: u64,
    withdrawal_proof: Seq<u8>,
    verdict: ProofVerdict,
    now: i64,
) -> Result<WithdrawalMade, GhostError> {
    if amount == 0 {
        Err(GhostError::InvalidAmount)
    } else if !pre.vault_active(ctx.vault) {
        Err(GhostError::VaultInactive)
    } else if withdrawal_proof.len() == 0 {
        Err(GhostError::InvalidProof)
    } else if verdict is Reject {
        Err(GhostError::Unauthorized)
    } else if pre.vault(ctx.vault).total_withdrawals + amount > u64::MAX {
        Err(GhostError::Overflow)
    } else {
        match transfer_outcome(
            pre.holdings,
            ctx.mint,
            Holder::Vault(ctx.vault),
            Holder::User(ctx.recipient),
            amount,
            Holder::Vault(ctx.vault),
        ) {
            Ok(u) => Ok(
                WithdrawalMade { vault: ctx.vault, amount, mint: ctx.mint, timestamp: now },
            ),
            Err(e) => Err(e),
        }
    }
}

/// The state after a withdrawal: on acceptance the vault's custodial holding
/// loses `amount` to the recipient's holding — paid under the vault's own
/// derived authority, not the caller's identity — and `total_withdrawals`
/// grows by exactly `amount`; on any refusal nothing changes.
pub open spec fn withdraw_next(
    pre: LedgerState,
    ctx: Withdraw,
    amount: u64,
    withdrawal_proof: Seq<u8>,
    verdict: ProofVerdict,
    now: i64,
) -> LedgerState {
    if withdraw_outcome(pre, ctx, amount, withdrawal_proof, verdict, now) is Ok {
        let v = pre.vault(ctx.vault);
        LedgerState {
            vaults: pre.vaults.update(
                vault_index(pre.vaults, ctx.vault),
                PrivateVault { total_withdrawals: (v.total_withdrawals + amount) as u64, ..v },
            ),
            holdings: transfer_apply(
                pre.holdings,
                ctx.mint,
                Holder::Vault(ctx.vault),
                Holder::User(ctx.recipient),
                amount,
            ),
            ..pre
        }
    } else {
        pre
    }
}

/// The record a swap initiation stores: the ciphertext verbatim, `Pending`.
pub open spec fn fresh_swap(
    ctx: PrivateSwap,
    encrypted_amount: [u8; CIPHERTEXT_LEN],
    now: i64,
) -> SwapRecord {
    SwapRecord {
        vault: ctx.owner,
        from_mint: ctx.from_mint,
        to_mint: ctx.to_mint,
        encrypted_amount,
        timestamp: now,
        status: SwapStatus::Pending,
    }
}

/// What a swap initiation returns. A closed (or unresolved) vault is
/// refused; then an empty proof; then a proof the oracle rejects — no
/// unverified record is ever persisted.
pub open spec fn private_swap_outcome(
    pre: LedgerState,
    ctx: PrivateSwap,
    proof_data: Seq<u8>,
    verdict: ProofVerdict,
    now: i64,
) -> Result<SwapInitiated, GhostError> {
    if !pre.vault_active(ctx.owner) {
        Err(GhostError::VaultInactive)
    } else if proof_data.len() == 0 {
        Err(GhostError::InvalidProof)
    } else if verdict is Reject {
        Err(GhostError::InvalidProof)
    } else {
        Ok(
            SwapInitiated {
                vault: ctx.owner,
                from_mint: ctx.from_mint,
                to_mint: ctx.to_mint,
                timestamp: now,
            },
        )
    }
}

/// The state after a swap initiation: on acceptance exactly one new record,
/// in `Pending`; on any refusal nothing changes.
pub open spec fn private_swap_next(
    pre: LedgerState,
    ctx: PrivateSwap,
    encrypted_amount: [u8; CIPHERTEXT_LEN],
    proof_data: Seq<u8>,
    verdict: ProofVerdict,
    now: i64,
) -> LedgerState {
    if private_swap_outcome(pre, ctx, proof_data, verdict, now) is Ok {
        LedgerState { swaps: pre.swaps.push(fresh_swap(ctx, encrypted_amount, now)), ..pre }
    } else {
        pre
    }
}

/// What a closure returns: only the vault's owner may close it, a vault
/// already closed (or unresolved) is refused, and closure is not reversible.
pub open spec fn close_vault_outcome(
    pre: LedgerState,
    ctx: CloseVault,
    now: i64,
) -> Result<VaultClosed, GhostError> {
    if !pre.has_vault(ctx.vault) {
        Err(GhostError::VaultInactive)
    } else if ctx.owner != pre.vault(ctx.vault).owner {
        Err(GhostError::Unauthorized)
    } else if !pre.vault(ctx.vault).is_active {
        Err(GhostError::VaultInactive)
    } else {
        Ok(VaultClosed { vault: ctx.vault, timestamp: now })
    }
}

/// The state after a closure: the record stays, totals untouched as a
/// historical record, with `is_active` cleared.
pub open spec fn close_vault_next(pre: LedgerState, ctx: CloseVault, now: i64) -> LedgerState {
    if close_vault_outcome(pre, ctx, now) is Ok {
        let v = pre.vault(ctx.vault);
        LedgerState {
            vaults: pre.vaults.update(
                vault_index(pre.vaults, ctx.vault),
                PrivateVault { is_active: false, ..v },
            ),
            ..pre
        }
    } else {
        pre
    }
}

/// What a settlement returns: only a handle to a `Pending` record is
/// accepted.
pub open spec fn settle_swap_outcome(
    pre: LedgerState,
    handle: int,
    settlement: SettlementResult,
) -> Result<(), GhostError> {
    if 0 <= handle < pre.swaps.len() && pre.swaps[handle].status is Pending {
        Ok(())
    } else {
        Err(GhostError::InvalidState)
    }
}

/// The state after a settlement: the one record moves to the terminal
/// status the report names; everything else stays.
pub open spec fn settle_swap_next(
    pre: LedgerState,
    handle: int,
    settlement: SettlementResult,
) -> LedgerState {
    if settle_swap_outcome(pre, handle, settlement) is Ok {
        LedgerState {
            swaps: pre.swaps.update(
                handle,
                SwapRecord { status: settled_status(settlement), ..pre.swaps[handle] },
            ),
            ..pre
        }
    } else {
        pre
    }
}

/// The custodial privacy vault service: the stored vault and swap records
/// and the transfer engine's holdings, with the public operation surface.
pub struct Ghostbuys {
    /// The stored vault records, at most one per owning identity.
    pub vaults: Vec<PrivateVault>,
    /// The stored swap records; a record's handle is its position here.
    pub swaps: Vec<SwapRecord>,
    /// The transfer engine holding custodial balances.
    pub engine: TransferEngine,
}

impl View for Ghostbuys {
    type V = LedgerState;

    open spec fn view(&self) -> LedgerState {
        LedgerState { vaults: self.vaults@, swaps: self.swaps@, holdings: self.engine@ }
    }
}

impl Ghostbuys {
    /// A service with no vaults, no swaps, and an empty engine.
    pub fn new() -> (g: Ghostbuys)
        ensures
            g@.vaults == Seq::<PrivateVault>::empty(),
            g@.swaps == Seq::<SwapRecord>::empty(),
            g@.holdings == Seq::<Holding>::empty(),
    {
        Ghostbuys { vaults: Vec::new(), swaps: Vec::new(), engine: TransferEngine::new() }
    }

    /// Index of the vault record stored under `key`, or the number of
    /// records when none is.
    fn find_vault(&self, key: Identity) -> (i: usize)
        ensures
            i == vault_index(self@.vaults, key),
    {
        let n = self.vaults.len();
        let mut i: usize = 0;
        while i < n
            invariant
                0 <= i <= n,
                n == self@.vaults.len(),
                forall|j: int| 0 <= j < i ==> self@.vaults[j].owner != key,
            decreases n - i,
        {
            if self.vaults[i].owner == key {
                proof {
                    lemma_vault_index_of_match(self@.vaults, key, i as int);
                }
                return i;
            }
            i = i + 1;
        }
        proof {
            lemma_vault_index(self@.vaults, key);
        }
        i
    }

    /// Create the vault for `ctx.owner`: refused with `AlreadyExists` when
    /// one exists (even a closed one — a key is never reused); otherwise the
    /// new record has zeroed totals and is active.
    pub fn initialize_vault(&mut self, ctx: InitializeVault, vault_bump: u8, now: i64) -> (r:
        Result<VaultCreated, GhostError>)
        ensures
            final(self)@ == initialize_vault_next(old(self)@, ctx, vault_bump, now),
            r == initialize_vault_outcome(old(self)@, ctx, vault_bump, now),
            r is Ok <==> !old(self)@.has_vault(ctx.owner),
            r is Ok ==> final(self)@.has_vault(ctx.owner) && final(self)@.vault(ctx.owner)
                == fresh_vault(ctx.owner, vault_bump, now),
            forall|k: Identity|
                k != ctx.owner ==> final(self)@.has_vault(k) == old(self)@.has_vault(k) && (old(
                    self,
                )@.has_vault(k) ==> final(self)@.vault(k) == old(self)@.vault(k)),
            r is Err ==> final(self)@ == old(self)@,
    {
        let i = self.find_vault(ctx.owner);
        if i < self.vaults.len() {
            return Err(GhostError::AlreadyExists);
        }
        let v = PrivateVault {
            owner: ctx.owner,
            bump: vault_bump,
            created_at: now,
            total_deposits: 0,
            total_withdrawals: 0,
            is_active: true,
        };
        proof {
            lemma_vault_push(self@.vaults, v);
        }
        self.vaults.push(v);
        Ok(VaultCreated { vault: ctx.owner, owner: ctx.owner, timestamp: now })
    }

    /// Deposit `amount` of `ctx.mint` into the vault: the engine moves the
    /// funds from the caller's holding into the vault's custody, and only
    /// then does `total_deposits` grow, by exactly `amount`. Any refusal —
    /// zero amount, closed vault, foreign caller, a total that would wrap,
    /// or the engine's — leaves everything unchanged.
    pub fn deposit(&mut self, ctx: Deposit, amount: u64, now: i64) -> (r: Result<
        DepositMade,
        GhostError,
    >)
        ensures
            final(self)@ == deposit_next(old(self)@, ctx, amount, now),
            r == deposit_outcome(old(self)@, ctx, amount, now),
            r is Ok ==> final(self)@.has_vault(ctx.vault) && final(self)@.vault(ctx.vault)
                == (PrivateVault {
                total_deposits: (old(self)@.vault(ctx.vault).total_deposits + amount) as u64,
                ..old(self)@.vault(ctx.vault)
            }),
            r is Ok ==> final(self)@.vault(ctx.vault).total_deposits == old(self)@.vault(
                ctx.vault,
            ).total_deposits + amount,
            forall|k: Identity|
                k != ctx.vault ==> final(self)@.has_vault(k) == old(self)@.has_vault(k) && (old(
                    self,
                )@.has_vault(k) ==> final(self)@.vault(k) == old(self)@.vault(k)),
            r is Ok ==> final(self)@.balance(ctx.mint, Holder::Vault(ctx.vault)) == old(
                self,
            )@.balance(ctx.mint, Holder::Vault(ctx.vault)) + amount,
            r is Ok ==> final(self)@.balance(ctx.mint, Holder::User(ctx.owner)) == old(
                self,
            )@.balance(ctx.mint, Holder::User(ctx.owner)) - amount,
            forall|m: AssetId, h: Holder|
                !(m == ctx.mint && (h == Holder::User(ctx.owner) || h == Holder::Vault(
                    ctx.vault,
                ))) ==> final(self)@.balance(m, h) == old(self)@.balance(m, h),
            r is Err ==> final(self)@ == old(self)@,
            r matches Ok(ev) ==> ev == (DepositMade {
                vault: ctx.vault,
                amount,
                mint: ctx.mint,
                timestamp: now,
            }),
    {
        if amount == 0 {
            return Err(GhostError::InvalidAmount);
        }
        let i = self.find_vault(ctx.vault);
        proof {
            lemma_vault_index(self@.vaults, ctx.vault);
        }
        if i >= self.vaults.len() {
            return Err(GhostError::VaultInactive);
        }
        let v = self.vaults[i];
        if !v.is_active {
            return Err(GhostError::VaultInactive);
        }
        if ctx.owner != v.owner {
            return Err(GhostError::Unauthorized);
        }
        if amount > u64::MAX - v.total_deposits {
            return Err(GhostError::Overflow);
        }
        let moved = self.engine.transfer(
            ctx.mint,
            Holder::User(ctx.owner),
            Holder::Vault(ctx.vault),
            amount,
            Holder::User(ctx.owner),
        );
        match moved {
            Err(e) => Err(e),
            Ok(u) => {
                let v2 = PrivateVault { total_deposits: v.total_deposits + amount, ..v };
                proof {
                    lemma_vault_update(self@.vaults, i as int, v2);
                }
                self.vaults[i] = v2;
                Ok(DepositMade { vault: ctx.vault, amount, mint: ctx.mint, timestamp: now })
            },
        }
    }

    /// Initiate a confidential swap: the ciphertext is stored verbatim,
    /// never decrypted, and a record is persisted — always in `Pending` —
    /// only once the proof is non-empty and the oracle has accepted it. On
    /// acceptance the returned handle names the new record.
    pub fn private_swap(
        &mut self,
        ctx: PrivateSwap,
        encrypted_amount: [u8; CIPHERTEXT_LEN],
        proof_data: Vec<u8>,
        verdict: ProofVerdict,
        now: i64,
    ) -> (r: Result<(usize, SwapInitiated), GhostError>)
        ensures
            final(self)@ == private_swap_next(
                old(self)@,
                ctx,
                encrypted_amount,
                proof_data@,
                verdict,
                now,
            ),
            r is Ok <==> private_swap_outcome(old(self)@, ctx, proof_data@, verdict, now) is Ok,
            r matches Ok(ok) ==> ok.0 == old(self)@.swaps.len() && private_swap_outcome(
                old(self)@,
                ctx,
                proof_data@,
                verdict,
                now,
            ) == Ok::<SwapInitiated, GhostError>(ok.1),
            r matches Err(e) ==> private_swap_outcome(old(self)@, ctx, proof_data@, verdict, now)
                == Err::<SwapInitiated, GhostError>(e),
            r is Ok ==> final(self)@.swaps == old(self)@.swaps.push(
                fresh_swap(ctx, encrypted_amount, now),
            ),
            r is Err ==> final(self)@ == old(self)@,
    {
        let i = self.find_vault(ctx.owner);
        proof {
            lemma_vault_index(self@.vaults, ctx.owner);
        }
        if i >= self.vaults.len() {
            return Err(GhostError::VaultInactive);
        }
        if !self.vaults[i].is_active {
            return Err(GhostError::VaultInactive);
        }
        if proof_data.len() == 0 {
            return Err(GhostError::InvalidProof);
        }
        match verdict {
            ProofVerdict::Reject => Err(GhostError::InvalidProof),
            ProofVerdict::Accept => {
                let handle = self.swaps.len();
                self.swaps.push(
                    SwapRecord {
                        vault: ctx.owner,
                        from_mint: ctx.from_mint,
                        to_mint: ctx.to_mint,
                        encrypted_amount,
                        timestamp: now,
                        status: SwapStatus::Pending,
                    },
                );
                Ok(
                    (
                        handle,
                        SwapInitiated {
                            vault: ctx.owner,
                            from_mint: ctx.from_mint,
                            to_mint: ctx.to_mint,
                            timestamp: now,
                        },
                    ),
                )
            },
        }
    }

    /// Withdraw `amount` of `ctx.mint` to any recipient: the proof — not the
    /// caller's identity — carries the claim, so a withdrawal address need
    /// not be linkable to the deposits. The engine pays out of the vault's
    /// custody under the vault's own derived authority, and only then does
    /// `total_withdrawals` grow, by exactly `amount`. Any refusal leaves
    /// everything unchanged.
    pub fn withdraw(
        &mut self,
        ctx: Withdraw,
        amount: u64,
        withdrawal_proof: Vec<u8>,
        verdict: ProofVerdict,
        now: i64,
    ) -> (r: Result<WithdrawalMade, GhostError>)
        ensures
            final(self)@ == withdraw_next(
                old(self)@,
                ctx,
                amount,
                withdrawal_proof@,
                verdict,
                now,
            ),
            r == withdraw_outcome(old(self)@, ctx, amount, withdrawal_proof@, verdict, now),
            r is Ok ==> final(self)@.has_vault(ctx.vault) && final(self)@.vault(ctx.vault)
                == (PrivateVault {
                total_withdrawals: (old(self)@.vault(ctx.vault).total_withdrawals + amount) as u64,
                ..old(self)@.vault(ctx.vault)
            }),
            r is Ok ==> final(self)@.vault(ctx.vault).total_withdrawals == old(self)@.vault(
                ctx.vault,
            ).total_withdrawals + amount,
            forall|k: Identity|
                k != ctx.vault ==> final(self)@.has_vault(k) == old(self)@.has_vault(k) && (old(
                    self,
                )@.has_vault(k) ==> final(self)@.vault(k) == old(self)@.vault(k)),
            r is Ok ==> final(self)@.balance(ctx.mint, Holder::User(ctx.recipient)) == old(
                self,
            )@.balance(ctx.mint, Holder::User(ctx.recipient)) + amount,
            r is Ok ==> final(self)@.balance(ctx.mint, Holder::Vault(ctx.vault)) == old(
                self,
            )@.balance(ctx.mint, Holder::Vault(ctx.vault)) - amount,
            forall|m: AssetId, h: Holder|
                !(m == ctx.mint && (h == Holder::Vault(ctx.vault) || h == Holder::User(
                    ctx.recipient,
                ))) ==> final(self)@.balance(m, h) == old(self)@.balance(m, h),
            r is Err ==> final(self)@ == old(self)@,
            r matches Ok(ev) ==> ev == (WithdrawalMade {
                vault: ctx.vault,
                amount,
                mint: ctx.mint,
                timestamp: now,
            }),
    {
        if amount == 0 {
            return Err(GhostError::InvalidAmount);
        }
        let i = self.find_vault(ctx.vault);
        proof {
            lemma_vault_index(self@.vaults, ctx.vault);
        }
        if i >= self.vaults.len() {
            return Err(GhostError::VaultInactive);
        }
        let v = self.vaults[i];
        if !v.is_active {
            return Err(GhostError::VaultInactive);
        }
        if withdrawal_proof.len() == 0 {
            return Err(GhostError::InvalidProof);
        }
        match verdict {
            ProofVerdict::Reject => {
                return Err(GhostError::Unauthorized);
            },
            ProofVerdict::Accept => {},
        }
        if amount > u64::MAX - v.total_withdrawals {
            return Err(GhostError::Overflow);
        }
        let moved = self.engine.transfer(
            ctx.mint,
            Holder::Vault(ctx.vault),
            Holder::User(ctx.recipient),
            amount,
            Holder::Vault(ctx.vault),
        );
        match moved {
            Err(e) => Err(e),
            Ok(u) => {
                let v2 = PrivateVault { total_withdrawals: v.total_withdrawals + amount, ..v };
                proof {
                    lemma_vault_update(self@.vaults, i as int, v2);
                }
                self.vaults[i] = v2;
                Ok(WithdrawalMade { vault: ctx.vault, amount, mint: ctx.mint, timestamp: now })
            },
        }
    }

    /// Close the vault: only its owner may, closure is not reversible, and
    /// the totals stay behind as a historical record.
    pub fn close_vault(&mut self, ctx: CloseVault, now: i64) -> (r: Result<
        VaultClosed,
        GhostError,
    >)
        ensures
            final(self)@ == close_vault_next(old(self)@, ctx, now),
            r == close_vault_outcome(old(self)@, ctx, now),
            r is Ok ==> final(self)@.has_vault(ctx.vault) && !final(self)@.vault(
                ctx.vault,
            ).is_active,
            r is Ok ==> final(self)@.vault(ctx.vault) == (PrivateVault {
                is_active: false,
                ..old(self)@.vault(ctx.vault)
            }),
            forall|k: Identity|
                k != ctx.vault ==> final(self)@.has_vault(k) == old(self)@.has_vault(k) && (old(
                    self,
                )@.has_vault(k) ==> final(self)@.vault(k) == old(self)@.vault(k)),
            r is Err ==> final(self)@ == old(self)@,
    {
        let i = self.find_vault(ctx.vault);
        proof {
            lemma_vault_index(self@.vaults, ctx.vault);
        }
        if i >= self.vaults.len() {
            return Err(GhostError::VaultInactive);
        }
        let v = self.vaults[i];
        if ctx.owner != v.owner {
            return Err(GhostError::Unauthorized);
        }
        if !v.is_active {
            return Err(GhostError::VaultInactive);
        }
        let v2 = PrivateVault { is_active: false, ..v };
        proof {
            lemma_vault_update(self@.vaults, i as int, v2);
        }
        self.vaults[i] = v2;
        Ok(VaultClosed { vault: ctx.vault, timestamp: now })
    }

    /// Settle a pending swap record: the settlement process's callback, and
    /// the only path out of `Pending`. A record that is not pending — or a
    /// handle that names no record — is refused, untouched.
    pub fn settle_swap(&mut self, handle: usize, settlement: SettlementResult) -> (r: Result<
        (),
        GhostError,
    >)
        ensures
            final(self)@ == settle_swap_next(old(self)@, handle as int, settlement),
            r == settle_swap_outcome(old(self)@, handle as int, settlement),
            r is Ok <==> handle < old(self)@.swaps.len() && old(self)@.swaps[handle as int].status
                is Pending,
            r is Ok ==> final(self)@.swaps[handle as int].status == settled_status(settlement),
            r is Err ==> final(self)@ == old(self)@,
    {
        if handle >= self.swaps.len() {
            return Err(GhostError::InvalidState);
        }
        let mut record = self.swaps[handle];
        match record.settle(settlement) {
            Ok(u) => {
                self.swaps[handle] = record;
                Ok(())
            },
            Err(e) => Err(e),
        }
    }
}

} // verus!
