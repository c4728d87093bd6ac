//! What holds across whole histories of operations, not just single calls.
//!
//! Each operation's contract ties it to its next-state function, so a
//! history of calls is the fold of those functions over the requests. The
//! proofs here quantify over such histories: how a vault's totals relate to
//! the deposits a history accepted, that closure is final, that an empty
//! withdrawal proof moves nothing, and that a settled swap record never
//! changes again.

use vstd::prelude::*;

use crate::errors::GhostError;
use crate::events::{DepositMade, WithdrawalMade};
use crate::ids::Identity;
use crate::ledger::{
    close_vault_next, close_vault_outcome, deposit_next, deposit_outcome, fresh_swap,
    fresh_vault, initialize_vault_next, private_swap_next, private_swap_outcome,
    settle_swap_next, settle_swap_outcome, withdraw_next, withdraw_outcome, CloseVault,
    Deposit, InitializeVault, LedgerState, PrivateSwap, ProofVerdict, Withdraw,
};
use crate::swap::{is_terminal, SettlementResult, CIPHERTEXT_LEN};
use crate::vault::{
    lemma_vault_index, lemma_vault_push, lemma_vault_update, vault_at, vault_index, PrivateVault,
};

verus! {

/// One call of the operation surface, with everything its outcome depends
/// on: the accounts named, the plain inputs, and the collaborators'
/// contributions (the oracle's verdict, the clock's reading).
#[allow(inconsistent_fields)]
pub enum Request {
    /// A vault creation.
    InitializeVault { ctx: InitializeVault, vault_bump: u8, now: i64 },
    /// A deposit.
    Deposit { ctx: Deposit, amount: u64, now: i64 },
    /// A swap initiation.
    PrivateSwap {
        ctx: PrivateSwap,
        encrypted_amount: [u8; CIPHERTEXT_LEN],
        proof_data: Seq<u8>,
        verdict: ProofVerdict,
        now: i64,
    },
    /// A withdrawal.
    Withdraw {
        ctx: Withdraw,
        amount: u64,
        withdrawal_proof: Seq<u8>,
        verdict: ProofVerdict,
        now: i64,
    },
    /// A vault closure.
    CloseVault { ctx: CloseVault, now: i64 },
    /// A settlement callback.
    SettleSwap { handle: int, settlement: SettlementResult },
}

/// The state one request leaves behind.
pub open spec fn step(s: LedgerState, req: Request) -> LedgerState {
    match req {
        Request::InitializeVault { ctx, vault_bump, now } => initialize_vault_next(
            s,
            ctx,
            vault_bump,
            now,
        ),
        Request::Deposit { ctx, amount, now } => deposit_next(s, ctx, amount, now),
        Request::PrivateSwap { ctx, encrypted_amount, proof_data, verdict, now } => private_swap_next(
            s,
            ctx,
            encrypted_amount,
            proof_data,
            verdict,
            now,
        ),
        Request::Withdraw { ctx, amount, withdrawal_proof, verdict, now } => withdraw_next(
            s,
            ctx,
            amount,
            withdrawal_proof,
            verdict,
            now,
        ),
        Request::CloseVault { ctx, now } => close_vault_next(s, ctx, now),
        Request::SettleSwap { handle, settlement } => settle_swap_next(s, handle, settlement),
    }
}

/// The state a whole history of requests leaves behind.
pub open spec fn run(s: LedgerState, reqs: Seq<Request>) -> LedgerState
    decreases reqs.len(),
{
    if reqs.len() == 0 {
        s
    } else {
        run(step(s, reqs[0]), reqs.drop_first())
    }
}

/// What one request adds to `key`'s cumulative deposits: the amount of a
/// deposit into `key`'s vault that the state accepts, and nothing otherwise.
pub open spec fn accepted_deposit_amount(s: LedgerState, req: Request, key: Identity) -> int {
    match req {
        Request::Deposit { ctx, amount, now } => {
            if ctx.vault == key && deposit_outcome(s, ctx, amount, now) is Ok {
                amount as int
            } else {
                0
            }
        },
        _ => 0,
    }
}

/// The sum of the deposit amounts into `key`'s vault that a history
/// accepts, each judged against the state it found.
pub open spec fn deposits_accepted(s: LedgerState, reqs: Seq<Request>, key: Identity) -> int
    decreases reqs.len(),
{
    if reqs.len() == 0 {
        0
    } else {
        accepted_deposit_amount(s, reqs[0], key) + deposits_accepted(
            step(s, reqs[0]),
            reqs.drop_first(),
            key,
        )
    }
}

/// How one request, whatever it is, treats an existing vault record: the
/// record survives, its identity fields never change, `total_deposits`
/// grows by exactly the accepted deposit amount, `total_withdrawals` never
/// shrinks, activity is only ever cleared — and a record already closed is
/// not touched at all.
pub proof fn lemma_step_vault(s: LedgerState, req: Request, key: Identity)
    requires
        s.has_vault(key),
    ensures
        step(s, req).has_vault(key),
        step(s, req).vault(key).owner == s.vault(key).owner,
        step(s, req).vault(key).bump == s.vault(key).bump,
        step(s, req).vault(key).created_at == s.vault(key).created_at,
        step(s, req).vault(key).total_deposits == s.vault(key).total_deposits
            + accepted_deposit_amount(s, req, key),
        step(s, req).vault(key).total_withdrawals >= s.vault(key).total_withdrawals,
        step(s, req).vault(key).is_active ==> s.vault(key).is_active,
        !s.vault(key).is_active ==> step(s, req).vault(key) == s.vault(key),
{
    lemma_vault_index(s.vaults, key);
    match req {
        Request::InitializeVault { ctx, vault_bump, now } => {
            if !s.has_vault(ctx.owner) {
                lemma_vault_push(s.vaults, fresh_vault(ctx.owner, vault_bump, now));
            }
        },
        Request::Deposit { ctx, amount, now } => {
            if deposit_outcome(s, ctx, amount, now) is Ok {
                lemma_vault_index(s.vaults, ctx.vault);
                let v = vault_at(s.vaults, ctx.vault);
                let v2 = PrivateVault { total_deposits: (v.total_deposits + amount) as u64, ..v };
                lemma_vault_update(s.vaults, vault_index(s.vaults, ctx.vault), v2);
            }
        },
        Request::Withdraw { ctx, amount, withdrawal_proof, verdict, now } => {
            if withdraw_outcome(s, ctx, amount, withdrawal_proof, verdict, now) is Ok {
                lemma_vault_index(s.vaults, ctx.vault);
                let v = vault_at(s.vaults, ctx.vault);
                let v2 = PrivateVault {
                    total_withdrawals: (v.total_withdrawals + amount) as u64,
                    ..v
                };
                lemma_vault_update(s.vaults, vault_index(s.vaults, ctx.vault), v2);
            }
        },
        Request::CloseVault { ctx, now } => {
            if close_vault_outcome(s, ctx, now) is Ok {
                lemma_vault_index(s.vaults, ctx.vault);
                let v = vault_at(s.vaults, ctx.vault);
                let v2 = PrivateVault { is_active: false, ..v };
                lemma_vault_update(s.vaults, vault_index(s.vaults, ctx.vault), v2);
            }
        },
        Request::PrivateSwap { ctx, encrypted_amount, proof_data, verdict, now } => {},
        Request::SettleSwap { handle, settlement } => {},
    }
}

/// How a whole history treats an existing vault record: `lemma_step_vault`,
/// folded. In particular the cumulative deposit total equals the starting
/// total plus the sum of exactly the accepted deposit amounts — it never
/// decreases and never wraps — and once the record is inactive it stays
/// frozen, word for word.
pub proof fn lemma_run_vault(s: LedgerState, reqs: Seq<Request>, key: Identity)
    requires
        s.has_vault(key),
    ensures
        run(s, reqs).has_vault(key),
        run(s, reqs).vault(key).owner == s.vault(key).owner,
        run(s, reqs).vault(key).bump == s.vault(key).bump,
        run(s, reqs).vault(key).created_at == s.vault(key).created_at,
        deposits_accepted(s, reqs, key) >= 0,
        run(s, reqs).vault(key).total_deposits == s.vault(key).total_deposits
            + deposits_accepted(s, reqs, key),
        run(s, reqs).vault(key).total_deposits >= s.vault(key).total_deposits,
        run(s, reqs).vault(key).total_withdrawals >= s.vault(key).total_withdrawals,
        run(s, reqs).vault(key).is_active ==> s.vault(key).is_active,
        !s.vault(key).is_active ==> run(s, reqs).vault(key) == s.vault(key),
    decreases reqs.len(),
{
    if reqs.len() > 0 {
        lemma_step_vault(s, reqs[0], key);
        lemma_run_vault(step(s, reqs[0]), reqs.drop_first(), key);
    }
}

/// Over every history of requests, a vault's `total_deposits` equals its
/// starting total plus the sum of the amounts of exactly those deposits the
/// history accepted — the ones whose transfer the engine carried out — so
/// the total never decreases; and since the total is carried in a machine
/// word whose additions are checked, a deposit that would wrap is refused
/// rather than wrapped.
pub proof fn lemma_deposit_totals(s: LedgerState, reqs: Seq<Request>, key: Identity)
    requires
        s.has_vault(key),
    ensures
        run(s, reqs).vault(key).total_deposits == s.vault(key).total_deposits
            + deposits_accepted(s, reqs, key),
        run(s, reqs).vault(key).total_deposits >= s.vault(key).total_deposits,
        s.vault(key).total_deposits + deposits_accepted(s, reqs, key) <= u64::MAX,
{
    lemma_run_vault(s, reqs, key);
}

/// Once `close_vault` has succeeded, every later `deposit` and `withdraw`
/// on that vault is refused with `VaultInactive` and changes nothing —
/// whoever calls, whatever proof or verdict they carry, and whatever other
/// operations ran in between. (A zero amount is refused as `InvalidAmount`
/// before the vault is even consulted, so the amounts here are nonzero.)
pub proof fn lemma_close_then_vault_inactive(
    s: LedgerState,
    close_ctx: CloseVault,
    close_now: i64,
    later: Seq<Request>,
    dep_ctx: Deposit,
    dep_amount: u64,
    dep_now: i64,
    wd_ctx: Withdraw,
    wd_amount: u64,
    wd_proof: Seq<u8>,
    wd_verdict: ProofVerdict,
    wd_now: i64,
)
    requires
        close_vault_outcome(s, close_ctx, close_now) is Ok,
        dep_ctx.vault == close_ctx.vault,
        dep_amount != 0,
        wd_ctx.vault == close_ctx.vault,
        wd_amount != 0,
    ensures
        ({
            let t = run(close_vault_next(s, close_ctx, close_now), later);
            &&& deposit_outcome(t, dep_ctx, dep_amount, dep_now) == Err::<
                DepositMade,
                GhostError,
            >(GhostError::VaultInactive)
            &&& deposit_next(t, dep_ctx, dep_amount, dep_now) == t
            &&& withdraw_outcome(t, wd_ctx, wd_amount, wd_proof, wd_verdict, wd_now) == Err::<
                WithdrawalMade,
                GhostError,
            >(GhostError::VaultInactive)
            &&& withdraw_next(t, wd_ctx, wd_amount, wd_proof, wd_verdict, wd_now) == t
        }),
{
    let closed = close_vault_next(s, close_ctx, close_now);
    lemma_vault_index(s.vaults, close_ctx.vault);
    let v = vault_at(s.vaults, close_ctx.vault);
    let v2 = PrivateVault { is_active: false, ..v };
    lemma_vault_update(s.vaults, vault_index(s.vaults, close_ctx.vault), v2);
    lemma_run_vault(closed, later, close_ctx.vault);
}

/// A withdrawal whose proof is empty changes nothing — `total_withdrawals`
/// in particular — whatever the vault's state; and wherever the vault was
/// open to a nonzero withdrawal at all, the refusal it reports is
/// `InvalidProof`.
pub proof fn lemma_withdraw_empty_proof(
    s: LedgerState,
    ctx: Withdraw,
    amount: u64,
    withdrawal_proof: Seq<u8>,
    verdict: ProofVerdict,
    now: i64,
)
    requires
        withdrawal_proof.len() == 0,
    ensures
        withdraw_next(s, ctx, amount, withdrawal_proof, verdict, now) == s,
        withdraw_outcome(s, ctx, amount, withdrawal_proof, verdict, now) is Err,
        amount != 0 && s.vault_active(ctx.vault) ==> withdraw_outcome(
            s,
            ctx,
            amount,
            withdrawal_proof,
            verdict,
            now,
        ) == Err::<WithdrawalMade, GhostError>(GhostError::InvalidProof),
{
}

/// A swap initiation persists a record only in `Pending`: whenever it adds
/// a record at all, it adds exactly one, at the end, and that record is
/// pending.
pub proof fn lemma_swap_created_pending(
    s: LedgerState,
    ctx: PrivateSwap,
    encrypted_amount: [u8; CIPHERTEXT_LEN],
    proof_data: Seq<u8>,
    verdict: ProofVerdict,
    now: i64,
)
    ensures
        ({
            let t = private_swap_next(s, ctx, encrypted_amount, proof_data, verdict, now);
            &&& private_swap_outcome(s, ctx, proof_data, verdict, now) is Ok ==> t.swaps
                == s.swaps.push(fresh_swap(ctx, encrypted_amount, now)) && t.swaps.last().status
                is Pending
            &&& !(private_swap_outcome(s, ctx, proof_data, verdict, now) is Ok) ==> t == s
        }),
{
}

/// How one request, whatever it is, treats a swap record that has reached a
/// terminal status: the record is still there, word for word — a settlement
/// aimed at it is refused, and nothing else touches swap records at all.
pub proof fn lemma_step_swap_terminal(s: LedgerState, req: Request, i: int)
    requires
        0 <= i < s.swaps.len(),
        is_terminal(s.swaps[i].status),
    ensures
        step(s, req).swaps.len() >= s.swaps.len(),
        step(s, req).swaps[i] == s.swaps[i],
{
    match req {
        Request::SettleSwap { handle, settlement } => {
            if settle_swap_outcome(s, handle, settlement) is Ok {
                assert(handle != i);
            }
        },
        _ => {},
    }
}

/// No observable sequence of calls moves a swap record out of `Completed`
/// or `Failed`: once terminal, the record — status, ciphertext, assets,
/// vault reference, timestamp — survives every later history unchanged.
pub proof fn lemma_terminal_swap_immutable(s: LedgerState, reqs: Seq<Request>, i: int)
    requires
        0 <= i < s.swaps.len(),
        is_terminal(s.swaps[i].status),
    ensures
        run(s, reqs).swaps.len() >= s.swaps.len(),
        run(s, reqs).swaps[i] == s.swaps[i],
    decreases reqs.len(),
{
    if reqs.len() > 0 {
        lemma_step_swap_terminal(s, reqs[0], i);
        lemma_terminal_swap_immutable(step(s, reqs[0]), reqs.drop_first(), i);
    }
}

} // verus!
