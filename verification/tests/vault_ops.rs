use ghostbuys::errors::GhostError;
use ghostbuys::events::{DepositMade, VaultCreated, WithdrawalMade};
use ghostbuys::ids::{AssetId, Holder, Identity};
use ghostbuys::ledger::{CloseVault, Deposit, Ghostbuys, InitializeVault, ProofVerdict, Withdraw};

fn id(n: u64) -> Identity {
    Identity { id: n }
}

fn asset(n: u64) -> AssetId {
    AssetId { id: n }
}

fn service_with_vault(owner: Identity, funded: u64, mint: AssetId) -> Ghostbuys {
    let mut g = Ghostbuys::new();
    g.engine.credit(mint, Holder::User(owner), funded).unwrap();
    g.initialize_vault(InitializeVault { owner }, 7, 1_000).unwrap();
    g
}

#[test]
fn create_vault_zeroed_and_active() {
    let a = id(1);
    let mut g = Ghostbuys::new();
    let ev = g.initialize_vault(InitializeVault { owner: a }, 42, 555).unwrap();
    assert_eq!(ev, VaultCreated { vault: a, owner: a, timestamp: 555 });
    assert_eq!(g.vaults.len(), 1);
    let v = g.vaults[0];
    assert_eq!(v.owner, a);
    assert_eq!(v.bump, 42);
    assert_eq!(v.created_at, 555);
    assert_eq!(v.total_deposits, 0);
    assert_eq!(v.total_withdrawals, 0);
    assert!(v.is_active);
}

#[test]
fn duplicate_vault_refused() {
    let a = id(1);
    let mut g = Ghostbuys::new();
    g.initialize_vault(InitializeVault { owner: a }, 7, 1).unwrap();
    let second = g.initialize_vault(InitializeVault { owner: a }, 9, 2);
    assert_eq!(second, Err(GhostError::AlreadyExists));
    assert_eq!(g.vaults.len(), 1);
}

#[test]
fn privacy_vault_round_trip() {
    let a = id(1);
    let b = id(2);
    let x = asset(9);
    let mut g = service_with_vault(a, 100, x);

    let ev = g.deposit(Deposit { vault: a, owner: a, mint: x }, 100, 1_001).unwrap();
    assert_eq!(ev, DepositMade { vault: a, amount: 100, mint: x, timestamp: 1_001 });
    assert_eq!(g.vaults[0].total_deposits, 100);
    assert_eq!(g.engine.balance_of(x, Holder::Vault(a)), 100);
    assert_eq!(g.engine.balance_of(x, Holder::User(a)), 0);

    let wd = g
        .withdraw(
            Withdraw { vault: a, authority: b, mint: x, recipient: b },
            40,
            vec![1, 2, 3],
            ProofVerdict::Accept,
            1_002,
        )
        .unwrap();
    assert_eq!(wd, WithdrawalMade { vault: a, amount: 40, mint: x, timestamp: 1_002 });
    assert_eq!(g.vaults[0].total_withdrawals, 40);
    assert_eq!(g.engine.balance_of(x, Holder::User(b)), 40);
    assert_eq!(g.engine.balance_of(x, Holder::Vault(a)), 60);

    let too_much = g.withdraw(
        Withdraw { vault: a, authority: b, mint: x, recipient: b },
        1_000,
        vec![1, 2, 3],
        ProofVerdict::Accept,
        1_003,
    );
    assert_eq!(too_much, Err(GhostError::InsufficientBalance));
    assert_eq!(g.vaults[0].total_withdrawals, 40);

    g.close_vault(CloseVault { vault: a, owner: a }, 1_004).unwrap();
    assert!(!g.vaults[0].is_active);

    let after_close = g.deposit(Deposit { vault: a, owner: a, mint: x }, 1, 1_005);
    assert_eq!(after_close, Err(GhostError::VaultInactive));
    assert_eq!(g.vaults[0].total_deposits, 100);
}

#[test]
fn deposit_zero_amount_refused() {
    let a = id(1);
    let x = asset(9);
    let mut g = service_with_vault(a, 10, x);
    let r = g.deposit(Deposit { vault: a, owner: a, mint: x }, 0, 2);
    assert_eq!(r, Err(GhostError::InvalidAmount));
    assert_eq!(g.vaults[0].total_deposits, 0);
}

#[test]
fn deposit_foreign_caller_refused() {
    let a = id(1);
    let mallory = id(3);
    let x = asset(9);
    let mut g = service_with_vault(a, 10, x);
    g.engine.credit(x, Holder::User(mallory), 10).unwrap();
    let r = g.deposit(Deposit { vault: a, owner: mallory, mint: x }, 5, 2);
    assert_eq!(r, Err(GhostError::Unauthorized));
    assert_eq!(g.vaults[0].total_deposits, 0);
}

#[test]
fn deposit_unfunded_caller_refused() {
    let a = id(1);
    let x = asset(9);
    let mut g = service_with_vault(a, 10, x);
    let r = g.deposit(Deposit { vault: a, owner: a, mint: x }, 11, 2);
    assert_eq!(r, Err(GhostError::InsufficientBalance));
    assert_eq!(g.vaults[0].total_deposits, 0);
    assert_eq!(g.engine.balance_of(x, Holder::User(a)), 10);
}

#[test]
fn deposit_missing_vault_refused() {
    let x = asset(9);
    let mut g = Ghostbuys::new();
    g.engine.credit(x, Holder::User(id(1)), 10).unwrap();
    let r = g.deposit(Deposit { vault: id(1), owner: id(1), mint: x }, 5, 2);
    assert_eq!(r, Err(GhostError::VaultInactive));
}

#[test]
fn deposit_total_would_wrap_refused() {
    let a = id(1);
    let x = asset(9);
    let mut g = service_with_vault(a, u64::MAX, x);
    g.deposit(Deposit { vault: a, owner: a, mint: x }, u64::MAX, 2).unwrap();
    assert_eq!(g.vaults[0].total_deposits, u64::MAX);
    g.engine.credit(x, Holder::User(a), 1).unwrap();
    let r = g.deposit(Deposit { vault: a, owner: a, mint: x }, 1, 3);
    assert_eq!(r, Err(GhostError::Overflow));
    assert_eq!(g.vaults[0].total_deposits, u64::MAX);
    assert_eq!(g.engine.balance_of(x, Holder::User(a)), 1);
}

#[test]
fn deposit_sequence_sums_successes_only() {
    let a = id(1);
    let x = asset(9);
    let mut g = service_with_vault(a, 70, x);
    assert!(g.deposit(Deposit { vault: a, owner: a, mint: x }, 30, 2).is_ok());
    assert!(g.deposit(Deposit { vault: a, owner: a, mint: x }, 100, 3).is_err());
    assert!(g.deposit(Deposit { vault: a, owner: a, mint: x }, 25, 4).is_ok());
    assert!(g.deposit(Deposit { vault: a, owner: a, mint: x }, 0, 5).is_err());
    assert!(g.deposit(Deposit { vault: a, owner: a, mint: x }, 15, 6).is_ok());
    assert_eq!(g.vaults[0].total_deposits, 70);
    assert_eq!(g.engine.balance_of(x, Holder::Vault(a)), 70);
}

#[test]
fn withdraw_zero_amount_refused() {
    let a = id(1);
    let x = asset(9);
    let mut g = service_with_vault(a, 10, x);
    let r = g.withdraw(
        Withdraw { vault: a, authority: a, mint: x, recipient: a },
        0,
        vec![1],
        ProofVerdict::Accept,
        2,
    );
    assert_eq!(r, Err(GhostError::InvalidAmount));
}

#[test]
fn withdraw_empty_proof_refused_and_moves_nothing() {
    let a = id(1);
    let b = id(2);
    let x = asset(9);
    let mut g = service_with_vault(a, 100, x);
    g.deposit(Deposit { vault: a, owner: a, mint: x }, 100, 2).unwrap();
    let r = g.withdraw(
        Withdraw { vault: a, authority: b, mint: x, recipient: b },
        40,
        Vec::new(),
        ProofVerdict::Accept,
        3,
    );
    assert_eq!(r, Err(GhostError::InvalidProof));
    assert_eq!(g.vaults[0].total_withdrawals, 0);
    assert_eq!(g.engine.balance_of(x, Holder::Vault(a)), 100);
    assert_eq!(g.engine.balance_of(x, Holder::User(b)), 0);
}

#[test]
fn withdraw_rejected_verdict_refused() {
    let a = id(1);
    let b = id(2);
    let x = asset(9);
    let mut g = service_with_vault(a, 100, x);
    g.deposit(Deposit { vault: a, owner: a, mint: x }, 100, 2).unwrap();
    let r = g.withdraw(
        Withdraw { vault: a, authority: b, mint: x, recipient: b },
        40,
        vec![1],
        ProofVerdict::Reject,
        3,
    );
    assert_eq!(r, Err(GhostError::Unauthorized));
    assert_eq!(g.vaults[0].total_withdrawals, 0);
}

#[test]
fn withdraw_after_close_refused_for_everyone() {
    let a = id(1);
    let b = id(2);
    let x = asset(9);
    let mut g = service_with_vault(a, 100, x);
    g.deposit(Deposit { vault: a, owner: a, mint: x }, 100, 2).unwrap();
    g.close_vault(CloseVault { vault: a, owner: a }, 3).unwrap();
    for caller in [a, b] {
        let r = g.withdraw(
            Withdraw { vault: a, authority: caller, mint: x, recipient: caller },
            1,
            vec![1],
            ProofVerdict::Accept,
            4,
        );
        assert_eq!(r, Err(GhostError::VaultInactive));
    }
}

#[test]
fn close_foreign_caller_refused() {
    let a = id(1);
    let mallory = id(3);
    let x = asset(9);
    let mut g = service_with_vault(a, 10, x);
    let r = g.close_vault(CloseVault { vault: a, owner: mallory }, 2);
    assert_eq!(r, Err(GhostError::Unauthorized));
    assert!(g.vaults[0].is_active);
}

#[test]
fn close_twice_refused() {
    let a = id(1);
    let x = asset(9);
    let mut g = service_with_vault(a, 10, x);
    g.close_vault(CloseVault { vault: a, owner: a }, 2).unwrap();
    let again = g.close_vault(CloseVault { vault: a, owner: a }, 3);
    assert_eq!(again, Err(GhostError::VaultInactive));
    assert!(!g.vaults[0].is_active);
}

#[test]
fn closed_vault_key_is_not_reused() {
    let a = id(1);
    let x = asset(9);
    let mut g = service_with_vault(a, 10, x);
    g.close_vault(CloseVault { vault: a, owner: a }, 2).unwrap();
    let again = g.initialize_vault(InitializeVault { owner: a }, 7, 3);
    assert_eq!(again, Err(GhostError::AlreadyExists));
}

#[test]
fn vaults_are_independent() {
    let a = id(1);
    let c = id(4);
    let x = asset(9);
    let mut g = service_with_vault(a, 100, x);
    g.engine.credit(x, Holder::User(c), 50).unwrap();
    g.initialize_vault(InitializeVault { owner: c }, 8, 5).unwrap();
    g.deposit(Deposit { vault: a, owner: a, mint: x }, 100, 6).unwrap();
    g.deposit(Deposit { vault: c, owner: c, mint: x }, 50, 7).unwrap();
    g.close_vault(CloseVault { vault: a, owner: a }, 8).unwrap();
    assert!(!g.vaults[0].is_active);
    assert!(g.vaults[1].is_active);
    assert_eq!(g.vaults[0].total_deposits, 100);
    assert_eq!(g.vaults[1].total_deposits, 50);
    assert_eq!(g.engine.balance_of(x, Holder::Vault(a)), 100);
    assert_eq!(g.engine.balance_of(x, Holder::Vault(c)), 50);
}
