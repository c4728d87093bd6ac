use ghostbuys::errors::GhostError;
use ghostbuys::ids::{AssetId, Holder, Identity};
use ghostbuys::transfer::TransferEngine;

fn user(n: u64) -> Holder {
    Holder::User(Identity { id: n })
}

fn vault_of(n: u64) -> Holder {
    Holder::Vault(Identity { id: n })
}

fn asset(n: u64) -> AssetId {
    AssetId { id: n }
}

#[test]
fn absent_holding_has_zero_balance() {
    let e = TransferEngine::new();
    assert_eq!(e.balance_of(asset(1), user(1)), 0);
}

#[test]
fn credit_funds_one_holding_only() {
    let mut e = TransferEngine::new();
    e.credit(asset(1), user(1), 25).unwrap();
    e.credit(asset(1), user(1), 5).unwrap();
    assert_eq!(e.balance_of(asset(1), user(1)), 30);
    assert_eq!(e.balance_of(asset(2), user(1)), 0);
    assert_eq!(e.balance_of(asset(1), user(2)), 0);
    assert_eq!(e.balance_of(asset(1), vault_of(1)), 0);
}

#[test]
fn credit_past_representable_range_refused() {
    let mut e = TransferEngine::new();
    e.credit(asset(1), user(1), u64::MAX).unwrap();
    let r = e.credit(asset(1), user(1), 1);
    assert_eq!(r, Err(GhostError::Overflow));
    assert_eq!(e.balance_of(asset(1), user(1)), u64::MAX);
}

#[test]
fn transfer_conserves_the_pair() {
    let mut e = TransferEngine::new();
    e.credit(asset(1), user(1), 100).unwrap();
    e.transfer(asset(1), user(1), vault_of(2), 60, user(1)).unwrap();
    assert_eq!(e.balance_of(asset(1), user(1)), 40);
    assert_eq!(e.balance_of(asset(1), vault_of(2)), 60);
}

#[test]
fn transfer_needs_the_holders_own_authority() {
    let mut e = TransferEngine::new();
    e.credit(asset(1), user(1), 100).unwrap();
    let r = e.transfer(asset(1), user(1), user(2), 10, user(2));
    assert_eq!(r, Err(GhostError::Unauthorized));
    let r2 = e.transfer(asset(1), vault_of(1), user(2), 10, user(1));
    assert_eq!(r2, Err(GhostError::Unauthorized));
    assert_eq!(e.balance_of(asset(1), user(1)), 100);
}

#[test]
fn transfer_beyond_balance_refused() {
    let mut e = TransferEngine::new();
    e.credit(asset(1), user(1), 10).unwrap();
    let r = e.transfer(asset(1), user(1), user(2), 11, user(1));
    assert_eq!(r, Err(GhostError::InsufficientBalance));
    assert_eq!(e.balance_of(asset(1), user(1)), 10);
    assert_eq!(e.balance_of(asset(1), user(2)), 0);
}

#[test]
fn transfer_overflowing_destination_refused() {
    let mut e = TransferEngine::new();
    e.credit(asset(1), user(1), 10).unwrap();
    e.credit(asset(1), user(2), u64::MAX).unwrap();
    let r = e.transfer(asset(1), user(1), user(2), 5, user(1));
    assert_eq!(r, Err(GhostError::Overflow));
    assert_eq!(e.balance_of(asset(1), user(1)), 10);
    assert_eq!(e.balance_of(asset(1), user(2)), u64::MAX);
}

#[test]
fn transfer_to_self_changes_nothing() {
    let mut e = TransferEngine::new();
    e.credit(asset(1), user(1), 10).unwrap();
    e.transfer(asset(1), user(1), user(1), 7, user(1)).unwrap();
    assert_eq!(e.balance_of(asset(1), user(1)), 10);
}

#[test]
fn same_identity_user_and_vault_holdings_differ() {
    let mut e = TransferEngine::new();
    e.credit(asset(1), user(1), 10).unwrap();
    e.credit(asset(1), vault_of(1), 3).unwrap();
    assert_eq!(e.balance_of(asset(1), user(1)), 10);
    assert_eq!(e.balance_of(asset(1), vault_of(1)), 3);
}
