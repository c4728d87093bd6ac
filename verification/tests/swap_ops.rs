use ghostbuys::errors::GhostError;
use ghostbuys::events::SwapInitiated;
use ghostbuys::ids::{AssetId, Identity};
use ghostbuys::ledger::{CloseVault, Ghostbuys, InitializeVault, PrivateSwap, ProofVerdict};
use ghostbuys::swap::{SettlementResult, SwapStatus, CIPHERTEXT_LEN};

fn id(n: u64) -> Identity {
    Identity { id: n }
}

fn asset(n: u64) -> AssetId {
    AssetId { id: n }
}

fn service_with_vault(owner: Identity) -> Ghostbuys {
    let mut g = Ghostbuys::new();
    g.initialize_vault(InitializeVault { owner }, 7, 1_000).unwrap();
    g
}

fn ciphertext(fill: u8) -> [u8; CIPHERTEXT_LEN] {
    [fill; CIPHERTEXT_LEN]
}

#[test]
fn swap_created_pending_with_payload_verbatim() {
    let a = id(1);
    let mut g = service_with_vault(a);
    let ctx = PrivateSwap { owner: a, from_mint: asset(9), to_mint: asset(10) };
    let (handle, ev) = g
        .private_swap(ctx, ciphertext(7), vec![1, 2], ProofVerdict::Accept, 1_001)
        .unwrap();
    assert_eq!(handle, 0);
    assert_eq!(
        ev,
        SwapInitiated { vault: a, from_mint: asset(9), to_mint: asset(10), timestamp: 1_001 }
    );
    let record = g.swaps[0];
    assert_eq!(record.status, SwapStatus::Pending);
    assert_eq!(record.vault, a);
    assert_eq!(record.from_mint, asset(9));
    assert_eq!(record.to_mint, asset(10));
    assert_eq!(record.encrypted_amount, ciphertext(7));
    assert_eq!(record.timestamp, 1_001);
}

#[test]
fn swap_empty_proof_refused() {
    let a = id(1);
    let mut g = service_with_vault(a);
    let ctx = PrivateSwap { owner: a, from_mint: asset(9), to_mint: asset(10) };
    let r = g.private_swap(ctx, ciphertext(7), Vec::new(), ProofVerdict::Accept, 2);
    assert_eq!(r, Err(GhostError::InvalidProof));
    assert_eq!(g.swaps.len(), 0);
}

#[test]
fn swap_rejected_proof_not_persisted() {
    let a = id(1);
    let mut g = service_with_vault(a);
    let ctx = PrivateSwap { owner: a, from_mint: asset(9), to_mint: asset(10) };
    let r = g.private_swap(ctx, ciphertext(7), vec![1], ProofVerdict::Reject, 2);
    assert_eq!(r, Err(GhostError::InvalidProof));
    assert_eq!(g.swaps.len(), 0);
}

#[test]
fn swap_on_closed_vault_refused() {
    let a = id(1);
    let mut g = service_with_vault(a);
    g.close_vault(CloseVault { vault: a, owner: a }, 2).unwrap();
    let ctx = PrivateSwap { owner: a, from_mint: asset(9), to_mint: asset(10) };
    let r = g.private_swap(ctx, ciphertext(7), vec![1], ProofVerdict::Accept, 3);
    assert_eq!(r, Err(GhostError::VaultInactive));
}

#[test]
fn swap_on_missing_vault_refused() {
    let mut g = Ghostbuys::new();
    let ctx = PrivateSwap { owner: id(1), from_mint: asset(9), to_mint: asset(10) };
    let r = g.private_swap(ctx, ciphertext(7), vec![1], ProofVerdict::Accept, 2);
    assert_eq!(r, Err(GhostError::VaultInactive));
}

#[test]
fn settle_completes_exactly_once() {
    let a = id(1);
    let mut g = service_with_vault(a);
    let ctx = PrivateSwap { owner: a, from_mint: asset(9), to_mint: asset(10) };
    let (handle, _) = g
        .private_swap(ctx, ciphertext(7), vec![1], ProofVerdict::Accept, 2)
        .unwrap();
    g.settle_swap(handle, SettlementResult::Succeeded).unwrap();
    assert_eq!(g.swaps[0].status, SwapStatus::Completed);

    let again = g.settle_swap(handle, SettlementResult::Failed);
    assert_eq!(again, Err(GhostError::InvalidState));
    assert_eq!(g.swaps[0].status, SwapStatus::Completed);

    let and_again = g.settle_swap(handle, SettlementResult::Succeeded);
    assert_eq!(and_again, Err(GhostError::InvalidState));
    assert_eq!(g.swaps[0].status, SwapStatus::Completed);
    assert_eq!(g.swaps[0].encrypted_amount, ciphertext(7));
}

#[test]
fn settle_failure_is_terminal_too() {
    let a = id(1);
    let mut g = service_with_vault(a);
    let ctx = PrivateSwap { owner: a, from_mint: asset(9), to_mint: asset(10) };
    let (handle, _) = g
        .private_swap(ctx, ciphertext(3), vec![1], ProofVerdict::Accept, 2)
        .unwrap();
    g.settle_swap(handle, SettlementResult::Failed).unwrap();
    assert_eq!(g.swaps[0].status, SwapStatus::Failed);
    let again = g.settle_swap(handle, SettlementResult::Succeeded);
    assert_eq!(again, Err(GhostError::InvalidState));
    assert_eq!(g.swaps[0].status, SwapStatus::Failed);
}

#[test]
fn settle_unknown_handle_refused() {
    let a = id(1);
    let mut g = service_with_vault(a);
    let r = g.settle_swap(0, SettlementResult::Succeeded);
    assert_eq!(r, Err(GhostError::InvalidState));
}

#[test]
fn settling_one_swap_leaves_others_alone() {
    let a = id(1);
    let mut g = service_with_vault(a);
    let ctx = PrivateSwap { owner: a, from_mint: asset(9), to_mint: asset(10) };
    let (h0, _) = g.private_swap(ctx, ciphertext(1), vec![1], ProofVerdict::Accept, 2).unwrap();
    let (h1, _) = g.private_swap(ctx, ciphertext(2), vec![1], ProofVerdict::Accept, 3).unwrap();
    assert_eq!((h0, h1), (0, 1));
    g.settle_swap(h1, SettlementResult::Succeeded).unwrap();
    assert_eq!(g.swaps[0].status, SwapStatus::Pending);
    assert_eq!(g.swaps[1].status, SwapStatus::Completed);
}

#[test]
fn swap_status_starts_pending() {
    assert_eq!(SwapStatus::default(), SwapStatus::Pending);
}
