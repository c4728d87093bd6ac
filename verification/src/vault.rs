//! The per-identity vault record and the lookup rules over the stored
//! vault records.
//!
//! The storage substrate keeps one vault per owning identity, addressed
//! deterministically from that identity. Here the stored records are a
//! sequence and a vault is found as the first record whose `owner` matches
//! the derivation key; creation refuses a duplicate key, so at most one
//! record ever matches.

use vstd::prelude::*;

use crate::ids::Identity;

verus! {

/// A vault's accounting state: one record per owning identity.
///
/// `total_deposits` and `total_withdrawals` only ever grow while the vault
/// is active, by overflow-checked additions; `owner`, `bump` and
/// `created_at` are set at creation and never change afterwards.
#[derive(Clone, Copy, Debug, PartialEq, Eq, Structural)]
pub struct PrivateVault {
    /// The identity the vault was created for; its storage key.
    pub owner: Identity,
    /// The derivation nonce that recomputes the vault's signing authority
    /// from `owner`.
    pub bump: u8,
    /// Wall-clock time of creation, set once.
    pub created_at: i64,
    /// Cumulative amount ever deposited.
    pub total_deposits: u64,
    /// Cumulative amount ever withdrawn.
    pub total_withdrawals: u64,
    /// True from creation until closure; closure is not reversible.
    pub is_active: bool,
}

/// Index of the first stored record owned by `key`, or `vaults.len()` when
/// none is.
pub open spec fn vault_index(vaults: Seq<PrivateVault>, key: Identity) -> int
    decreases vaults.len(),
{
    if vaults.len() == 0 {
        0
    } else if vaults[0].owner == key {
        0
    } else {
        1 + vault_index(vaults.drop_first(), key)
    }
}

/// Whether some stored record is owned by `key`.
pub open spec fn has_vault(vaults: Seq<PrivateVault>, key: Identity) -> bool {
    vault_index(vaults, key) < vaults.len()
}

/// The stored record owned by `key`.
pub open spec fn vault_at(vaults: Seq<PrivateVault>, key: Identity) -> PrivateVault
    recommends
        has_vault(vaults, key),
{
    vaults[vault_index(vaults, key)]
}

/// `vault_index` points at a record owned by `key` and nothing before it is.
pub proof fn lemma_vault_index(vaults: Seq<PrivateVault>, key: Identity)
    ensures
        0 <= vault_index(vaults, key) <= vaults.len(),
        has_vault(vaults, key) ==> vaults[vault_index(vaults, key)].owner == key,
        forall|j: int| 0 <= j < vault_index(vaults, key) ==> vaults[j].owner != key,
    decreases vaults.len(),
{
    if vaults.len() > 0 && vaults[0].owner != key {
        lemma_vault_index(vaults.drop_first(), key);
        assert forall|j: int| 0 <= j < vault_index(vaults, key) implies vaults[j].owner
            != key by {
            if j > 0 {
                assert(vaults[j] == vaults.drop_first()[j - 1]);
            }
        }
    }
}

/// A record owned by `key` with nothing owned by `key` before it is the one
/// `vault_index` points at.
pub proof fn lemma_vault_index_of_match(vaults: Seq<PrivateVault>, key: Identity, i: int)
    requires
        0 <= i < vaults.len(),
        vaults[i].owner == key,
        forall|j: int| 0 <= j < i ==> vaults[j].owner != key,
    ensures
        vault_index(vaults, key) == i,
    decreases vaults.len(),
{
    if i > 0 {
        lemma_vault_index_of_match(vaults.drop_first(), key, i - 1);
    }
}

/// Two sequences whose records agree on owners key for key have the same
/// lookup index for every key.
pub proof fn lemma_vault_index_same_owners(
    a: Seq<PrivateVault>,
    b: Seq<PrivateVault>,
    key: Identity,
)
    requires
        a.len() == b.len(),
        forall|j: int| 0 <= j < a.len() ==> a[j].owner == b[j].owner,
    ensures
        vault_index(a, key) == vault_index(b, key),
    decreases a.len(),
{
    if a.len() > 0 && a[0].owner != key {
        assert forall|j: int| 0 <= j < a.drop_first().len() implies a.drop_first()[j].owner
            == b.drop_first()[j].owner by {
            assert(a.drop_first()[j] == a[j + 1]);
            assert(b.drop_first()[j] == b[j + 1]);
        }
        lemma_vault_index_same_owners(a.drop_first(), b.drop_first(), key);
    }
}

/// Replacing the record at its own lookup index with one under the same
/// owner changes exactly that key's record and no other key's.
pub proof fn lemma_vault_update(vaults: Seq<PrivateVault>, i: int, v: PrivateVault)
    requires
        0 <= i < vaults.len(),
        i == vault_index(vaults, vaults[i].owner),
        v.owner == vaults[i].owner,
    ensures
        forall|key: Identity|
            vault_index(vaults.update(i, v), key) == vault_index(vaults, key),
        forall|key: Identity| has_vault(vaults.update(i, v), key) == has_vault(vaults, key),
        vault_at(vaults.update(i, v), v.owner) == v,
        forall|key: Identity|
            key != v.owner && has_vault(vaults, key) ==> vault_at(
                vaults.update(i, v),
                key,
            ) == vault_at(vaults, key),
{
    let updated = vaults.update(i, v);
    assert forall|key: Identity| vault_index(updated, key) == vault_index(vaults, key) by {
        lemma_vault_index_same_owners(updated, vaults, key);
    }
    assert forall|key: Identity|
        key != v.owner && has_vault(vaults, key) implies vault_at(updated, key) == vault_at(
        vaults,
        key,
    ) by {
        lemma_vault_index(vaults, key);
        assert(vault_index(vaults, key) != i);
    }
}

/// Appending a record leaves every present key's lookup unchanged and makes
/// the new record the lookup result for its owner when that key was absent.
pub proof fn lemma_vault_push(vaults: Seq<PrivateVault>, v: PrivateVault)
    ensures
        forall|key: Identity|
            has_vault(vaults, key) ==> vault_index(vaults.push(v), key) == vault_index(
                vaults,
                key,
            ),
        forall|key: Identity|
            has_vault(vaults, key) ==> has_vault(vaults.push(v), key) && vault_at(
                vaults.push(v),
                key,
            ) == vault_at(vaults, key),
        !has_vault(vaults, v.owner) ==> vault_index(vaults.push(v), v.owner) == vaults.len(),
        !has_vault(vaults, v.owner) ==> has_vault(vaults.push(v), v.owner) && vault_at(
            vaults.push(v),
            v.owner,
        ) == v,
        forall|key: Identity|
            key != v.owner && !has_vault(vaults, key) ==> !has_vault(vaults.push(v), key),
{
    let pushed = vaults.push(v);
    assert forall|key: Identity| has_vault(vaults, key) implies vault_index(pushed, key)
        == vault_index(vaults, key) && has_vault(pushed, key) && vault_at(pushed, key)
        == vault_at(vaults, key) by {
        lemma_vault_index(vaults, key);
        lemma_vault_index_of_match(pushed, key, vault_index(vaults, key));
        assert(pushed[vault_index(vaults, key)] == vaults[vault_index(vaults, key)]);
    }
    if !has_vault(vaults, v.owner) {
        lemma_vault_index(vaults, v.owner);
        lemma_vault_index_of_match(pushed, v.owner, vaults.len() as int);
    }
    assert forall|key: Identity|
        key != v.owner && !has_vault(vaults, key) implies !has_vault(pushed, key) by {
        lemma_vault_index(vaults, key);
        if has_vault(pushed, key) {
            lemma_vault_index(pushed, key);
        }
    }
}

} // verus!
