//! Changes to the allocation table on behalf of a signer.
use crate::error::KaminoVaultError;
use crate::operations::request_checks::{check_allocation_update_signer, check_reserve_token_mint};
use crate::operations::reserve_whitelist_operations::{
    check_can_update_allocation_weight, needs_whitelist,
};
use crate::pubkey::Pubkey;
use crate::state::{index_of, upsert_spec, ReserveWhitelistEntry, VaultState};
use vstd::prelude::*;

verus! {

/// A request to give a reserve a weight and a cap.
#[derive(Clone, Copy, Debug, PartialEq, Eq)]
pub struct AllocationUpdate {
    pub reserve: Pubkey,
    /// The token that the reserve lends.
    pub reserve_liquidity_mint: Pubkey,
    /// Where the vault keeps the reserve's collateral.
    pub ctoken_vault: Pubkey,
    pub ctoken_vault_bump: u64,
    pub target_allocation_weight: u64,
    pub allocation_cap: u64,
}

/// Why `signer` may not make `update`, if it may not.
pub open spec fn allocation_update_refusal(
    vault: VaultState,
    signer: Pubkey,
    update: AllocationUpdate,
    reserve_whitelist_entry: Option<ReserveWhitelistEntry>,
) -> Option<KaminoVaultError> {
    let idx = index_of(vault.allocations(), update.reserve, 0);
    if !(signer == vault.vault_admin_authority || (idx is Some && signer
        == vault.allocation_admin)) {
        Some(KaminoVaultError::WrongAdminOrAllocationAdmin)
    } else if update.reserve_liquidity_mint != vault.token_mint {
        Some(KaminoVaultError::RequireEqViolated)
    } else if needs_whitelist(
        vault,
        match idx {
            Some(i) => Some(i as usize),
            None => None,
        },
        update.target_allocation_weight,
        update.allocation_cap,
    ) && !(reserve_whitelist_entry matches Some(entry) && entry.whitelist_add_allocation != 0) {
        Some(KaminoVaultError::ReserveNotWhitelisted)
    } else if upsert_spec(
        vault.allocations(),
        update.reserve,
        update.ctoken_vault,
        update.ctoken_vault_bump,
        update.target_allocation_weight,
        update.allocation_cap,
    ) is None {
        Some(KaminoVaultError::ReserveSpaceExhausted)
    } else {
        None
    }
}

/// Gives a reserve a weight and a cap on behalf of `signer`.
///
/// The vault admin may add a reserve or change one; the allocation admin may
/// change one. The reserve must lend the vault's token. In a vault that
/// allocates to whitelisted reserves only, raising a weight or a cap takes a
/// whitelist entry that allows allocation. Fails, changing nothing, with
/// `WrongAdminOrAllocationAdmin`, `RequireEqViolated`, `ReserveNotWhitelisted`
/// or `ReserveSpaceExhausted`: the first that applies.
pub fn update_reserve_allocation(
    vault: &mut VaultState,
    signer: &Pubkey,
    update: &AllocationUpdate,
    reserve_whitelist_entry: Option<&ReserveWhitelistEntry>,
) -> (r: Result<(), KaminoVaultError>)
    ensures
        final(vault).same_but_allocations(*old(vault)),
        match allocation_update_refusal(
            *old(vault),
            *signer,
            *update,
            match reserve_whitelist_entry {
                Some(entry) => Some(*entry),
                None => None,
            },
        ) {
            Some(e) => r == Err::<(), KaminoVaultError>(e) && *final(vault) == *old(vault),
            None => r is Ok && Some(final(vault).allocations()) == upsert_spec(
                old(vault).allocations(),
                update.reserve,
                update.ctoken_vault,
                update.ctoken_vault_bump,
                update.target_allocation_weight,
                update.allocation_cap,
            ),
        },
        old(vault).wf() ==> final(vault).wf(),
{
    match check_allocation_update_signer(vault, &update.reserve, signer) {
        Ok(()) => {},
        Err(e) => {
            return Err(e);
        },
    }
    match check_reserve_token_mint(vault, &update.reserve_liquidity_mint) {
        Ok(()) => {},
        Err(e) => {
            return Err(e);
        },
    }
    let idx = vault.get_reserve_idx_in_allocation(&update.reserve);
    match check_can_update_allocation_weight(
        vault,
        idx,
        update.target_allocation_weight,
        update.allocation_cap,
        reserve_whitelist_entry,
    ) {
        Ok(()) => {},
        Err(e) => {
            return Err(e);
        },
    }
    vault.upsert_reserve_allocation(
        update.reserve,
        update.ctoken_vault,
        update.ctoken_vault_bump,
        update.target_allocation_weight,
        update.allocation_cap,
    )
}

} // verus!
