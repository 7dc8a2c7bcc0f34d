//! The protocol's whitelist of reserves, and what it forbids a vault to do.
use crate::error::KaminoVaultError;
use crate::pubkey::Pubkey;
use crate::state::{ReserveWhitelistEntry, VaultState};
use vstd::prelude::*;

verus! {

/// One change to a whitelist entry: the flag to set, and its value, 0 or 1.
#[derive(Clone, Copy, Debug, PartialEq, Eq, Structural)]
pub enum UpdateReserveWhitelistMode {
    Invest(u8),
    AddAllocation(u8),
}

/// A flag is 0 or 1; anything else is refused with `InvalidBoolLikeValue`.
fn check_bool_like_value(value: u8) -> (r: Result<(), KaminoVaultError>)
    ensures
        r == (if value > 1 {
            Err::<(), KaminoVaultError>(KaminoVaultError::InvalidBoolLikeValue)
        } else {
            Ok(())
        }),
{
    if value > 1 {
        return Err(KaminoVaultError::InvalidBoolLikeValue);
    }
    Ok(())
}

/// The entry for `reserve_address` after `update`.
pub open spec fn whitelist_entry_updated(
    entry: ReserveWhitelistEntry,
    reserve_address: Pubkey,
    token_mint: Pubkey,
    update: UpdateReserveWhitelistMode,
) -> ReserveWhitelistEntry {
    match update {
        UpdateReserveWhitelistMode::Invest(value) => ReserveWhitelistEntry {
            reserve: reserve_address,
            token_mint,
            whitelist_invest: value,
            ..entry
        },
        UpdateReserveWhitelistMode::AddAllocation(value) => ReserveWhitelistEntry {
            reserve: reserve_address,
            token_mint,
            whitelist_add_allocation: value,
            ..entry
        },
    }
}

/// Records a reserve in its whitelist entry and sets one of the entry's
/// flags. Fails with `InvalidBoolLikeValue`, changing nothing, when the
/// flag's value is neither 0 nor 1.
pub fn update_reserve_whitelist_entry(
    reserve_whitelist_entry: &mut ReserveWhitelistEntry,
    reserve_address: &Pubkey,
    token_mint: &Pubkey,
    update: UpdateReserveWhitelistMode,
) -> (r: Result<(), KaminoVaultError>)
    ensures
        match update {
            UpdateReserveWhitelistMode::Invest(value)
            | UpdateReserveWhitelistMode::AddAllocation(value) => if value > 1 {
                r == Err::<(), KaminoVaultError>(KaminoVaultError::InvalidBoolLikeValue)
                    && *final(reserve_whitelist_entry) == *old(reserve_whitelist_entry)
            } else {
                r is Ok && *final(reserve_whitelist_entry) == whitelist_entry_updated(
                    *old(reserve_whitelist_entry),
                    *reserve_address,
                    *token_mint,
                    update,
                )
            },
        },
{
    match update {
        UpdateReserveWhitelistMode::Invest(value) => {
            match check_bool_like_value(value) {
                Ok(()) => {},
                Err(e) => {
                    return Err(e);
                },
            }
            reserve_whitelist_entry.whitelist_invest = value;
        },
        UpdateReserveWhitelistMode::AddAllocation(value) => {
            match check_bool_like_value(value) {
                Ok(()) => {},
                Err(e) => {
                    return Err(e);
                },
            }
            reserve_whitelist_entry.whitelist_add_allocation = value;
        },
    }
    reserve_whitelist_entry.reserve = *reserve_address;
    reserve_whitelist_entry.token_mint = *token_mint;
    Ok(())
}

/// Whether a change of a reserve's weight and cap asks for the whitelist:
/// it raises the weight or the cap, and the vault allocates to whitelisted
/// reserves only. A reserve without a slot counts as having weight and cap zero.
pub open spec fn needs_whitelist(
    vault: VaultState,
    reserve_idx_in_allocation: Option<usize>,
    target_allocation_weight: u64,
    allocation_cap: u64,
) -> bool {
    let (current_weight, current_cap) = match reserve_idx_in_allocation {
        Some(idx) => (
            vault.allocations()[idx as int].target_allocation_weight,
            vault.allocations()[idx as int].token_allocation_cap,
        ),
        None => (0u64, 0u64),
    };
    (target_allocation_weight > current_weight || allocation_cap > current_cap)
        && vault.allow_allocations_in_whitelisted_reserves_only != 0
}

/// Decides whether a reserve's weight and cap may be set as asked.
///
/// Lowering them is always allowed. Raising either, in a vault that allocates
/// to whitelisted reserves only, takes a whitelist entry that allows
/// allocation; without one the change fails with `ReserveNotWhitelisted`.
pub fn check_can_update_allocation_weight(
    vault: &VaultState,
    reserve_idx_in_allocation: Option<usize>,
    target_allocation_weight: u64,
    allocation_cap: u64,
    reserve_whitelist_entry: Option<&ReserveWhitelistEntry>,
) -> (r: Result<(), KaminoVaultError>)
    requires
        reserve_idx_in_allocation matches Some(idx) ==> idx < 25,
    ensures
        r == (if needs_whitelist(
            *vault,
            reserve_idx_in_allocation,
            target_allocation_weight,
            allocation_cap,
        ) && !(reserve_whitelist_entry matches Some(entry) && entry.whitelist_add_allocation
            != 0) {
            Err::<(), KaminoVaultError>(KaminoVaultError::ReserveNotWhitelisted)
        } else {
            Ok(())
        }),
{
    // A reserve that is not in the table has weight and cap zero.
    let (current_weight, current_cap) = match reserve_idx_in_allocation {
        Some(idx) => (
            vault.vault_allocation_strategy[idx].target_allocation_weight,
            vault.vault_allocation_strategy[idx].token_allocation_cap,
        ),
        None => (0, 0),
    };
    // The whitelist matters only when the weight or the cap goes up.
    if (target_allocation_weight > current_weight || allocation_cap > current_cap)
        && vault.vault_allows_allocations_in_whitelisted_reserves_only() {
        match reserve_whitelist_entry {
            Some(entry) => {
                if !entry.is_add_allocation_whitelisted() {
                    return Err(KaminoVaultError::ReserveNotWhitelisted);
                }
            },
            None => {
                return Err(KaminoVaultError::ReserveNotWhitelisted);
            },
        }
    }
    Ok(())
}

/// Decides whether the vault may move tokens into or out of a reserve.
///
/// A vault that invests in whitelisted reserves only takes a whitelist entry
/// that allows investing; without one the move fails with
/// `ReserveNotWhitelisted`. Any other vault may invest in any of its reserves.
pub fn check_can_invest_in_reserve(
    vault: &VaultState,
    reserve_whitelist_entry: Option<&ReserveWhitelistEntry>,
) -> (r: Result<(), KaminoVaultError>)
    ensures
        r == (if vault.allow_invest_in_whitelisted_reserves_only != 0 && !(
        reserve_whitelist_entry matches Some(entry) && entry.whitelist_invest != 0) {
            Err::<(), KaminoVaultError>(KaminoVaultError::ReserveNotWhitelisted)
        } else {
            Ok(())
        }),
{
    if vault.vault_allows_invest_in_whitelisted_reserves_only() {
        match reserve_whitelist_entry {
            Some(entry) => {
                if !entry.is_invest_whitelisted() {
                    return Err(KaminoVaultError::ReserveNotWhitelisted);
                }
            },
            None => {
                return Err(KaminoVaultError::ReserveNotWhitelisted);
            },
        }
    }
    Ok(())
}

} // verus!
