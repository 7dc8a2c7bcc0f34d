//! Decisions that are taken around an operation: whether a request is to be
//! run at all, who may make it, and whether an intermediate balance allows
//! the next transfer.
use crate::error::KaminoVaultError;
use crate::pubkey::Pubkey;
use crate::state::{index_of, VaultAllocation, VaultState};
use vstd::prelude::*;

verus! {

/// A deposit must tender something: zero is refused with `DepositAmountsZero`.
pub fn check_deposit_amount(max_amount: u64) -> (r: Result<(), KaminoVaultError>)
    ensures
        r == (if max_amount > 0 {
            Ok::<(), KaminoVaultError>(())
        } else {
            Err(KaminoVaultError::DepositAmountsZero)
        }),
{
    if max_amount > 0 {
        Ok(())
    } else {
        Err(KaminoVaultError::DepositAmountsZero)
    }
}

/// The shares that a withdrawal is run for: a user who asks for more shares
/// than they hold withdraws all they hold.
pub fn shares_to_withdraw(shares_amount: u64, user_shares_balance: u64) -> (r: u64)
    ensures
        r == (if shares_amount <= user_shares_balance {
            shares_amount
        } else {
            user_shares_balance
        }),
{
    if shares_amount <= user_shares_balance {
        shares_amount
    } else {
        user_shares_balance
    }
}

/// After a redemption, the vault's tokens must have grown by at least what
/// is sent on from it; else `NotEnoughLiquidityDisinvestedToSendToUser`.
pub fn check_liquidity_received(
    token_vault_before: u64,
    token_vault_after_redemption: u64,
    invested_liquidity_to_send_to_user: u64,
) -> (r: Result<(), KaminoVaultError>)
    ensures
        r == (if token_vault_after_redemption - token_vault_before
            >= invested_liquidity_to_send_to_user {
            Ok::<(), KaminoVaultError>(())
        } else {
            Err(KaminoVaultError::NotEnoughLiquidityDisinvestedToSendToUser)
        }),
{
    if token_vault_after_redemption >= token_vault_before && token_vault_after_redemption
        - token_vault_before >= invested_liquidity_to_send_to_user {
        Ok(())
    } else {
        Err(KaminoVaultError::NotEnoughLiquidityDisinvestedToSendToUser)
    }
}

/// Who may set a reserve's weight and cap: for a reserve that has a slot, the
/// vault admin or the allocation admin; for a new reserve, the vault admin
/// alone. Anyone else is refused with `WrongAdminOrAllocationAdmin`.
pub fn check_allocation_update_signer(vault: &VaultState, reserve: &Pubkey, signer: &Pubkey) -> (r:
    Result<(), KaminoVaultError>)
    ensures
        r == (if *signer == vault.vault_admin_authority || (index_of(
            vault.allocations(),
            *reserve,
            0,
        ) is Some && *signer == vault.allocation_admin) {
            Ok::<(), KaminoVaultError>(())
        } else {
            Err(KaminoVaultError::WrongAdminOrAllocationAdmin)
        }),
{
    let is_vault_admin = *signer == vault.vault_admin_authority;
    let is_allocation_admin = *signer == vault.allocation_admin;
    let allowed = match vault.get_reserve_idx_in_allocation(reserve) {
        Some(_) => is_allocation_admin || is_vault_admin,
        None => is_vault_admin,
    };
    if allowed {
        Ok(())
    } else {
        Err(KaminoVaultError::WrongAdminOrAllocationAdmin)
    }
}

/// A reserve can be allocated to only if it lends the vault's token; else
/// `RequireEqViolated`.
pub fn check_reserve_token_mint(vault: &VaultState, reserve_liquidity_mint: &Pubkey) -> (r: Result<
    (),
    KaminoVaultError,
>)
    ensures
        r == (if *reserve_liquidity_mint == vault.token_mint {
            Ok::<(), KaminoVaultError>(())
        } else {
            Err(KaminoVaultError::RequireEqViolated)
        }),
{
    if *reserve_liquidity_mint == vault.token_mint {
        Ok(())
    } else {
        Err(KaminoVaultError::RequireEqViolated)
    }
}

/// Collateral is redeemed from the collateral vault that the reserve's slot
/// records, and no other; else `RequireEqViolated`.
pub fn check_ctoken_vault(allocation: &VaultAllocation, ctoken_vault: &Pubkey) -> (r: Result<
    (),
    KaminoVaultError,
>)
    ensures
        r == (if allocation.ctoken_vault == *ctoken_vault {
            Ok::<(), KaminoVaultError>(())
        } else {
            Err(KaminoVaultError::RequireEqViolated)
        }),
{
    if allocation.ctoken_vault == *ctoken_vault {
        Ok(())
    } else {
        Err(KaminoVaultError::RequireEqViolated)
    }
}

impl VaultState {
    /// Completes a transfer of the vault's administration: the pending admin,
    /// and nobody else, makes itself the admin. Anyone else is refused with
    /// `AdminAuthorityIncorrect`, and nothing changes.
    pub fn apply_pending_admin(&mut self, signer: &Pubkey) -> (r: Result<(), KaminoVaultError>)
        ensures
            *signer == old(self).pending_admin ==> r is Ok && *final(self) == (VaultState {
                vault_admin_authority: old(self).pending_admin,
                ..*old(self)
            }),
            *signer != old(self).pending_admin ==> r == Err::<(), KaminoVaultError>(
                KaminoVaultError::AdminAuthorityIncorrect,
            ) && *final(self) == *old(self),
            old(self).wf() ==> final(self).wf(),
    {
        if *signer == self.pending_admin {
            self.vault_admin_authority = self.pending_admin;
            Ok(())
        } else {
            Err(KaminoVaultError::AdminAuthorityIncorrect)
        }
    }
}

} // verus!
