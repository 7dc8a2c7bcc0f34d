//! Checks after the assets have moved: the balances observed before and after
//! an operation must differ by exactly what the operation's effects say.
//! A failure means that the caller moved other amounts than it was told to,
//! or that the accounting is wrong; it is never to be tolerated.
use crate::error::KaminoVaultError;
use crate::fraction::Fraction;
use crate::operations::effects::{
    DepositEffects, InvestEffects, InvestingDirection, WithdrawEffects, WithdrawPendingFeesEffects,
};
use vstd::prelude::*;

verus! {

#[derive(Clone, Copy, Debug, PartialEq, Eq, Structural)]
pub struct VaultAndUserBalances {
    pub reserve_supply_liquidity_balance: u64,
    pub vault_token_balance: u64,
    pub vault_ctoken_balance: u64,
    pub user_token_balance: u64,
    pub user_shares_balance: u64,
}

#[derive(Clone, Copy, Debug, PartialEq, Eq, Structural)]
pub struct VaultBalances {
    pub reserve_supply_liquidity_balance: u64,
    pub vault_token_balance: u64,
    pub vault_ctoken_balance: u64,
}

/// The first equality that a deposit's balances miss, if any: the shares
/// issued grew by what the user gained, and the user's tokens fell by the
/// deposit and the crank funds.
pub open spec fn deposit_check_spec(
    amounts_before: VaultAndUserBalances,
    amounts_after: VaultAndUserBalances,
    shares_issued_before: u64,
    shares_issued_after: u64,
    effects: DepositEffects,
) -> Result<(), KaminoVaultError> {
    if shares_issued_before + (amounts_after.user_shares_balance
        - amounts_before.user_shares_balance) != shares_issued_after {
        Err(KaminoVaultError::SharesIssuedAmountDoesNotMatch)
    } else if amounts_before.user_token_balance - effects.token_to_deposit
        - effects.crank_funds_to_deposit != amounts_after.user_token_balance {
        Err(KaminoVaultError::TokensDepositedAmountDoesNotMatch)
    } else {
        Ok(())
    }
}

/// The first equality that a withdrawal's balances miss, if any.
pub open spec fn withdraw_check_spec(
    amounts_before: VaultAndUserBalances,
    amounts_after: VaultAndUserBalances,
    effects: WithdrawEffects,
) -> Result<(), KaminoVaultError> {
    let token_vault_diff = amounts_before.vault_token_balance - amounts_after.vault_token_balance;
    let reserve_supply_liquidity_diff = amounts_before.reserve_supply_liquidity_balance
        - amounts_after.reserve_supply_liquidity_balance;
    let total_amount_sent_to_user = effects.available_to_send_to_user
        + effects.invested_liquidity_to_send_to_user;
    if total_amount_sent_to_user != reserve_supply_liquidity_diff + token_vault_diff {
        Err(KaminoVaultError::AmountToWithdrawDoesNotMatch)
    } else if amounts_before.vault_ctoken_balance - amounts_after.vault_ctoken_balance
        != effects.invested_to_disinvest_ctokens {
        Err(KaminoVaultError::LiquidityToWithdrawDoesNotMatch)
    } else if amounts_after.user_token_balance - amounts_before.user_token_balance
        != total_amount_sent_to_user {
        Err(KaminoVaultError::UserReceivedAmountDoesNotMatch)
    } else if amounts_before.user_shares_balance - amounts_after.user_shares_balance
        != effects.shares_to_burn {
        Err(KaminoVaultError::SharesBurnedAmountDoesNotMatch)
    } else if reserve_supply_liquidity_diff != effects.invested_liquidity_to_disinvest {
        Err(KaminoVaultError::DisinvestedLiquidityAmountDoesNotMatch)
    } else {
        Ok(())
    }
}

/// Whether the balances around a payment of fees differ by what its effects say.
pub open spec fn withdraw_pending_fees_check_spec(
    amounts_before: VaultAndUserBalances,
    amounts_after: VaultAndUserBalances,
    effects: WithdrawPendingFeesEffects,
) -> bool {
    let token_vault_diff = amounts_before.vault_token_balance - amounts_after.vault_token_balance;
    let reserve_supply_liquidity_diff = amounts_before.reserve_supply_liquidity_balance
        - amounts_after.reserve_supply_liquidity_balance;
    let total_amount_sent_to_user = effects.available_to_send_to_user
        + effects.invested_liquidity_to_send_to_user;
    &&& total_amount_sent_to_user == reserve_supply_liquidity_diff + token_vault_diff
    &&& amounts_before.vault_ctoken_balance - amounts_after.vault_ctoken_balance
        == effects.invested_to_disinvest_ctokens
    &&& amounts_after.user_token_balance - amounts_before.user_token_balance
        == total_amount_sent_to_user
    &&& reserve_supply_liquidity_diff == effects.invested_liquidity_to_disinvest
}

/// Whether the balances around an invest differ by what its effects say. The
/// rounding loss reported is what the caller added to the vault's tokens.
pub open spec fn invest_balances_match(
    amounts_before: VaultBalances,
    amounts_after: VaultBalances,
    effects: InvestEffects,
) -> bool {
    match effects.direction {
        InvestingDirection::Add => {
            &&& amounts_before.vault_token_balance - effects.liquidity_amount
                == amounts_after.vault_token_balance - effects.rounding_loss
            &&& amounts_before.vault_ctoken_balance + effects.collateral_amount
                == amounts_after.vault_ctoken_balance
            &&& amounts_before.reserve_supply_liquidity_balance + effects.liquidity_amount
                == amounts_after.reserve_supply_liquidity_balance
        },
        InvestingDirection::Subtract => {
            &&& amounts_before.vault_token_balance + effects.liquidity_amount
                == amounts_after.vault_token_balance - effects.rounding_loss
            &&& amounts_before.vault_ctoken_balance - effects.collateral_amount
                == amounts_after.vault_ctoken_balance
            &&& amounts_before.reserve_supply_liquidity_balance - effects.liquidity_amount
                == amounts_after.reserve_supply_liquidity_balance
        },
    }
}

/// Checks the balances around a deposit against its effects: the user paid
/// exactly the deposit and the crank funds, and gained exactly the shares by
/// which the shares issued grew.
pub fn post_transfer_deposit_balance_checks(
    amounts_before: VaultAndUserBalances,
    amounts_after: VaultAndUserBalances,
    shares_issued_before: u64,
    shares_issued_after: u64,
    deposit_effects: DepositEffects,
) -> (r: Result<(), KaminoVaultError>)
    ensures
        r == deposit_check_spec(
            amounts_before,
            amounts_after,
            shares_issued_before,
            shares_issued_after,
            deposit_effects,
        ),
{
    let user_shares_gained: i128 = amounts_after.user_shares_balance as i128
        - amounts_before.user_shares_balance as i128;
    if shares_issued_before as i128 + user_shares_gained != shares_issued_after as i128 {
        return Err(KaminoVaultError::SharesIssuedAmountDoesNotMatch);
    }
    if amounts_before.user_token_balance as i128 - deposit_effects.token_to_deposit as i128
        - deposit_effects.crank_funds_to_deposit as i128
        != amounts_after.user_token_balance as i128 {
        return Err(KaminoVaultError::TokensDepositedAmountDoesNotMatch);
    }
    Ok(())
}

/// Checks the balances around a withdrawal against its effects: what left the
/// vault and the reserve is what the user received, the collateral redeemed
/// and the shares burned are those reported, and the reserve paid out the
/// liquidity disinvested.
pub fn post_transfer_withdraw_balance_checks(
    amounts_before: VaultAndUserBalances,
    amounts_after: VaultAndUserBalances,
    withdraw_effects: WithdrawEffects,
) -> (r: Result<(), KaminoVaultError>)
    ensures
        r == withdraw_check_spec(amounts_before, amounts_after, withdraw_effects),
{
    // The vault's balance can go either way: up when more is left over from
    // the redemption than is paid from the idle balance.
    let token_vault_diff: i128 = amounts_before.vault_token_balance as i128
        - amounts_after.vault_token_balance as i128;
    let ctoken_vault_decrease: i128 = amounts_before.vault_ctoken_balance as i128
        - amounts_after.vault_ctoken_balance as i128;
    let user_ata_increase: i128 = amounts_after.user_token_balance as i128
        - amounts_before.user_token_balance as i128;
    let user_shares_diff: i128 = amounts_before.user_shares_balance as i128
        - amounts_after.user_shares_balance as i128;
    let reserve_supply_liquidity_diff: i128 = amounts_before.reserve_supply_liquidity_balance as i128
        - amounts_after.reserve_supply_liquidity_balance as i128;
    let total_amount_sent_to_user: i128 = withdraw_effects.available_to_send_to_user as i128
        + withdraw_effects.invested_liquidity_to_send_to_user as i128;

    if total_amount_sent_to_user != reserve_supply_liquidity_diff + token_vault_diff {
        return Err(KaminoVaultError::AmountToWithdrawDoesNotMatch);
    }
    if ctoken_vault_decrease != withdraw_effects.invested_to_disinvest_ctokens as i128 {
        return Err(KaminoVaultError::LiquidityToWithdrawDoesNotMatch);
    }
    if user_ata_increase != total_amount_sent_to_user {
        return Err(KaminoVaultError::UserReceivedAmountDoesNotMatch);
    }
    if user_shares_diff != withdraw_effects.shares_to_burn as i128 {
        return Err(KaminoVaultError::SharesBurnedAmountDoesNotMatch);
    }
    if reserve_supply_liquidity_diff != withdraw_effects.invested_liquidity_to_disinvest as i128 {
        return Err(KaminoVaultError::DisinvestedLiquidityAmountDoesNotMatch);
    }
    Ok(())
}

/// Checks the balances around a payment of fees against its effects. Any
/// mismatch is reported as `TooMuchLiquidityToWithdraw`.
pub fn post_transfer_withdraw_pending_fees_balance_checks(
    amounts_before: VaultAndUserBalances,
    amounts_after: VaultAndUserBalances,
    withdraw_fees_effects: WithdrawPendingFeesEffects,
) -> (r: Result<(), KaminoVaultError>)
    ensures
        r == (if withdraw_pending_fees_check_spec(
            amounts_before,
            amounts_after,
            withdraw_fees_effects,
        ) {
            Ok::<(), KaminoVaultError>(())
        } else {
            Err(KaminoVaultError::TooMuchLiquidityToWithdraw)
        }),
{
    let token_vault_diff: i128 = amounts_before.vault_token_balance as i128
        - amounts_after.vault_token_balance as i128;
    let ctoken_vault_decrease: i128 = amounts_before.vault_ctoken_balance as i128
        - amounts_after.vault_ctoken_balance as i128;
    let reserve_supply_liquidity_diff: i128 = amounts_before.reserve_supply_liquidity_balance as i128
        - amounts_after.reserve_supply_liquidity_balance as i128;
    let admin_ata_diff: i128 = amounts_after.user_token_balance as i128
        - amounts_before.user_token_balance as i128;
    let total_amount_sent_to_user: i128 = withdraw_fees_effects.available_to_send_to_user as i128
        + withdraw_fees_effects.invested_liquidity_to_send_to_user as i128;

    if total_amount_sent_to_user != reserve_supply_liquidity_diff + token_vault_diff
        || ctoken_vault_decrease != withdraw_fees_effects.invested_to_disinvest_ctokens as i128
        || admin_ata_diff != total_amount_sent_to_user || reserve_supply_liquidity_diff
        != withdraw_fees_effects.invested_liquidity_to_disinvest as i128 {
        return Err(KaminoVaultError::TooMuchLiquidityToWithdraw);
    }
    Ok(())
}

/// Checks the balances around an invest against its effects, and that the
/// vault is worth no less after it than before. A balance mismatch is
/// reported as `RequireEqViolated`, a loss of value as
/// `AUMDecreasedAfterInvest`.
pub fn post_transfer_invest_checks(
    amounts_before: VaultBalances,
    amounts_after: VaultBalances,
    invest_effects: InvestEffects,
    aum_before: Fraction,
    aum_after: Fraction,
) -> (r: Result<(), KaminoVaultError>)
    ensures
        r == (if !invest_balances_match(amounts_before, amounts_after, invest_effects) {
            Err::<(), KaminoVaultError>(KaminoVaultError::RequireEqViolated)
        } else if aum_after.bits < aum_before.bits {
            Err(KaminoVaultError::AUMDecreasedAfterInvest)
        } else {
            Ok(())
        }),
{
    let liquidity: i128 = invest_effects.liquidity_amount as i128;
    let collateral: i128 = invest_effects.collateral_amount as i128;
    let tokens_after: i128 = amounts_after.vault_token_balance as i128
        - invest_effects.rounding_loss as i128;
    let balances_match: bool = match invest_effects.direction {
        InvestingDirection::Add => amounts_before.vault_token_balance as i128 - liquidity
            == tokens_after && amounts_before.vault_ctoken_balance as i128 + collateral
            == amounts_after.vault_ctoken_balance as i128
            && amounts_before.reserve_supply_liquidity_balance as i128 + liquidity
            == amounts_after.reserve_supply_liquidity_balance as i128,
        InvestingDirection::Subtract => amounts_before.vault_token_balance as i128 + liquidity
            == tokens_after && amounts_before.vault_ctoken_balance as i128 - collateral
            == amounts_after.vault_ctoken_balance as i128
            && amounts_before.reserve_supply_liquidity_balance as i128 - liquidity
            == amounts_after.reserve_supply_liquidity_balance as i128,
    };
    if !balances_match {
        return Err(KaminoVaultError::RequireEqViolated);
    }
    if aum_after.bits < aum_before.bits {
        return Err(KaminoVaultError::AUMDecreasedAfterInvest);
    }
    Ok(())
}

} // verus!
