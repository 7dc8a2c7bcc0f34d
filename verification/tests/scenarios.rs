use kvault::fraction::Fraction;
use kvault::operations::effects::{DepositEffects, InvestingDirection};
use kvault::operations::vault_checks::{
    post_transfer_deposit_balance_checks, post_transfer_invest_checks,
    post_transfer_withdraw_balance_checks, VaultAndUserBalances, VaultBalances,
};
use kvault::operations::vault_operations::common::{amounts_invested, holdings};
use kvault::operations::vault_operations::{charge_fees, deposit, invest, withdraw};
use kvault::pubkey::Pubkey;
use kvault::reserve::{CollateralExchangeRate, ReserveSnapshot};
use kvault::state::VaultState;
use kvault::KaminoVaultError;

const ONE: u128 = 1 << 60;

fn key(n: u8) -> Pubkey {
    let mut bytes = [0u8; 32];
    bytes[0] = n;
    Pubkey::new_from_array(bytes)
}

fn snapshot(n: u8, collateral: u64, liquidity: u64) -> ReserveSnapshot {
    ReserveSnapshot {
        reserve: key(n),
        exchange_rate: CollateralExchangeRate::new(collateral, Fraction::from_u64(liquidity)),
        stale: false,
    }
}

fn add_reserve(vault: &mut VaultState, n: u8, weight: u64, cap: u64) {
    vault
        .upsert_reserve_allocation(key(n), key(100 + n), 255, weight, cap)
        .unwrap();
}

fn funded_vault(available: u64, shares: u64) -> VaultState {
    let mut vault = VaultState::default();
    vault.token_available = available;
    vault.shares_issued = shares;
    vault.prev_aum_sf = (available as u128) * ONE;
    vault.last_fee_charge_timestamp = 1;
    vault
}

#[test]
fn seed_deposit_into_empty_vault() {
    let mut vault = VaultState::default();
    let effects = deposit(&mut vault, &[], 1000, 10).unwrap();
    assert_eq!(
        effects,
        DepositEffects { shares_to_mint: 1000, token_to_deposit: 1000, crank_funds_to_deposit: 0 }
    );
    assert_eq!(vault.shares_issued, 1000);
    assert_eq!(vault.token_available, 1000);
    assert_eq!(vault.prev_aum_sf, 1000 * ONE);
    assert_eq!(vault.last_fee_charge_timestamp, 10);
}

#[test]
fn proportional_deposit() {
    let mut vault = funded_vault(1000, 1000);
    let effects = deposit(&mut vault, &[], 500, 1).unwrap();
    assert_eq!(effects.shares_to_mint, 500);
    assert_eq!(effects.token_to_deposit, 500);
    assert_eq!(vault.shares_issued, 1500);
    assert_eq!(vault.token_available, 1500);
}

#[test]
fn proportional_withdraw_from_available() {
    let mut vault = funded_vault(1500, 1500);
    let effects = withdraw(&mut vault, None, &[], 1, 750, None).unwrap();
    assert_eq!(effects.available_to_send_to_user, 750);
    assert_eq!(effects.shares_to_burn, 750);
    assert_eq!(effects.invested_to_disinvest_ctokens, 0);
    assert_eq!(effects.invested_liquidity_to_send_to_user, 0);
    assert_eq!(effects.invested_liquidity_to_disinvest, 0);
    assert_eq!(vault.shares_issued, 750);
    assert_eq!(vault.token_available, 750);
    assert_eq!(vault.prev_aum_sf, 750 * ONE);
}

#[test]
fn capped_rebalance_gives_the_surplus_to_the_uncapped_reserve() {
    let mut vault = funded_vault(1000, 1000);
    add_reserve(&mut vault, 1, 1, 300);
    add_reserve(&mut vault, 2, 1, u64::MAX);
    let snaps = [snapshot(1, 1, 1), snapshot(2, 1, 1)];
    let invested = amounts_invested(&vault, &snaps).unwrap();
    vault.refresh_target_allocations(&invested).unwrap();
    assert_eq!(vault.vault_allocation_strategy[0].token_target_allocation_sf, 300 * ONE);
    assert_eq!(vault.vault_allocation_strategy[1].token_target_allocation_sf, 700 * ONE);
}

#[test]
fn bootstrap_deposit_sets_crank_funds_aside() {
    let mut vault = VaultState::default();
    vault.crank_fund_fee_per_reserve = 7;
    add_reserve(&mut vault, 1, 1, 300);
    add_reserve(&mut vault, 2, 0, 300);
    add_reserve(&mut vault, 3, 5, 0);
    add_reserve(&mut vault, 4, 2, 10);
    let snaps = [snapshot(1, 1, 1), snapshot(2, 1, 1), snapshot(3, 1, 1), snapshot(4, 1, 1)];
    let effects = deposit(&mut vault, &snaps, 1000, 10).unwrap();
    assert_eq!(effects.crank_funds_to_deposit, 14);
    assert_eq!(effects.shares_to_mint, 986);
    assert_eq!(effects.token_to_deposit, 986);
    assert_eq!(vault.available_crank_funds, 14);
    assert_eq!(vault.token_available, 986);
    assert_eq!(vault.shares_issued, 986);
}

#[test]
fn deposit_conserves_tokens_and_shares() {
    let mut vault = funded_vault(1500, 1000);
    vault.prev_aum_sf = 1500 * ONE + ONE / 2;
    vault.token_available = 1500;
    // Half a token of value held in a reserve makes the price uneven.
    add_reserve(&mut vault, 1, 1, 1000);
    vault.vault_allocation_strategy[0].ctoken_allocation = 1;
    vault.crank_fund_fee_per_reserve = 3;
    let snaps = [ReserveSnapshot {
        reserve: key(1),
        exchange_rate: CollateralExchangeRate::new(2, Fraction::from_u64(1)),
        stale: false,
    }];
    let before = vault;
    let effects = deposit(&mut vault, &snaps, 103, 1).unwrap();
    // 1000 shares are worth 1500.5 tokens: 100 tokens buy floor(100000 / 1501) shares,
    // which are worth ceil(66 * 1500.5 / 1000) tokens.
    assert_eq!(effects.shares_to_mint, 66);
    assert_eq!(effects.token_to_deposit, 100);
    assert_eq!(effects.crank_funds_to_deposit, 3);
    assert_eq!(vault.shares_issued, before.shares_issued + effects.shares_to_mint);
    assert_eq!(vault.token_available, before.token_available + effects.token_to_deposit);
    assert_eq!(
        vault.available_crank_funds,
        before.available_crank_funds + effects.crank_funds_to_deposit
    );
    assert!(effects.token_to_deposit + effects.crank_funds_to_deposit <= 103);

    let user_before = VaultAndUserBalances {
        reserve_supply_liquidity_balance: 0,
        vault_token_balance: 1500,
        vault_ctoken_balance: 1,
        user_token_balance: 500,
        user_shares_balance: 10,
    };
    let user_after = VaultAndUserBalances {
        vault_token_balance: 1603,
        user_token_balance: 397,
        user_shares_balance: 76,
        ..user_before
    };
    assert_eq!(
        post_transfer_deposit_balance_checks(
            user_before,
            user_after,
            before.shares_issued,
            vault.shares_issued,
            effects
        ),
        Ok(())
    );
    let short = VaultAndUserBalances { user_token_balance: 398, ..user_after };
    assert_eq!(
        post_transfer_deposit_balance_checks(
            user_before,
            short,
            before.shares_issued,
            vault.shares_issued,
            effects
        ),
        Err(KaminoVaultError::TokensDepositedAmountDoesNotMatch)
    );
    let fewer_shares = VaultAndUserBalances { user_shares_balance: 75, ..user_after };
    assert_eq!(
        post_transfer_deposit_balance_checks(
            user_before,
            fewer_shares,
            before.shares_issued,
            vault.shares_issued,
            effects
        ),
        Err(KaminoVaultError::SharesIssuedAmountDoesNotMatch)
    );
}

#[test]
fn withdraw_conserves_tokens_shares_and_collateral() {
    // 200 collateral units at 3 units for 7 tokens are worth 466.66 tokens.
    let mut vault = funded_vault(50, 1000);
    add_reserve(&mut vault, 1, 1, 10_000);
    vault.vault_allocation_strategy[0].ctoken_allocation = 200;
    let named = snapshot(1, 3, 7);
    let snaps = [named];
    let holdings_before = holdings(&vault, &snaps).unwrap();
    vault.prev_aum_sf = holdings_before.total_sum.bits;
    let before = vault;

    // 290 of 1000 shares are worth floor(516.66 * 0.29) = 149 tokens: 50 idle, 99 redeemed.
    let effects = withdraw(&mut vault, Some(named), &snaps, 1, 290, Some(200)).unwrap();
    assert_eq!(effects.available_to_send_to_user, 50);
    // ceil(99 * 3 / 7) collateral units pay out floor(43 * 7 / 3) tokens.
    assert_eq!(effects.invested_to_disinvest_ctokens, 43);
    assert_eq!(effects.invested_liquidity_to_disinvest, 100);
    // The payout loses a third of a token to rounding, the entitlement nothing.
    assert_eq!(effects.invested_liquidity_to_send_to_user, 98);
    // The 148 tokens paid, at 516 tokens for 1000 shares, are worth ceil(286.82) shares.
    assert_eq!(effects.shares_to_burn, 287);

    assert_eq!(vault.shares_issued, before.shares_issued - effects.shares_to_burn);
    assert_eq!(vault.vault_allocation_strategy[0].ctoken_allocation, 157);
    assert_eq!(vault.token_available, 2);

    let balances_before = VaultAndUserBalances {
        reserve_supply_liquidity_balance: 5000,
        vault_token_balance: 50,
        vault_ctoken_balance: 200,
        user_token_balance: 1,
        user_shares_balance: 300,
    };
    let balances_after = VaultAndUserBalances {
        reserve_supply_liquidity_balance: 4900,
        vault_token_balance: 2,
        vault_ctoken_balance: 157,
        user_token_balance: 149,
        user_shares_balance: 13,
    };
    assert_eq!(
        post_transfer_withdraw_balance_checks(balances_before, balances_after, effects),
        Ok(())
    );
    assert_eq!(
        post_transfer_withdraw_balance_checks(
            balances_before,
            VaultAndUserBalances { user_token_balance: 150, vault_token_balance: 1, ..balances_after },
            effects
        ),
        Err(KaminoVaultError::AmountToWithdrawDoesNotMatch)
    );
    assert_eq!(
        post_transfer_withdraw_balance_checks(
            balances_before,
            VaultAndUserBalances { vault_ctoken_balance: 158, ..balances_after },
            effects
        ),
        Err(KaminoVaultError::LiquidityToWithdrawDoesNotMatch)
    );
    assert_eq!(
        post_transfer_withdraw_balance_checks(
            balances_before,
            VaultAndUserBalances { user_token_balance: 148, ..balances_after },
            effects
        ),
        Err(KaminoVaultError::UserReceivedAmountDoesNotMatch)
    );
    assert_eq!(
        post_transfer_withdraw_balance_checks(
            balances_before,
            VaultAndUserBalances { user_shares_balance: 14, ..balances_after },
            effects
        ),
        Err(KaminoVaultError::SharesBurnedAmountDoesNotMatch)
    );
    assert_eq!(
        post_transfer_withdraw_balance_checks(
            balances_before,
            VaultAndUserBalances {
                reserve_supply_liquidity_balance: 4901,
                vault_token_balance: 1,
                ..balances_after
            },
            effects
        ),
        Err(KaminoVaultError::DisinvestedLiquidityAmountDoesNotMatch)
    );
}

#[test]
fn invest_adds_without_losing_value() {
    let mut vault = funded_vault(1000, 1000);
    add_reserve(&mut vault, 1, 1, 300);
    let named = snapshot(1, 3, 7);
    let snaps = [named];
    let value_before = holdings(&vault, &snaps).unwrap().total_sum;

    let effects = invest(&mut vault, &snaps, &named, 77, 1).unwrap();
    assert_eq!(effects.direction, InvestingDirection::Add);
    // 300 tokens buy floor(300 * 3 / 7) units, which cost ceil(128 * 7 / 3) tokens.
    assert_eq!(effects.collateral_amount, 128);
    assert_eq!(effects.liquidity_amount, 299);
    assert_eq!(effects.rounding_loss, 1);
    assert_eq!(vault.token_available, 702);
    assert_eq!(vault.vault_allocation_strategy[0].ctoken_allocation, 128);
    assert_eq!(vault.vault_allocation_strategy[0].last_invest_slot, 77);
    assert_eq!(vault.vault_allocation_strategy[0].token_target_allocation_sf, 300 * ONE);

    let value_after = holdings(&vault, &snaps).unwrap().total_sum;
    assert!(value_after.bits >= value_before.bits);
    assert_eq!(value_after.bits - value_before.bits, 768614336404564650);

    let before = VaultBalances {
        reserve_supply_liquidity_balance: 7000,
        vault_token_balance: 1000,
        vault_ctoken_balance: 0,
    };
    let after = VaultBalances {
        reserve_supply_liquidity_balance: 7299,
        vault_token_balance: 702,
        vault_ctoken_balance: 128,
    };
    assert_eq!(post_transfer_invest_checks(before, after, effects, value_before, value_after), Ok(()));
    assert_eq!(
        post_transfer_invest_checks(before, after, effects, value_after, value_before),
        Err(KaminoVaultError::AUMDecreasedAfterInvest)
    );
    assert_eq!(
        post_transfer_invest_checks(
            before,
            VaultBalances { vault_ctoken_balance: 127, ..after },
            effects,
            value_before,
            value_after
        ),
        Err(KaminoVaultError::RequireEqViolated)
    );
}

#[test]
fn invest_takes_the_rounding_loss_from_crank_funds() {
    let mut vault = funded_vault(1000, 1000);
    vault.available_crank_funds = 5;
    add_reserve(&mut vault, 1, 1, 300);
    let named = snapshot(1, 3, 7);
    let effects = invest(&mut vault, &[named], &named, 77, 1).unwrap();
    assert_eq!(effects.liquidity_amount, 299);
    assert_eq!(effects.rounding_loss, 0);
    assert_eq!(vault.available_crank_funds, 4);
    assert_eq!(vault.token_available, 702);
}

#[test]
fn invest_subtracts_without_losing_value() {
    let mut vault = funded_vault(0, 1000);
    add_reserve(&mut vault, 1, 1, 100);
    vault.vault_allocation_strategy[0].ctoken_allocation = 200;
    let named = snapshot(1, 3, 7);
    let snaps = [named];
    let value_before = holdings(&vault, &snaps).unwrap().total_sum;
    vault.prev_aum_sf = value_before.bits;

    let effects = invest(&mut vault, &snaps, &named, 5, 1).unwrap();
    assert_eq!(effects.direction, InvestingDirection::Subtract);
    // 366.66 tokens above the cap: floor(366.66 * 3 / 7) units pay floor(157 * 7 / 3) tokens.
    assert_eq!(effects.collateral_amount, 157);
    assert_eq!(effects.liquidity_amount, 366);
    assert_eq!(effects.rounding_loss, 1);
    assert_eq!(vault.token_available, 367);
    assert_eq!(vault.vault_allocation_strategy[0].ctoken_allocation, 43);

    let value_after = holdings(&vault, &snaps).unwrap().total_sum;
    assert!(value_after.bits + 1 >= value_before.bits);
}

#[test]
fn targets_respect_caps_and_total() {
    let mut vault = funded_vault(10_007, 1000);
    vault.unallocated_weight = 3;
    vault.unallocated_tokens_cap = 1000;
    add_reserve(&mut vault, 1, 5, 2000);
    add_reserve(&mut vault, 2, 7, 1500);
    add_reserve(&mut vault, 3, 11, u64::MAX);
    add_reserve(&mut vault, 4, 0, 500);
    add_reserve(&mut vault, 5, 9, 0);
    let snaps =
        [snapshot(1, 1, 1), snapshot(2, 1, 1), snapshot(3, 1, 1), snapshot(4, 1, 1), snapshot(5, 1, 1)];
    let invested = amounts_invested(&vault, &snaps).unwrap();
    vault.refresh_target_allocations(&invested).unwrap();

    let targets: Vec<u128> =
        vault.vault_allocation_strategy.iter().map(|slot| slot.token_target_allocation_sf).collect();
    // 3 parts of 26 would stay idle, but at most 1000 tokens may: 9007 are shared out.
    assert_eq!(targets[0], 2000 * ONE);
    assert_eq!(targets[1], 1500 * ONE);
    assert_eq!(targets[2], 5507 * ONE);
    assert_eq!(targets[3], 0);
    assert_eq!(targets[4], 0);
    let mut sum = 0u128;
    for (slot, target) in vault.vault_allocation_strategy.iter().zip(targets.iter()) {
        if slot.reserve != Pubkey::default() {
            assert!(*target <= (slot.token_allocation_cap as u128) * ONE);
        }
        sum += *target;
    }
    assert!(sum + 1000 * ONE <= 10_007 * ONE);
}

#[test]
fn uncapped_targets_are_proportional_to_weight() {
    let mut vault = funded_vault(1000, 1000);
    add_reserve(&mut vault, 1, 1, u64::MAX);
    add_reserve(&mut vault, 2, 2, u64::MAX);
    let snaps = [snapshot(1, 1, 1), snapshot(2, 1, 1)];
    let invested = amounts_invested(&vault, &snaps).unwrap();
    vault.refresh_target_allocations(&invested).unwrap();
    assert_eq!(vault.vault_allocation_strategy[0].token_target_allocation_sf, 1000 * ONE / 3);
    assert_eq!(vault.vault_allocation_strategy[1].token_target_allocation_sf, 2000 * ONE / 3);
}

#[test]
fn charging_fees_twice_at_one_time_changes_nothing_more() {
    let mut vault = funded_vault(1100, 1000);
    vault.prev_aum_sf = 1000 * ONE;
    vault.performance_fee_bps = 1000;
    vault.management_fee_bps = 100;
    vault.last_fee_charge_timestamp = 1000;
    let invested = amounts_invested(&vault, &[]).unwrap();
    charge_fees(&mut vault, &invested, 1000 + 15_778_463).unwrap();
    let once = vault;
    assert!(once.pending_fees_sf > 0);
    charge_fees(&mut vault, &invested, 1000 + 15_778_463).unwrap();
    assert_eq!(vault.pending_fees_sf, once.pending_fees_sf);
    assert_eq!(vault.prev_aum_sf, once.prev_aum_sf);
    assert_eq!(vault, once);
}

#[test]
fn invest_out_of_a_reserve_may_cost_the_smallest_fraction() {
    // Two collateral units are backed by two tokens and one bit.
    let named = ReserveSnapshot {
        reserve: key(1),
        exchange_rate: CollateralExchangeRate {
            collateral_supply: Fraction::from_u64(2),
            liquidity_supply: Fraction::from_bits(2 * ONE + 1),
        },
        stale: false,
    };
    let snaps = [named];
    let mut vault = funded_vault(0, 1000);
    add_reserve(&mut vault, 1, 1, 1);
    vault.vault_allocation_strategy[0].ctoken_allocation = 2;
    let value_before = holdings(&vault, &snaps).unwrap().total_sum;
    assert_eq!(value_before.bits, 2 * ONE + 1);
    vault.prev_aum_sf = value_before.bits;

    let effects = invest(&mut vault, &snaps, &named, 5, 1).unwrap();
    assert_eq!(effects.direction, InvestingDirection::Subtract);
    assert_eq!(effects.collateral_amount, 1);
    assert_eq!(effects.liquidity_amount, 1);
    assert_eq!(effects.rounding_loss, 0);
    let value_after = holdings(&vault, &snaps).unwrap().total_sum;
    assert_eq!(value_after.bits + 1, value_before.bits);
}
