use kvault::fraction::Fraction;
use kvault::operations::request_checks::{
    check_allocation_update_signer, check_ctoken_vault, check_deposit_amount,
    check_liquidity_received, check_reserve_token_mint, shares_to_withdraw,
};
use kvault::operations::reserve_allocation_operations::{
    update_reserve_allocation, AllocationUpdate,
};
use kvault::operations::reserve_whitelist_operations::check_can_invest_in_reserve;
use kvault::operations::vault_config_operations::{update_config, VaultConfigField};
use kvault::operations::vault_operations::common::{
    amounts_invested, available_to_invest, burn_shares, deposit_crank_funds, deposit_into_vault,
    mint_shares, update_pending_fees, update_prev_aum, withdraw_from_accounting,
    withdraw_from_vault,
};
use kvault::operations::vault_operations::{deposit, init_vault, VaultIdentities};
use kvault::pubkey::Pubkey;
use kvault::reserve::{CollateralExchangeRate, ReserveSnapshot};
use kvault::state::{ReserveWhitelistEntry, VaultAllocation, VaultState};
use kvault::utils::consts::INITIAL_DEPOSIT_AMOUNT;
use kvault::utils::global_config::{GlobalConfig, UpdateGlobalConfigMode};
use kvault::{KaminoVaultError, KaminoVaultResult};

const WHOLE: u128 = 1 << 60;

fn who(n: u8) -> Pubkey {
    let mut bytes = [0u8; 32];
    bytes[15] = n;
    Pubkey::new_from_array(bytes)
}

#[test]
fn a_deposit_must_tender_something() {
    assert_eq!(check_deposit_amount(0), Err(KaminoVaultError::DepositAmountsZero));
    assert_eq!(check_deposit_amount(1), Ok(()));
    assert_eq!(check_deposit_amount(u64::MAX), Ok(()));
}

#[test]
fn a_withdrawal_is_run_for_at_most_the_shares_held() {
    assert_eq!(shares_to_withdraw(10, 7), 7);
    assert_eq!(shares_to_withdraw(7, 10), 7);
    assert_eq!(shares_to_withdraw(7, 7), 7);
    assert_eq!(shares_to_withdraw(0, 7), 0);
}

#[test]
fn a_redemption_must_free_what_is_sent_on() {
    assert_eq!(check_liquidity_received(100, 150, 50), Ok(()));
    assert_eq!(check_liquidity_received(100, 150, 49), Ok(()));
    assert_eq!(
        check_liquidity_received(100, 150, 51),
        Err(KaminoVaultError::NotEnoughLiquidityDisinvestedToSendToUser)
    );
    assert_eq!(
        check_liquidity_received(100, 99, 0),
        Err(KaminoVaultError::NotEnoughLiquidityDisinvestedToSendToUser)
    );
    assert_eq!(check_liquidity_received(100, 100, 0), Ok(()));
}

#[test]
fn new_reserves_are_the_vault_admins_to_add() {
    let mut vault = VaultState::default();
    vault.vault_admin_authority = who(1);
    vault.allocation_admin = who(2);
    vault.upsert_reserve_allocation(who(10), who(11), 1, 1, 1).unwrap();

    assert_eq!(check_allocation_update_signer(&vault, &who(10), &who(1)), Ok(()));
    assert_eq!(check_allocation_update_signer(&vault, &who(10), &who(2)), Ok(()));
    assert_eq!(
        check_allocation_update_signer(&vault, &who(10), &who(3)),
        Err(KaminoVaultError::WrongAdminOrAllocationAdmin)
    );
    assert_eq!(check_allocation_update_signer(&vault, &who(20), &who(1)), Ok(()));
    assert_eq!(
        check_allocation_update_signer(&vault, &who(20), &who(2)),
        Err(KaminoVaultError::WrongAdminOrAllocationAdmin)
    );
}

#[test]
fn reserves_must_lend_the_vaults_token() {
    let mut vault = VaultState::default();
    vault.token_mint = who(5);
    assert_eq!(check_reserve_token_mint(&vault, &who(5)), Ok(()));
    assert_eq!(
        check_reserve_token_mint(&vault, &who(6)),
        Err(KaminoVaultError::RequireEqViolated)
    );

    let slot = VaultAllocation { ctoken_vault: who(7), ..VaultAllocation::default() };
    assert_eq!(check_ctoken_vault(&slot, &who(7)), Ok(()));
    assert_eq!(check_ctoken_vault(&slot, &who(8)), Err(KaminoVaultError::RequireEqViolated));
}

#[test]
fn the_pending_admin_takes_over_the_vault() {
    let mut vault = VaultState::default();
    vault.vault_admin_authority = who(1);
    vault.pending_admin = who(2);
    let before = vault;
    assert_eq!(vault.apply_pending_admin(&who(1)), Err(KaminoVaultError::AdminAuthorityIncorrect));
    assert_eq!(vault.apply_pending_admin(&who(3)), Err(KaminoVaultError::AdminAuthorityIncorrect));
    assert_eq!(vault, before);
    assert_eq!(vault.apply_pending_admin(&who(2)), Ok(()));
    assert_eq!(vault.vault_admin_authority, who(2));
    assert_eq!(vault.pending_admin, who(2));
}

#[test]
fn the_global_admin_is_changed_in_two_steps() {
    let mut config = GlobalConfig::init(who(1));
    assert_eq!(config.global_admin, who(1));
    assert_eq!(config.pending_admin, who(1));
    assert_eq!(config.min_withdrawal_penalty_bps, 0);

    config.update_value(UpdateGlobalConfigMode::PendingAdmin(who(2)));
    assert_eq!(config.global_admin, who(1));
    assert_eq!(config.pending_admin, who(2));
    assert_eq!(config.apply_pending_admin(&who(1)), Err(KaminoVaultError::AdminAuthorityIncorrect));
    assert_eq!(config.global_admin, who(1));
    assert_eq!(config.apply_pending_admin(&who(2)), Ok(()));
    assert_eq!(config.global_admin, who(2));

    config.update_value(UpdateGlobalConfigMode::MinWithdrawalPenaltyLamports(5));
    config.update_value(UpdateGlobalConfigMode::MinWithdrawalPenaltyBPS(6));
    assert_eq!(config.min_withdrawal_penalty_lamports, 5);
    assert_eq!(config.min_withdrawal_penalty_bps, 6);
}

#[test]
fn investing_may_need_the_whitelist() {
    let mut vault = VaultState::default();
    let listed = ReserveWhitelistEntry {
        token_mint: who(1),
        reserve: who(2),
        whitelist_add_allocation: 0,
        whitelist_invest: 1,
    };
    let unlisted = ReserveWhitelistEntry { whitelist_invest: 0, whitelist_add_allocation: 1, ..listed };
    assert_eq!(check_can_invest_in_reserve(&vault, None), Ok(()));
    assert_eq!(check_can_invest_in_reserve(&vault, Some(&unlisted)), Ok(()));
    vault.allow_invest_in_whitelisted_reserves_only = 1;
    assert_eq!(
        check_can_invest_in_reserve(&vault, None),
        Err(KaminoVaultError::ReserveNotWhitelisted)
    );
    assert_eq!(
        check_can_invest_in_reserve(&vault, Some(&unlisted)),
        Err(KaminoVaultError::ReserveNotWhitelisted)
    );
    assert_eq!(check_can_invest_in_reserve(&vault, Some(&listed)), Ok(()));
}

#[test]
fn accounting_steps_move_one_balance_each() {
    let mut vault = VaultState::default();
    deposit_into_vault(&mut vault, 100);
    mint_shares(&mut vault, 90);
    deposit_crank_funds(&mut vault, 3);
    assert_eq!(available_to_invest(&vault), 100);
    withdraw_from_vault(&mut vault, 10);
    burn_shares(&mut vault, 20);
    withdraw_from_accounting(&mut vault, 5, 6);
    update_prev_aum(&mut vault, Fraction::from_u64(7));
    update_pending_fees(&mut vault, Fraction::from_u64(8));
    assert_eq!(
        vault,
        VaultState {
            token_available: 85,
            shares_issued: 64,
            available_crank_funds: 3,
            prev_aum_sf: 7 * WHOLE,
            pending_fees_sf: 8 * WHOLE,
            ..VaultState::default()
        }
    );
}

#[test]
fn the_seed_deposit_fixes_the_first_share_price() {
    let mut vault = VaultState::default();
    let effects = deposit(&mut vault, &[], INITIAL_DEPOSIT_AMOUNT, 1).unwrap();
    assert_eq!(effects.shares_to_mint, 1000);
    // A second depositor of one token cannot move the price.
    let next = deposit(&mut vault, &[], 1, 2).unwrap();
    assert_eq!(next.shares_to_mint, 1);
    assert_eq!(next.token_to_deposit, 1);
}

#[test]
fn an_unallocated_cap_of_zero_is_no_cap() {
    let snaps = [ReserveSnapshot {
        reserve: who(9),
        exchange_rate: CollateralExchangeRate::new(1, Fraction::from_u64(1)),
        stale: false,
    }];
    let mut vault = VaultState::default();
    vault.token_available = 1000;
    vault.unallocated_weight = 3;
    vault.upsert_reserve_allocation(who(9), who(10), 0, 1, u64::MAX).unwrap();
    let invested = amounts_invested(&vault, &snaps).unwrap();
    vault.refresh_target_allocations(&invested).unwrap();
    assert_eq!(vault.vault_allocation_strategy[0].token_target_allocation_sf, 250 * WHOLE);

    vault.unallocated_tokens_cap = 100;
    vault.refresh_target_allocations(&invested).unwrap();
    assert_eq!(vault.vault_allocation_strategy[0].token_target_allocation_sf, 900 * WHOLE);
}

#[test]
fn results_carry_the_vaults_errors() {
    let refused: KaminoVaultResult = Err(KaminoVaultError::VaultAUMZero);
    let granted: KaminoVaultResult<u64> = Ok(3);
    assert_eq!(refused, Err(KaminoVaultError::VaultAUMZero));
    assert_eq!(granted, Ok(3));
}

#[test]
fn a_vault_is_set_up_with_its_seed_deposit() {
    let identities = VaultIdentities {
        admin_authority: who(1),
        base_vault_authority: who(2),
        base_vault_authority_bump: 254,
        token_mint: who(3),
        token_vault: who(4),
        token_program: who(5),
        shares_mint: who(6),
    };
    let mut vault = VaultState::default();
    let effects = init_vault(&mut vault, identities, 6, 6, &[], 77).unwrap();
    assert_eq!(effects.shares_to_mint, 1000);
    assert_eq!(effects.token_to_deposit, 1000);
    assert_eq!(vault.vault_admin_authority, who(1));
    assert_eq!(vault.allocation_admin, who(1));
    assert_eq!(vault.base_vault_authority_bump, 254);
    assert_eq!(vault.shares_mint, who(6));
    assert_eq!(vault.creation_timestamp, 77);
    assert_eq!(vault.last_fee_charge_timestamp, 77);
    assert_eq!(vault.shares_issued, 1000);
    assert_eq!(vault.token_available, 1000);

    let mut blank = VaultState::default();
    let unnamed = VaultIdentities { token_vault: Pubkey::default(), ..identities };
    assert_eq!(
        init_vault(&mut blank, unnamed, 6, 6, &[], 77),
        Err(KaminoVaultError::TokenVaultIncorrect)
    );
    assert_eq!(blank, VaultState::default());

    let mut used = vault;
    assert_eq!(
        init_vault(&mut used, identities, 6, 6, &[], 78),
        Err(KaminoVaultError::InitialAccountingIncorrect)
    );
    assert_eq!(used, vault);
}

#[test]
fn a_change_of_rates_does_not_reach_back() {
    let mut vault = VaultState::default();
    vault.token_available = 1100;
    vault.shares_issued = 1000;
    vault.prev_aum_sf = 1000 * WHOLE;
    vault.performance_fee_bps = 1000;
    vault.last_fee_charge_timestamp = 5;
    update_config(&mut vault, &[], VaultConfigField::PerformanceFeeBps, &5000u64.to_le_bytes(), 5)
        .unwrap();
    // The growth so far was charged at the old rate of a tenth.
    assert_eq!(vault.pending_fees_sf, 11529215046068469700);
    assert_eq!(vault.performance_fee_bps, 5000);

    let before = vault;
    assert_eq!(
        update_config(&mut vault, &[], VaultConfigField::PerformanceFeeBps, &50_000u64.to_le_bytes(), 9),
        Err(KaminoVaultError::BPSValueTooBig)
    );
    assert_eq!(vault, before);
}

#[test]
fn allocation_updates_are_checked_in_order() {
    let mut vault = VaultState::default();
    vault.vault_admin_authority = who(1);
    vault.allocation_admin = who(2);
    vault.token_mint = who(3);
    vault.allow_allocations_in_whitelisted_reserves_only = 1;
    let update = AllocationUpdate {
        reserve: who(10),
        reserve_liquidity_mint: who(3),
        ctoken_vault: who(11),
        ctoken_vault_bump: 250,
        target_allocation_weight: 5,
        allocation_cap: 100,
    };
    let listed = ReserveWhitelistEntry {
        token_mint: who(3),
        reserve: who(10),
        whitelist_add_allocation: 1,
        whitelist_invest: 0,
    };
    let before = vault;
    assert_eq!(
        update_reserve_allocation(&mut vault, &who(2), &update, Some(&listed)),
        Err(KaminoVaultError::WrongAdminOrAllocationAdmin)
    );
    let other_token = AllocationUpdate { reserve_liquidity_mint: who(4), ..update };
    assert_eq!(
        update_reserve_allocation(&mut vault, &who(1), &other_token, Some(&listed)),
        Err(KaminoVaultError::RequireEqViolated)
    );
    assert_eq!(
        update_reserve_allocation(&mut vault, &who(1), &update, None),
        Err(KaminoVaultError::ReserveNotWhitelisted)
    );
    assert_eq!(vault, before);

    assert_eq!(update_reserve_allocation(&mut vault, &who(1), &update, Some(&listed)), Ok(()));
    assert_eq!(vault.vault_allocation_strategy[0].reserve, who(10));
    assert_eq!(vault.vault_allocation_strategy[0].ctoken_vault, who(11));
    assert_eq!(vault.vault_allocation_strategy[0].ctoken_vault_bump, 250);
    assert_eq!(vault.vault_allocation_strategy[0].target_allocation_weight, 5);
    assert_eq!(vault.vault_allocation_strategy[0].token_allocation_cap, 100);

    // The allocation admin may lower what is there without the whitelist.
    let lower = AllocationUpdate { target_allocation_weight: 4, allocation_cap: 100, ..update };
    assert_eq!(update_reserve_allocation(&mut vault, &who(2), &lower, None), Ok(()));
    assert_eq!(vault.vault_allocation_strategy[0].target_allocation_weight, 4);
}
