use kvault::fraction::Fraction;
use kvault::operations::effects::WithdrawPendingFeesEffects;
use kvault::operations::vault_checks::{
    post_transfer_withdraw_pending_fees_balance_checks, VaultAndUserBalances,
};
use kvault::operations::vault_operations::common::{
    amounts_invested, calculate_shares_to_burn, compute_amount_to_deposit_from_shares_to_mint,
    compute_user_total_received_on_withdraw, deposit_into_vault_allocation, get_shares_to_mint,
    holdings, underlying_inventory, withdraw_from_vault_allocation, Invested,
};
use kvault::operations::vault_operations::{
    charge_fees, deposit, disinvest_for_fees, disinvest_for_withdraw, give_up_pending_fee,
    initialize, invest, invest_sizing, withdraw, withdraw_pending_fees,
};
use kvault::pubkey::Pubkey;
use kvault::reserve::{CollateralExchangeRate, ReserveSnapshot};
use kvault::state::{VaultAllocation, VaultState};
use kvault::KaminoVaultError;

const UNIT: u128 = 1 << 60;

fn id(n: u8) -> Pubkey {
    let mut bytes = [0u8; 32];
    bytes[31] = n;
    Pubkey::new_from_array(bytes)
}

fn snap(n: u8, collateral: u64, liquidity: u64) -> ReserveSnapshot {
    ReserveSnapshot {
        reserve: id(n),
        exchange_rate: CollateralExchangeRate::new(collateral, Fraction::from_u64(liquidity)),
        stale: false,
    }
}

fn vault(available: u64, shares: u64) -> VaultState {
    let mut vault = VaultState::default();
    vault.token_available = available;
    vault.shares_issued = shares;
    vault.prev_aum_sf = (available as u128) * UNIT;
    vault.last_fee_charge_timestamp = 1;
    vault
}

fn with_reserve(mut vault: VaultState, n: u8, weight: u64, cap: u64, ctokens: u64) -> VaultState {
    vault.upsert_reserve_allocation(id(n), id(50 + n), 254, weight, cap).unwrap();
    let idx = vault.get_reserve_idx_in_allocation(&id(n)).unwrap();
    vault.vault_allocation_strategy[idx].ctoken_allocation = ctokens;
    vault
}

#[test]
fn initialize_records_decimals_and_time() {
    let mut state = VaultState::default();
    state.vault_admin_authority = id(1);
    state.base_vault_authority = id(2);
    state.base_vault_authority_bump = 255;
    state.token_mint = id(3);
    state.token_vault = id(4);
    state.shares_mint = id(5);
    assert_eq!(initialize(&mut state, 6, 9, 1234), Ok(()));
    assert_eq!(state.token_mint_decimals, 6);
    assert_eq!(state.shares_mint_decimals, 9);
    assert_eq!(state.creation_timestamp, 1234);
    assert_eq!(state.token_available, 0);
    assert_eq!(state.shares_issued, 0);
}

#[test]
fn initialize_refuses_an_unfit_ledger_and_leaves_it() {
    let mut state = VaultState::default();
    let before = state;
    assert_eq!(initialize(&mut state, 6, 9, 1), Err(KaminoVaultError::AdminAuthorityIncorrect));
    assert_eq!(state, before);

    state.vault_admin_authority = id(1);
    assert_eq!(initialize(&mut state, 6, 9, 1), Err(KaminoVaultError::BaseVaultAuthorityIncorrect));
    state.base_vault_authority = id(2);
    state.base_vault_authority_bump = 256;
    assert_eq!(
        initialize(&mut state, 6, 9, 1),
        Err(KaminoVaultError::BaseVaultAuthorityBumpIncorrect)
    );
    state.base_vault_authority_bump = 7;
    assert_eq!(initialize(&mut state, 6, 9, 1), Err(KaminoVaultError::TokenMintIncorrect));
    state.token_mint = id(3);
    assert_eq!(initialize(&mut state, 0, 9, 1), Err(KaminoVaultError::TokenMintDecimalsIncorrect));
    assert_eq!(initialize(&mut state, 6, 9, 1), Err(KaminoVaultError::TokenVaultIncorrect));
    state.token_vault = id(4);
    assert_eq!(initialize(&mut state, 6, 9, 1), Err(KaminoVaultError::SharesMintIncorrect));
    state.shares_mint = id(5);
    assert_eq!(initialize(&mut state, 6, 0, 1), Err(KaminoVaultError::SharesMintDecimalsIncorrect));
    state.management_fee_bps = 1;
    assert_eq!(initialize(&mut state, 6, 9, 1), Err(KaminoVaultError::InitialAccountingIncorrect));
    state.management_fee_bps = 0;
    assert_eq!(initialize(&mut state, 6, 9, 1), Ok(()));
}

#[test]
fn first_fee_charge_only_records_the_time() {
    let mut state = vault(1100, 1000);
    state.last_fee_charge_timestamp = 0;
    state.prev_aum_sf = 0;
    state.performance_fee_bps = 1000;
    let before = state;
    let invested = amounts_invested(&state, &[]).unwrap();
    charge_fees(&mut state, &invested, 55).unwrap();
    assert_eq!(state, VaultState { last_fee_charge_timestamp: 55, ..before });
}

#[test]
fn the_charge_after_the_first_measures_growth() {
    let mut state = vault(1100, 1000);
    state.last_fee_charge_timestamp = 0;
    state.prev_aum_sf = 1000 * UNIT;
    state.performance_fee_bps = 1000;
    let invested = amounts_invested(&state, &[]).unwrap();
    charge_fees(&mut state, &invested, 55).unwrap();
    assert_eq!(state.pending_fees_sf, 0);
    // The same time again: this charge is the first that measures growth.
    charge_fees(&mut state, &invested, 55).unwrap();
    assert_eq!(state.pending_fees_sf, 11529215046068469700);
    let twice = state;
    charge_fees(&mut state, &invested, 55).unwrap();
    assert_eq!(state, twice);
}

#[test]
fn management_fee_is_prorated_over_the_year() {
    let mut state = vault(1000, 1000);
    state.management_fee_bps = 100;
    state.last_fee_charge_timestamp = 10;
    let invested = amounts_invested(&state, &[]).unwrap();
    charge_fees(&mut state, &invested, 10 + 31_556_926).unwrap();
    // One percent of 1000 tokens, at a rate rounded down to 60 binary places.
    assert_eq!(state.pending_fees_sf, 11529215046068469000);
    assert_eq!(state.prev_aum_sf, 1141392289560778507000);
    assert_eq!(state.cumulative_mgmt_fees_sf, 11529215046068469000);
    assert_eq!(state.cumulative_perf_fees_sf, 0);
    assert_eq!(state.last_fee_charge_timestamp, 10 + 31_556_926);

    let mut half = vault(1000, 1000);
    half.management_fee_bps = 100;
    half.last_fee_charge_timestamp = 10;
    charge_fees(&mut half, &invested, 10 + 15_778_463).unwrap();
    assert_eq!(half.pending_fees_sf, 5764607523034234000);
}

#[test]
fn performance_fee_is_charged_on_growth_only() {
    let mut state = vault(1100, 1000);
    state.prev_aum_sf = 1000 * UNIT;
    state.performance_fee_bps = 1000;
    let invested = amounts_invested(&state, &[]).unwrap();
    charge_fees(&mut state, &invested, 1).unwrap();
    // A tenth of the 100 tokens earned.
    assert_eq!(state.pending_fees_sf, 11529215046068469700);
    assert_eq!(state.prev_aum_sf, 1256684440021463203900);
    assert_eq!(state.cumulative_earned_interest_sf, 100 * UNIT);
    assert_eq!(state.cumulative_perf_fees_sf, 11529215046068469700);

    let mut loss = vault(900, 1000);
    loss.prev_aum_sf = 1000 * UNIT;
    loss.performance_fee_bps = 1000;
    charge_fees(&mut loss, &invested, 1).unwrap();
    assert_eq!(loss.pending_fees_sf, 0);
    assert_eq!(loss.prev_aum_sf, 900 * UNIT);
    assert_eq!(loss.cumulative_earned_interest_sf, 0);
}

#[test]
fn fees_never_exceed_the_vault_value() {
    let mut state = vault(10, 1000);
    state.prev_aum_sf = 1_000_000 * UNIT;
    state.management_fee_bps = 10_000;
    state.last_fee_charge_timestamp = 1;
    let invested = amounts_invested(&state, &[]).unwrap();
    charge_fees(&mut state, &invested, 1 + 31_556_926).unwrap();
    assert_eq!(state.pending_fees_sf, 10 * UNIT);
    assert_eq!(state.prev_aum_sf, 0);
}

#[test]
fn fee_charge_reports_overflow_and_changes_nothing() {
    let mut state = vault(10, 1000);
    state.prev_aum_sf = u128::MAX;
    state.management_fee_bps = 10_000;
    state.last_fee_charge_timestamp = 1;
    let before = state;
    let invested = amounts_invested(&state, &[]).unwrap();
    assert_eq!(
        charge_fees(&mut state, &invested, 1 + 10 * 31_556_926),
        Err(KaminoVaultError::MathOverflow)
    );
    assert_eq!(state, before);
}

#[test]
fn shares_to_mint_round_down_at_a_price_rounded_up() {
    let aum = Fraction::from_bits(1500 * UNIT + UNIT / 2);
    assert_eq!(get_shares_to_mint(aum, 100, 1000), Ok(66));
    assert_eq!(get_shares_to_mint(aum, 100, 0), Ok(100));
    assert_eq!(get_shares_to_mint(Fraction::zero(), 100, 1000), Err(KaminoVaultError::VaultAUMZero));
    assert_eq!(
        get_shares_to_mint(Fraction::from_u64(1), u64::MAX, u64::MAX),
        Err(KaminoVaultError::IntegerOverflow)
    );
    assert_eq!(
        get_shares_to_mint(Fraction::from_bits(u128::MAX), 1, 1),
        Err(KaminoVaultError::IntegerOverflow)
    );
}

#[test]
fn amount_to_deposit_rounds_up() {
    let aum = Fraction::from_bits(1500 * UNIT + UNIT / 2);
    assert_eq!(compute_amount_to_deposit_from_shares_to_mint(1000, aum, 66), Ok(100));
    assert_eq!(compute_amount_to_deposit_from_shares_to_mint(0, aum, 66), Ok(66));
    assert_eq!(
        compute_amount_to_deposit_from_shares_to_mint(1, Fraction::from_bits(u128::MAX), 2),
        Err(KaminoVaultError::MathOverflow)
    );
    assert_eq!(
        compute_amount_to_deposit_from_shares_to_mint(1, Fraction::from_bits(u128::MAX), 1),
        Err(KaminoVaultError::IntegerOverflow)
    );
}

#[test]
fn total_received_rounds_down_unless_all_shares_leave() {
    let aum = Fraction::from_u64(10);
    assert_eq!(compute_user_total_received_on_withdraw(3, aum, 1), Ok(3));
    assert_eq!(compute_user_total_received_on_withdraw(3, aum, 2), Ok(6));
    assert_eq!(compute_user_total_received_on_withdraw(3, aum, 3), Ok(10));
    assert_eq!(
        compute_user_total_received_on_withdraw(0, aum, 3),
        Err(KaminoVaultError::MathOverflow)
    );
    assert_eq!(
        compute_user_total_received_on_withdraw(1, Fraction::from_bits(u128::MAX), 1),
        Err(KaminoVaultError::IntegerOverflow)
    );
}

#[test]
fn shares_to_burn_round_up_and_are_capped() {
    let aum = Fraction::from_u64(10);
    assert_eq!(calculate_shares_to_burn(Fraction::from_u64(3), 3, aum, 5), Ok(1));
    assert_eq!(calculate_shares_to_burn(Fraction::from_u64(10), 3, aum, 5), Ok(3));
    assert_eq!(calculate_shares_to_burn(Fraction::from_u64(10), 30, aum, 5), Ok(5));
    assert_eq!(
        calculate_shares_to_burn(Fraction::from_bits(u128::MAX), u64::MAX, Fraction::from_u64(1), 5),
        Ok(5)
    );
    assert_eq!(
        calculate_shares_to_burn(Fraction::from_u64(3), 3, Fraction::from_bits(UNIT - 1), 5),
        Err(KaminoVaultError::MathOverflow)
    );
    assert_eq!(
        calculate_shares_to_burn(Fraction::from_u64(3), 3, Fraction::from_bits(u128::MAX), 5),
        Err(KaminoVaultError::IntegerOverflow)
    );
}

#[test]
fn holdings_value_each_reserve_at_its_rate() {
    let state = with_reserve(with_reserve(vault(50, 1000), 1, 1, 1000, 200), 2, 1, 1000, 9);
    let snaps = [snap(1, 3, 7), snap(2, 2, 1)];
    let held = holdings(&state, &snaps).unwrap();
    assert_eq!(held.available, 50);
    assert_eq!(held.invested.allocations[0].reserve, id(1));
    assert_eq!(held.invested.allocations[0].ctoken_amount, 200);
    assert_eq!(held.invested.allocations[0].target_weight, 1);
    assert_eq!(held.invested.allocations[0].liquidity_amount.bits, 538030035483195255466);
    assert_eq!(held.invested.allocations[1].liquidity_amount.bits, 9 * UNIT / 2);
    assert_eq!(held.invested.allocations[2].reserve, Pubkey::default());
    assert_eq!(held.invested.total.bits, 538030035483195255466 + 9 * UNIT / 2);
    assert_eq!(held.total_sum.bits, 50 * UNIT + 538030035483195255466 + 9 * UNIT / 2);
    assert_eq!(held.invested.in_reserve(&id(2)).unwrap().ctoken_amount, 9);
    assert!(held.invested.in_reserve(&id(3)).is_none());

    let (available, invested) = underlying_inventory(&state, &snaps).unwrap();
    assert_eq!(available, 50);
    assert_eq!(invested, held.invested);
}

#[test]
fn holdings_skip_vacant_slots() {
    let mut state = with_reserve(with_reserve(vault(0, 1), 1, 1, 10, 4), 2, 1, 10, 6);
    state.remove_reserve_from_allocation(&id(1)).unwrap_err();
    state.vault_allocation_strategy[0].ctoken_allocation = 0;
    state.vault_allocation_strategy[0].target_allocation_weight = 0;
    state.remove_reserve_from_allocation(&id(1)).unwrap();
    let invested = amounts_invested(&state, &[snap(2, 1, 1)]).unwrap();
    assert_eq!(invested.allocations[0].reserve, Pubkey::default());
    assert_eq!(invested.allocations[1].reserve, id(2));
    assert_eq!(invested.total.bits, 6 * UNIT);
}

#[test]
fn holdings_refuse_bad_snapshots() {
    let state = with_reserve(with_reserve(vault(50, 1000), 1, 1, 1000, 200), 2, 1, 1000, 9);
    assert_eq!(
        holdings(&state, &[snap(1, 3, 7)]).unwrap_err(),
        KaminoVaultError::ReserveNotProvidedInTheAccounts
    );
    assert_eq!(
        holdings(&state, &[snap(2, 3, 7), snap(1, 3, 7)]).unwrap_err(),
        KaminoVaultError::ReserveAccountAndKeyMismatch
    );
    let stale = ReserveSnapshot { stale: true, ..snap(2, 2, 1) };
    assert_eq!(
        holdings(&state, &[snap(1, 3, 7), stale]).unwrap_err(),
        KaminoVaultError::ReserveIsStale
    );
    let rich = ReserveSnapshot {
        reserve: id(1),
        exchange_rate: CollateralExchangeRate {
            collateral_supply: Fraction::from_bits(1),
            liquidity_supply: Fraction::from_bits(u128::MAX),
        },
        stale: false,
    };
    assert_eq!(holdings(&state, &[rich, snap(2, 2, 1)]).unwrap_err(), KaminoVaultError::MathOverflow);
}

#[test]
fn deposit_refusals_leave_the_ledger_alone() {
    let mut state = vault(1000, 1000);
    state.min_deposit_amount = 100;
    let before = state;
    assert_eq!(deposit(&mut state, &[], 99, 1), Err(KaminoVaultError::DepositAmountBelowMinimum));
    assert_eq!(state, before);

    let mut pricey = vault(1000, 10);
    let before = pricey;
    assert_eq!(deposit(&mut pricey, &[], 50, 1), Err(KaminoVaultError::DepositAmountsZeroShares));
    assert_eq!(pricey, before);

    let mut worthless = vault(0, 10);
    assert_eq!(deposit(&mut worthless, &[], 50, 1), Err(KaminoVaultError::VaultAUMZero));

    let mut indebted = vault(10, 10);
    indebted.pending_fees_sf = 11 * UNIT;
    indebted.prev_aum_sf = 0;
    assert_eq!(deposit(&mut indebted, &[], 50, 1), Err(KaminoVaultError::AUMBelowPendingFees));

    let mut greedy = with_reserve(with_reserve(vault(10, 10), 1, 1, 10, 0), 2, 1, 10, 0);
    greedy.crank_fund_fee_per_reserve = u64::MAX;
    let snaps = [snap(1, 1, 1), snap(2, 1, 1)];
    assert_eq!(deposit(&mut greedy, &snaps, 50, 1), Err(KaminoVaultError::MathOverflow));
    greedy.crank_fund_fee_per_reserve = 26;
    assert_eq!(deposit(&mut greedy, &snaps, 50, 1), Err(KaminoVaultError::DepositAmountBelowMinimum));

    let mut full = vault(u64::MAX, u64::MAX);
    full.prev_aum_sf = (u64::MAX as u128) * UNIT;
    assert_eq!(deposit(&mut full, &[], 5, 1), Err(KaminoVaultError::MathOverflow));
}

#[test]
fn withdraw_refusals_leave_the_ledger_alone() {
    let mut state = with_reserve(vault(50, 1000), 1, 1, 10_000, 200);
    let named = snap(1, 3, 7);
    let snaps = [named];
    state.prev_aum_sf = holdings(&state, &snaps).unwrap().total_sum.bits;
    let before = state;

    assert_eq!(
        withdraw(&mut state, None, &snaps, 1, 0, None),
        Err(KaminoVaultError::CannotWithdrawZeroShares)
    );
    assert_eq!(
        withdraw(&mut state, Some(snap(9, 1, 1)), &snaps, 1, 290, Some(200)),
        Err(KaminoVaultError::ReserveNotPartOfAllocations)
    );
    let unnamed = ReserveSnapshot { reserve: Pubkey::default(), ..named };
    assert_eq!(
        withdraw(&mut state, Some(unnamed), &snaps, 1, 290, Some(200)),
        Err(KaminoVaultError::ReserveNotPartOfAllocations)
    );
    assert_eq!(
        withdraw(&mut state, Some(named), &snaps, 1, 290, Some(1)),
        Err(KaminoVaultError::NotEnoughLiquidityDisinvestedToSendToUser)
    );
    assert_eq!(
        withdraw(&mut state, Some(named), &[], 1, 290, Some(200)),
        Err(KaminoVaultError::ReserveNotProvidedInTheAccounts)
    );
    // 148 tokens are paid: 50 idle and 98 of the 99 redeemed.
    state.min_withdraw_amount = 149;
    assert_eq!(
        withdraw(&mut state, Some(named), &snaps, 1, 290, Some(200)),
        Err(KaminoVaultError::WithdrawAmountBelowMinimum)
    );
    state.min_withdraw_amount = 148;
    assert!(withdraw(&mut state.clone(), Some(named), &snaps, 1, 290, Some(200)).is_ok());
    state.min_withdraw_amount = 0;
    assert_eq!(state, before);

    let mut empty = vault(0, 10);
    assert_eq!(withdraw(&mut empty, None, &[], 1, 5, None), Err(KaminoVaultError::VaultAUMZero));

    let mut indebted = vault(10, 10);
    indebted.pending_fees_sf = 11 * UNIT;
    assert_eq!(withdraw(&mut indebted, None, &[], 1, 5, None), Err(KaminoVaultError::AUMBelowPendingFees));

    let mut dust = vault(0, 1_000_000);
    dust.pending_fees_sf = 0;
    dust = with_reserve(dust, 1, 1, 10, 1);
    dust.prev_aum_sf = UNIT;
    assert_eq!(
        withdraw(&mut dust, None, &[snap(1, 1, 1)], 1, 1, None),
        Err(KaminoVaultError::WithdrawResultsInZeroShares)
    );
}

#[test]
fn withdraw_of_all_shares_pays_the_whole_value() {
    let mut state = vault(1001, 3);
    let effects = withdraw(&mut state, None, &[], 1, 3, None).unwrap();
    assert_eq!(effects.available_to_send_to_user, 1001);
    assert_eq!(effects.shares_to_burn, 3);
    assert_eq!(state.shares_issued, 0);
    assert_eq!(state.token_available, 0);
    assert_eq!(state.prev_aum_sf, 0);
}

#[test]
fn withdraw_sizing_rounds_collateral_up_and_liquidity_down() {
    let rate = CollateralExchangeRate::new(3, Fraction::from_u64(7));
    let held = Fraction::from_bits(538030035483195255466);
    let sized = disinvest_for_withdraw(&rate, held, 99, 200).unwrap();
    assert_eq!(sized.liquidity_to_send.bits, 99 * UNIT);
    assert_eq!(sized.ctokens, 43);
    assert_eq!(sized.liquidity_to_disinvest, 100);
    assert_eq!(sized.rounding_error, 1);

    // Entitled to all that is held, 466.66 tokens: 200 units pay 466 tokens,
    // and lose no more to rounding than the entitlement does.
    let all = disinvest_for_withdraw(&rate, held, 1000, 200).unwrap();
    assert_eq!(all.liquidity_to_send.bits, held.bits);
    assert_eq!(all.ctokens, 200);
    assert_eq!(all.liquidity_to_disinvest, 466);
    assert_eq!(all.rounding_error, 0);

    let capped = disinvest_for_withdraw(&rate, held, 99, 10).unwrap();
    assert_eq!(capped.ctokens, 10);
    assert_eq!(capped.liquidity_to_disinvest, 23);

    let none = disinvest_for_withdraw(&rate, held, 0, 200).unwrap();
    assert_eq!(none.ctokens, 0);
    assert_eq!(none.liquidity_to_disinvest, 0);
    assert_eq!(none.liquidity_to_send.bits, 0);
    assert_eq!(none.rounding_error, 0);
}

#[test]
fn pending_fees_are_paid_from_available_first() {
    let mut state = with_reserve(vault(20, 1000), 1, 1, 10_000, 200);
    let named = snap(1, 3, 7);
    let snaps = [named];
    let total = holdings(&state, &snaps).unwrap().total_sum.bits;
    state.pending_fees_sf = 50 * UNIT + UNIT / 2;
    state.prev_aum_sf = total - state.pending_fees_sf;

    let effects = withdraw_pending_fees(&mut state, &named, &snaps, 1).unwrap();
    assert_eq!(
        effects,
        WithdrawPendingFeesEffects {
            available_to_send_to_user: 20,
            // ceil(30 * 3 / 7) units pay floor(13 * 7 / 3) tokens, a third short of whole.
            invested_to_disinvest_ctokens: 13,
            invested_liquidity_to_send_to_user: 29,
            invested_liquidity_to_disinvest: 30,
        }
    );
    assert_eq!(state.token_available, 1);
    assert_eq!(state.vault_allocation_strategy[0].ctoken_allocation, 187);
    assert_eq!(state.pending_fees_sf, UNIT + UNIT / 2);

    let before = VaultAndUserBalances {
        reserve_supply_liquidity_balance: 700,
        vault_token_balance: 20,
        vault_ctoken_balance: 200,
        user_token_balance: 5,
        user_shares_balance: 0,
    };
    let after = VaultAndUserBalances {
        reserve_supply_liquidity_balance: 670,
        vault_token_balance: 1,
        vault_ctoken_balance: 187,
        user_token_balance: 54,
        user_shares_balance: 0,
    };
    assert_eq!(post_transfer_withdraw_pending_fees_balance_checks(before, after, effects), Ok(()));
    assert_eq!(
        post_transfer_withdraw_pending_fees_balance_checks(
            before,
            VaultAndUserBalances { user_token_balance: 55, ..after },
            effects
        ),
        Err(KaminoVaultError::TooMuchLiquidityToWithdraw)
    );
}

#[test]
fn pending_fees_need_a_reserve_of_the_vault() {
    let mut state = with_reserve(vault(20, 1000), 1, 1, 10_000, 200);
    let snaps = [snap(1, 3, 7)];
    let before = state;
    assert_eq!(
        withdraw_pending_fees(&mut state, &snap(2, 3, 7), &snaps, 1),
        Err(KaminoVaultError::ReserveNotPartOfAllocations)
    );
    assert_eq!(state, before);
}

#[test]
fn fee_sizing_keeps_a_token_back_when_the_payout_is_not_whole() {
    let rate = CollateralExchangeRate::new(3, Fraction::from_u64(7));
    let held = Fraction::from_bits(538030035483195255466);
    let sized = disinvest_for_fees(&rate, held, Fraction::from_bits(30 * UNIT + UNIT / 2)).unwrap();
    assert_eq!(sized.ctokens, 13);
    assert_eq!(sized.liquidity_to_disinvest, 30);
    assert_eq!(sized.rounding_error, 1);

    let even = CollateralExchangeRate::new(1, Fraction::from_u64(2));
    let whole = disinvest_for_fees(&even, held, Fraction::from_u64(30)).unwrap();
    assert_eq!(whole.ctokens, 15);
    assert_eq!(whole.liquidity_to_disinvest, 30);
    assert_eq!(whole.rounding_error, 0);
}

#[test]
fn giving_up_fees_resets_fee_tracking() {
    let mut state = vault(100, 1000);
    state.pending_fees_sf = 150 * UNIT;
    state.prev_aum_sf = 0;
    give_up_pending_fee(&mut state, &[], 77, 60).unwrap();
    assert_eq!(state.pending_fees_sf, 90 * UNIT);
    assert_eq!(state.prev_aum_sf, 10 * UNIT);
    assert_eq!(state.last_fee_charge_timestamp, 77);

    give_up_pending_fee(&mut state, &[], 78, 1000).unwrap();
    assert_eq!(state.pending_fees_sf, 0);
    assert_eq!(state.prev_aum_sf, 100 * UNIT);

    let mut sunk = vault(100, 1000);
    sunk.pending_fees_sf = 500 * UNIT;
    give_up_pending_fee(&mut sunk, &[], 79, 10).unwrap();
    assert_eq!(sunk.pending_fees_sf, 490 * UNIT);
    assert_eq!(sunk.prev_aum_sf, 0);
}

#[test]
fn invest_refusals_leave_the_ledger_alone() {
    let mut state = with_reserve(vault(1000, 1000), 1, 1, 300, 0);
    state.min_invest_delay_slots = 10;
    state.vault_allocation_strategy[0].last_invest_slot = 100;
    let named = snap(1, 3, 7);
    let snaps = [named];
    let before = state;
    assert_eq!(invest(&mut state, &snaps, &named, 109, 1), Err(KaminoVaultError::InvestTooSoon));
    assert_eq!(
        invest(&mut state, &snaps, &snap(2, 3, 7), 110, 1),
        Err(KaminoVaultError::ReserveNotPartOfAllocations)
    );
    state.min_invest_amount = 300;
    assert_eq!(
        invest(&mut state, &snaps, &named, 110, 1),
        Err(KaminoVaultError::InvestAmountBelowMinimum)
    );
    state.min_invest_amount = 0;
    assert_eq!(state, before);
    state.min_invest_amount = 299;
    assert!(invest(&mut state, &snaps, &named, 110, 1).is_ok());
    assert_eq!(state.vault_allocation_strategy[0].last_invest_slot, 110);
}

#[test]
fn invest_leaves_a_reserve_of_weight_zero_altogether() {
    let mut state = with_reserve(vault(0, 1000), 1, 0, 1000, 200);
    let named = snap(1, 3, 7);
    state.prev_aum_sf = holdings(&state, &[named]).unwrap().total_sum.bits;
    let effects = invest(&mut state, &[named], &named, 5, 1).unwrap();
    assert_eq!(effects.collateral_amount, 200);
    assert_eq!(effects.liquidity_amount, 466);
    assert_eq!(effects.rounding_loss, 1);
    assert_eq!(state.vault_allocation_strategy[0].ctoken_allocation, 0);
    assert_eq!(state.token_available, 467);
}

#[test]
fn invest_sizing_is_capped_by_the_idle_balance() {
    let rate = CollateralExchangeRate::new(1, Fraction::from_u64(1));
    let slot = VaultAllocation {
        reserve: id(1),
        target_allocation_weight: 1,
        token_allocation_cap: 1000,
        token_target_allocation_sf: 500 * UNIT,
        ..VaultAllocation::default()
    };
    let sized = invest_sizing(&rate, &slot, Fraction::from_u64(100), 40, 0).unwrap();
    assert_eq!(sized.liquidity_amount, 40);
    assert_eq!(sized.collateral_amount, 40);
    assert_eq!(sized.rounding_loss, 0);
    assert_eq!(
        invest_sizing(&rate, &slot, Fraction::from_u64(500), 40, 0),
        Err(KaminoVaultError::InvestAmountBelowMinimum)
    );
}

#[test]
fn allocation_collateral_is_booked_on_the_reserve_slot() {
    let mut state = with_reserve(vault(0, 1), 1, 1, 10, 5);
    deposit_into_vault_allocation(&mut state, 7, &id(1)).unwrap();
    assert_eq!(state.vault_allocation_strategy[0].ctoken_allocation, 12);
    withdraw_from_vault_allocation(&mut state, 2, &id(1)).unwrap();
    assert_eq!(state.vault_allocation_strategy[0].ctoken_allocation, 10);
    assert_eq!(
        withdraw_from_vault_allocation(&mut state, 11, &id(1)),
        Err(KaminoVaultError::MathOverflow)
    );
    assert_eq!(
        deposit_into_vault_allocation(&mut state, u64::MAX, &id(1)),
        Err(KaminoVaultError::MathOverflow)
    );
    assert_eq!(
        deposit_into_vault_allocation(&mut state, 1, &id(2)),
        Err(KaminoVaultError::CannotFindReserveInAllocations)
    );
    assert_eq!(
        withdraw_from_vault_allocation(&mut state, 1, &id(2)),
        Err(KaminoVaultError::CannotFindReserveInAllocations)
    );
    assert_eq!(state.vault_allocation_strategy[0].ctoken_allocation, 10);
}

#[test]
fn targets_need_holdings_of_the_same_reserves() {
    let mut state = with_reserve(vault(1000, 1000), 1, 1, 300, 0);
    let other = with_reserve(vault(1000, 1000), 2, 1, 300, 0);
    let foreign: Invested = amounts_invested(&other, &[snap(2, 1, 1)]).unwrap();
    let before = state;
    assert_eq!(
        state.refresh_target_allocations(&foreign),
        Err(KaminoVaultError::ReserveNotPartOfAllocations)
    );
    assert_eq!(state, before);
}

#[test]
fn targets_refuse_weights_beyond_64_bits() {
    let mut state =
        with_reserve(with_reserve(vault(1000, 1000), 1, u64::MAX, 300, 0), 2, 1, 300, 0);
    let invested = amounts_invested(&state, &[snap(1, 1, 1), snap(2, 1, 1)]).unwrap();
    assert_eq!(state.refresh_target_allocations(&invested), Err(KaminoVaultError::MathOverflow));
}
