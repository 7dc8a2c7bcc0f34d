use kvault::operations::reserve_whitelist_operations::{
    check_can_update_allocation_weight, update_reserve_whitelist_entry, UpdateReserveWhitelistMode,
};
use kvault::operations::vault_config_operations::{
    check_if_signer_allowed_to_update_vault_config, update_vault_config, VaultConfigField,
};
use kvault::operations::vault_operations::string_utils::slice_to_array_padded;
use kvault::pubkey::Pubkey;
use kvault::state::{ReserveWhitelistEntry, VaultAllocation, VaultState, MAX_RESERVES};
use kvault::KaminoVaultError;

fn named(n: u8) -> Pubkey {
    let mut bytes = [0u8; 32];
    bytes[7] = n;
    Pubkey::new_from_array(bytes)
}

#[test]
fn numbers_are_read_least_significant_byte_first() {
    let mut vault = VaultState::default();
    update_vault_config(
        &mut vault,
        VaultConfigField::MinDepositAmount,
        &[0x08, 0x07, 0x06, 0x05, 0x04, 0x03, 0x02, 0x01],
    )
    .unwrap();
    assert_eq!(vault.min_deposit_amount, 0x0102_0304_0506_0708);
    update_vault_config(&mut vault, VaultConfigField::MinInvestAmount, &77u64.to_le_bytes()).unwrap();
    assert_eq!(vault.min_invest_amount, 77);
    update_vault_config(&mut vault, VaultConfigField::MinInvestDelaySlots, &u64::MAX.to_le_bytes())
        .unwrap();
    assert_eq!(vault.min_invest_delay_slots, u64::MAX);
    update_vault_config(&mut vault, VaultConfigField::CrankFundFeePerReserve, &5u64.to_le_bytes())
        .unwrap();
    assert_eq!(vault.crank_fund_fee_per_reserve, 5);
    update_vault_config(&mut vault, VaultConfigField::UnallocatedWeight, &9u64.to_le_bytes())
        .unwrap();
    assert_eq!(vault.unallocated_weight, 9);
    update_vault_config(&mut vault, VaultConfigField::UnallocatedTokensCap, &11u64.to_le_bytes())
        .unwrap();
    assert_eq!(vault.unallocated_tokens_cap, 11);
}

#[test]
fn malformed_values_are_refused() {
    let mut vault = VaultState::default();
    let before = vault;
    for data in [&[][..], &[1u8; 7][..], &[1u8; 9][..]] {
        assert_eq!(
            update_vault_config(&mut vault, VaultConfigField::MinDepositAmount, data),
            Err(KaminoVaultError::MalformedConfigValue)
        );
    }
    for data in [&[][..], &[1u8; 31][..], &[1u8; 33][..]] {
        assert_eq!(
            update_vault_config(&mut vault, VaultConfigField::PendingVaultAdmin, data),
            Err(KaminoVaultError::MalformedConfigValue)
        );
    }
    for data in [&[][..], &[1u8; 2][..]] {
        assert_eq!(
            update_vault_config(
                &mut vault,
                VaultConfigField::AllowInvestInWhitelistedReservesOnly,
                data
            ),
            Err(KaminoVaultError::MalformedConfigValue)
        );
    }
    assert_eq!(vault, before);
}

#[test]
fn rates_and_minimums_have_limits() {
    let mut vault = VaultState::default();
    let before = vault;
    let set = |vault: &mut VaultState, field: VaultConfigField, value: u64| {
        update_vault_config(vault, field, &value.to_le_bytes())
    };
    assert_eq!(
        set(&mut vault, VaultConfigField::PerformanceFeeBps, 10_001),
        Err(KaminoVaultError::BPSValueTooBig)
    );
    assert_eq!(
        set(&mut vault, VaultConfigField::ManagementFeeBps, 1001),
        Err(KaminoVaultError::ManagementFeeGreaterThanMaxAllowed)
    );
    assert_eq!(
        set(&mut vault, VaultConfigField::MinWithdrawAmount, 1001),
        Err(KaminoVaultError::MinWithdrawAmountTooBig)
    );
    assert_eq!(
        set(&mut vault, VaultConfigField::WithdrawalPenaltyLamports, 10_001),
        Err(KaminoVaultError::WithdrawalFeeLamportsGreaterThanMaxAllowed)
    );
    assert_eq!(
        set(&mut vault, VaultConfigField::WithdrawalPenaltyBps, 1001),
        Err(KaminoVaultError::WithdrawalFeeBPSGreaterThanMaxAllowed)
    );
    assert_eq!(vault, before);

    set(&mut vault, VaultConfigField::PerformanceFeeBps, 10_000).unwrap();
    set(&mut vault, VaultConfigField::ManagementFeeBps, 1000).unwrap();
    set(&mut vault, VaultConfigField::MinWithdrawAmount, 1000).unwrap();
    set(&mut vault, VaultConfigField::WithdrawalPenaltyLamports, 10_000).unwrap();
    set(&mut vault, VaultConfigField::WithdrawalPenaltyBps, 1000).unwrap();
    assert_eq!(vault.performance_fee_bps, 10_000);
    assert_eq!(vault.management_fee_bps, 1000);
    assert_eq!(vault.min_withdraw_amount, 1000);
    assert_eq!(vault.withdrawal_penalty_lamports, 10_000);
    assert_eq!(vault.withdrawal_penalty_bps, 1000);
}

#[test]
fn keys_are_taken_byte_for_byte() {
    let mut vault = VaultState::default();
    let mut bytes = [0u8; 32];
    for (i, byte) in bytes.iter_mut().enumerate() {
        *byte = 200 - i as u8;
    }
    let key = Pubkey::new_from_array(bytes);
    update_vault_config(&mut vault, VaultConfigField::PendingVaultAdmin, &bytes).unwrap();
    assert_eq!(vault.pending_admin, key);
    assert_eq!(vault.vault_admin_authority, Pubkey::default());
    update_vault_config(&mut vault, VaultConfigField::LookupTable, &bytes).unwrap();
    assert_eq!(vault.vault_lookup_table, key);
    update_vault_config(&mut vault, VaultConfigField::Farm, &bytes).unwrap();
    assert_eq!(vault.vault_farm, key);
    update_vault_config(&mut vault, VaultConfigField::FirstLossCapitalFarm, &bytes).unwrap();
    assert_eq!(vault.first_loss_capital_farm, key);
    update_vault_config(&mut vault, VaultConfigField::AllocationAdmin, &bytes).unwrap();
    assert_eq!(vault.allocation_admin, key);
}

#[test]
fn names_are_cut_or_filled_to_forty_bytes() {
    let mut vault = VaultState::default();
    update_vault_config(&mut vault, VaultConfigField::Name, b"steady").unwrap();
    let mut expected = [0u8; 40];
    expected[..6].copy_from_slice(b"steady");
    assert_eq!(vault.name, expected);

    let long = [b'x'; 45];
    assert_eq!(slice_to_array_padded(&long), [b'x'; 40]);
    assert_eq!(slice_to_array_padded(&[]), [0u8; 40]);
}

#[test]
fn switches_are_stored_as_given() {
    let mut vault = VaultState::default();
    update_vault_config(&mut vault, VaultConfigField::AllowAllocationsInWhitelistedReservesOnly, &[1])
        .unwrap();
    assert_eq!(vault.allow_allocations_in_whitelisted_reserves_only, 1);
    assert!(vault.vault_allows_allocations_in_whitelisted_reserves_only());
    assert!(!vault.vault_allows_invest_in_whitelisted_reserves_only());
    update_vault_config(&mut vault, VaultConfigField::AllowInvestInWhitelistedReservesOnly, &[1])
        .unwrap();
    assert!(vault.vault_allows_invest_in_whitelisted_reserves_only());
}

#[test]
fn whitelist_switches_are_turned_off_by_the_global_admin_only() {
    let field = VaultConfigField::AllowAllocationsInWhitelistedReservesOnly;
    assert_eq!(check_if_signer_allowed_to_update_vault_config(&field, &[0], true, false), Ok(()));
    assert_eq!(
        check_if_signer_allowed_to_update_vault_config(&field, &[0], false, true),
        Err(KaminoVaultError::AdminAuthorityIncorrect)
    );
    assert_eq!(check_if_signer_allowed_to_update_vault_config(&field, &[1], false, true), Ok(()));
    assert_eq!(check_if_signer_allowed_to_update_vault_config(&field, &[1], true, false), Ok(()));
    assert_eq!(
        check_if_signer_allowed_to_update_vault_config(&field, &[1], false, false),
        Err(KaminoVaultError::AdminAuthorityIncorrect)
    );
    assert_eq!(
        check_if_signer_allowed_to_update_vault_config(&field, &[2], true, true),
        Err(KaminoVaultError::InvalidBoolLikeValue)
    );
    assert_eq!(
        check_if_signer_allowed_to_update_vault_config(&field, &[1, 0], true, true),
        Err(KaminoVaultError::MalformedConfigValue)
    );
    let other = VaultConfigField::AllowInvestInWhitelistedReservesOnly;
    assert_eq!(
        check_if_signer_allowed_to_update_vault_config(&other, &[0], false, true),
        Err(KaminoVaultError::AdminAuthorityIncorrect)
    );
}

#[test]
fn other_fields_are_the_vault_admins() {
    let field = VaultConfigField::PerformanceFeeBps;
    assert_eq!(check_if_signer_allowed_to_update_vault_config(&field, &[], false, true), Ok(()));
    assert_eq!(
        check_if_signer_allowed_to_update_vault_config(&field, &[], true, false),
        Err(KaminoVaultError::AdminAuthorityIncorrect)
    );
    assert_eq!(
        check_if_signer_allowed_to_update_vault_config(&VaultConfigField::Name, &[], true, false),
        Err(KaminoVaultError::AdminAuthorityIncorrect)
    );
}

#[test]
fn whitelist_entry_takes_flags_of_zero_or_one() {
    let mut entry = ReserveWhitelistEntry {
        token_mint: Pubkey::default(),
        reserve: Pubkey::default(),
        whitelist_add_allocation: 0,
        whitelist_invest: 0,
    };
    update_reserve_whitelist_entry(
        &mut entry,
        &named(1),
        &named(2),
        UpdateReserveWhitelistMode::Invest(1),
    )
    .unwrap();
    assert_eq!(entry.reserve, named(1));
    assert_eq!(entry.token_mint, named(2));
    assert!(entry.is_invest_whitelisted());
    assert!(!entry.is_add_allocation_whitelisted());
    update_reserve_whitelist_entry(
        &mut entry,
        &named(1),
        &named(2),
        UpdateReserveWhitelistMode::AddAllocation(1),
    )
    .unwrap();
    assert!(entry.is_add_allocation_whitelisted());

    let before = entry;
    assert_eq!(
        update_reserve_whitelist_entry(
            &mut entry,
            &named(3),
            &named(4),
            UpdateReserveWhitelistMode::Invest(2)
        ),
        Err(KaminoVaultError::InvalidBoolLikeValue)
    );
    assert_eq!(
        update_reserve_whitelist_entry(
            &mut entry,
            &named(3),
            &named(4),
            UpdateReserveWhitelistMode::AddAllocation(255)
        ),
        Err(KaminoVaultError::InvalidBoolLikeValue)
    );
    assert_eq!(entry, before);
}

#[test]
fn raising_an_allocation_may_need_the_whitelist() {
    let mut vault = VaultState::default();
    vault.upsert_reserve_allocation(named(1), named(2), 1, 10, 100).unwrap();
    let listed = ReserveWhitelistEntry {
        token_mint: named(9),
        reserve: named(1),
        whitelist_add_allocation: 1,
        whitelist_invest: 0,
    };
    let unlisted = ReserveWhitelistEntry { whitelist_add_allocation: 0, ..listed };

    assert_eq!(check_can_update_allocation_weight(&vault, Some(0), 11, 100, None), Ok(()));
    vault.allow_allocations_in_whitelisted_reserves_only = 1;
    assert_eq!(
        check_can_update_allocation_weight(&vault, Some(0), 11, 100, None),
        Err(KaminoVaultError::ReserveNotWhitelisted)
    );
    assert_eq!(
        check_can_update_allocation_weight(&vault, Some(0), 10, 101, Some(&unlisted)),
        Err(KaminoVaultError::ReserveNotWhitelisted)
    );
    assert_eq!(check_can_update_allocation_weight(&vault, Some(0), 11, 101, Some(&listed)), Ok(()));
    assert_eq!(check_can_update_allocation_weight(&vault, Some(0), 10, 100, None), Ok(()));
    assert_eq!(check_can_update_allocation_weight(&vault, Some(0), 0, 0, None), Ok(()));
    assert_eq!(
        check_can_update_allocation_weight(&vault, None, 1, 0, None),
        Err(KaminoVaultError::ReserveNotWhitelisted)
    );
    assert_eq!(check_can_update_allocation_weight(&vault, None, 0, 0, None), Ok(()));
}

#[test]
fn allocation_table_keeps_one_slot_per_reserve() {
    let mut vault = VaultState::default();
    assert_eq!(vault.get_reserves_count(), 0);
    vault.upsert_reserve_allocation(named(1), named(11), 3, 10, 100).unwrap();
    vault.upsert_reserve_allocation(named(2), named(12), 4, 0, 100).unwrap();
    vault.upsert_reserve_allocation(named(1), named(99), 9, 20, 200).unwrap();
    assert_eq!(vault.get_reserves_count(), 2);
    assert_eq!(vault.get_reserves_with_allocation_count(), 1);
    assert_eq!(vault.get_reserve_idx_in_allocation(&named(1)), Some(0));
    assert_eq!(vault.get_reserve_idx_in_allocation(&named(2)), Some(1));
    assert_eq!(vault.get_reserve_idx_in_allocation(&named(3)), None);
    assert!(vault.is_allocated_to_reserve(named(2)));
    assert!(!vault.is_allocated_to_reserve(named(3)));

    let slot = *vault.allocation_for_reserve(&named(1)).unwrap();
    assert_eq!(slot.target_allocation_weight, 20);
    assert_eq!(slot.token_allocation_cap, 200);
    // What identifies the reserve's collateral vault stays as first given.
    assert_eq!(slot.ctoken_vault, named(11));
    assert_eq!(slot.ctoken_vault_bump, 3);
    assert_eq!(
        vault.allocation_for_reserve(&named(3)).unwrap_err(),
        KaminoVaultError::ReserveNotPartOfAllocations
    );

    vault.set_allocation_last_invest_slot(&named(2), 42).unwrap();
    assert_eq!(vault.vault_allocation_strategy[1].last_invest_slot, 42);
    assert_eq!(
        vault.set_allocation_last_invest_slot(&named(3), 42),
        Err(KaminoVaultError::ReserveNotPartOfAllocations)
    );

    vault.get_reserve_allocation_mut(1).unwrap().ctoken_allocation = 5;
    assert_eq!(vault.vault_allocation_strategy[1].ctoken_allocation, 5);
    assert_eq!(
        vault.get_reserve_allocation_mut(MAX_RESERVES).unwrap_err(),
        KaminoVaultError::OutOfRangeOfReserveIndex
    );
}

#[test]
fn reserves_leave_the_table_only_when_empty() {
    let mut vault = VaultState::default();
    vault.upsert_reserve_allocation(named(1), named(11), 3, 10, 100).unwrap();
    assert_eq!(
        vault.remove_reserve_from_allocation(&named(1)),
        Err(KaminoVaultError::ReserveHasNonZeroAllocationOrCTokens)
    );
    vault.upsert_reserve_allocation(named(1), named(11), 3, 0, 100).unwrap();
    vault.vault_allocation_strategy[0].ctoken_allocation = 1;
    assert!(!vault.vault_allocation_strategy[0].can_be_removed());
    assert_eq!(
        vault.remove_reserve_from_allocation(&named(1)),
        Err(KaminoVaultError::ReserveHasNonZeroAllocationOrCTokens)
    );
    vault.vault_allocation_strategy[0].ctoken_allocation = 0;
    assert!(vault.vault_allocation_strategy[0].can_be_removed());
    vault.remove_reserve_from_allocation(&named(1)).unwrap();
    assert_eq!(vault.vault_allocation_strategy[0], VaultAllocation::default());
    assert_eq!(vault.vault_allocation_strategy[0].token_allocation_cap, u64::MAX);
    assert_eq!(
        vault.remove_reserve_from_allocation(&named(1)),
        Err(KaminoVaultError::ReserveNotPartOfAllocations)
    );
}

#[test]
fn the_table_holds_twenty_five_reserves() {
    let mut vault = VaultState::default();
    for n in 1..=25u8 {
        vault.upsert_reserve_allocation(named(n), named(100 + n), 0, 1, 1).unwrap();
    }
    assert_eq!(vault.get_reserves_count(), 25);
    let before = vault;
    assert_eq!(
        vault.upsert_reserve_allocation(named(26), named(126), 0, 1, 1),
        Err(KaminoVaultError::ReserveSpaceExhausted)
    );
    assert_eq!(vault, before);
    vault.upsert_reserve_allocation(named(25), named(125), 0, 7, 8).unwrap();
    assert_eq!(vault.vault_allocation_strategy[24].target_allocation_weight, 7);

    vault.upsert_reserve_allocation(named(3), named(103), 0, 0, 1).unwrap();
    vault.remove_reserve_from_allocation(&named(3)).unwrap();
    vault.upsert_reserve_allocation(named(26), named(126), 0, 1, 1).unwrap();
    assert_eq!(vault.get_reserve_idx_in_allocation(&named(26)), Some(2));
}

#[test]
fn fee_state_is_read_and_written_as_fractions() {
    let mut vault = VaultState::default();
    vault.set_pending_fees(kvault::fraction::Fraction::from_u64(3));
    vault.set_prev_aum(kvault::fraction::Fraction::from_u64(4));
    vault.set_cumulative_earned_interest(kvault::fraction::Fraction::from_u64(5));
    vault.set_cumulative_mgmt_fees(kvault::fraction::Fraction::from_u64(6));
    vault.set_cumulative_perf_fees(kvault::fraction::Fraction::from_u64(7));
    assert_eq!(vault.pending_fees_sf, 3 << 60);
    assert_eq!(vault.get_pending_fees().to_floor(), Some(3));
    assert_eq!(vault.get_prev_aum().to_floor(), Some(4));
    assert_eq!(vault.get_cumulative_earned_interest().to_floor(), Some(5));
    assert_eq!(vault.get_cumulative_mgmt_fees().to_floor(), Some(6));
    assert_eq!(vault.get_cumulative_perf_fees().to_floor(), Some(7));

    vault.token_available = 10;
    assert_eq!(
        vault.compute_aum(&kvault::fraction::Fraction::from_u64(2)),
        Ok(kvault::fraction::Fraction::from_u64(9))
    );
    assert_eq!(
        vault.compute_aum(&kvault::fraction::Fraction::from_bits(u128::MAX)),
        Err(KaminoVaultError::MathOverflow)
    );
    vault.set_pending_fees(kvault::fraction::Fraction::from_u64(13));
    assert_eq!(
        vault.compute_aum(&kvault::fraction::Fraction::from_u64(2)),
        Err(KaminoVaultError::AUMBelowPendingFees)
    );

    let mut slot = VaultAllocation::default();
    slot.set_token_target_allocation(kvault::fraction::Fraction::from_u64(8));
    slot.set_last_invest_slot(9);
    assert_eq!(slot.get_token_target_allocation().to_floor(), Some(8));
    assert_eq!(slot.last_invest_slot, 9);
}
