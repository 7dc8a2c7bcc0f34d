//! Changes to a vault's configuration, one field at a time. The new value
//! arrives as bytes in the encoding of the field's type.
use crate::error::KaminoVaultError;
use crate::fraction::FULL_BPS;
use crate::operations::vault_operations::common::{holdings, holdings_error};
use crate::operations::vault_operations::string_utils::{padded_to_40, slice_to_array_padded};
use crate::operations::vault_operations::{charge_fees, charge_fees_spec, invested_total};
use crate::reserve::ReserveSnapshot;
use crate::pubkey::Pubkey;
use crate::state::VaultState;
use crate::utils::consts::{
    MAX_MGMT_FEE_BPS, MAX_WITHDRAWAL_PENALTY_BPS, MAX_WITHDRAWAL_PENALTY_LAMPORTS,
    UPPER_LIMIT_MIN_WITHDRAW_AMOUNT,
};
use vstd::prelude::*;

verus! {

#[derive(Clone, Copy, Debug, PartialEq, Eq, Structural)]
pub enum VaultConfigField {
    PerformanceFeeBps,
    ManagementFeeBps,
    MinDepositAmount,
    MinWithdrawAmount,
    MinInvestAmount,
    MinInvestDelaySlots,
    CrankFundFeePerReserve,
    PendingVaultAdmin,
    Name,
    LookupTable,
    Farm,
    AllocationAdmin,
    UnallocatedWeight,
    UnallocatedTokensCap,
    WithdrawalPenaltyLamports,
    WithdrawalPenaltyBps,
    FirstLossCapitalFarm,
    AllowAllocationsInWhitelistedReservesOnly,
    AllowInvestInWhitelistedReservesOnly,
}

/// `std::io::Error`, the error of a failed decoding. Nothing is known of its
/// contents; it is only ever replaced by `MalformedConfigValue`.
#[verifier::external_type_specification]
#[verifier::external_body]
pub struct ExIoError(std::io::Error);

/// The number that eight bytes stand for, least significant byte first.
pub open spec fn le_u64(bytes: Seq<u8>) -> int {
    bytes[0] + bytes[1] * 0x100 + bytes[2] * 0x1_0000 + bytes[3] * 0x100_0000 + bytes[4]
        * 0x1_0000_0000 + bytes[5] * 0x100_0000_0000 + bytes[6] * 0x1_0000_0000_0000 + bytes[7]
        * 0x100_0000_0000_0000
}

/// `borsh::BorshDeserialize::try_from_slice` for `u64`.
///
/// The crate reads eight bytes as a little-endian number and fails when the
/// input is shorter or when bytes are left over.
#[verifier::external_body]
fn borsh_decode_u64(data: &[u8]) -> (r: Result<u64, std::io::Error>)
    ensures
        r is Ok <==> data@.len() == 8,
        r matches Ok(value) ==> value == le_u64(data@),
{
    borsh::BorshDeserialize::try_from_slice(data)
}

/// `borsh::BorshDeserialize::try_from_slice` for `u8`.
///
/// The crate reads one byte and fails when the input is empty or when bytes
/// are left over.
#[verifier::external_body]
fn borsh_decode_u8(data: &[u8]) -> (r: Result<u8, std::io::Error>)
    ensures
        r is Ok <==> data@.len() == 1,
        r matches Ok(value) ==> value == data@[0],
{
    borsh::BorshDeserialize::try_from_slice(data)
}

/// `borsh::BorshDeserialize::try_from_slice` for `[u8; 32]`, the encoding of a key.
///
/// The crate copies thirty-two bytes and fails when the input is shorter or
/// when bytes are left over.
#[verifier::external_body]
fn borsh_decode_key_bytes(data: &[u8]) -> (r: Result<[u8; 32], std::io::Error>)
    ensures
        r is Ok <==> data@.len() == 32,
        r matches Ok(bytes) ==> bytes@ == data@,
{
    borsh::BorshDeserialize::try_from_slice(data)
}

/// The 64-bit number that `data` encodes, if it encodes one.
pub open spec fn decode_u64_spec(data: Seq<u8>) -> Option<u64> {
    if data.len() == 8 {
        Some(le_u64(data) as u64)
    } else {
        None
    }
}

/// The byte that `data` encodes, if it encodes one.
pub open spec fn decode_u8_spec(data: Seq<u8>) -> Option<u8> {
    if data.len() == 1 {
        Some(data[0])
    } else {
        None
    }
}

/// Whether `data` encodes `key`.
pub open spec fn encodes_key(data: Seq<u8>, key: Pubkey) -> bool {
    data.len() == 32 && key.bytes@ == data
}

/// Decodes a number, or reports the payload as malformed.
fn decode_u64(data: &[u8]) -> (r: Result<u64, KaminoVaultError>)
    ensures
        r == (match decode_u64_spec(data@) {
            Some(value) => Ok::<u64, KaminoVaultError>(value),
            None => Err(KaminoVaultError::MalformedConfigValue),
        }),
{
    match borsh_decode_u64(data) {
        Ok(value) => Ok(value),
        Err(_) => Err(KaminoVaultError::MalformedConfigValue),
    }
}

/// Decodes a byte, or reports the payload as malformed.
fn decode_u8(data: &[u8]) -> (r: Result<u8, KaminoVaultError>)
    ensures
        r == (match decode_u8_spec(data@) {
            Some(value) => Ok::<u8, KaminoVaultError>(value),
            None => Err(KaminoVaultError::MalformedConfigValue),
        }),
{
    match borsh_decode_u8(data) {
        Ok(value) => Ok(value),
        Err(_) => Err(KaminoVaultError::MalformedConfigValue),
    }
}

/// Decodes a key, or reports the payload as malformed.
fn decode_key(data: &[u8]) -> (r: Result<Pubkey, KaminoVaultError>)
    ensures
        match r {
            Ok(key) => encodes_key(data@, key),
            Err(e) => e == KaminoVaultError::MalformedConfigValue && data@.len() != 32,
        },
{
    match borsh_decode_key_bytes(data) {
        Ok(bytes) => Ok(Pubkey::new_from_array(bytes)),
        Err(_) => Err(KaminoVaultError::MalformedConfigValue),
    }
}

/// Whether `entry` is one of the two whitelist-only switches.
pub open spec fn is_whitelist_switch(entry: VaultConfigField) -> bool {
    entry is AllowAllocationsInWhitelistedReservesOnly
        || entry is AllowInvestInWhitelistedReservesOnly
}

/// Outcome of `check_if_signer_allowed_to_update_vault_config`.
pub open spec fn signer_allowed_spec(
    entry: VaultConfigField,
    data: Seq<u8>,
    is_global_admin: bool,
    is_vault_admin: bool,
) -> Result<(), KaminoVaultError> {
    if is_whitelist_switch(entry) {
        match decode_u8_spec(data) {
            None => Err(KaminoVaultError::MalformedConfigValue),
            Some(value) => if value == 0 {
                if is_global_admin {
                    Ok(())
                } else {
                    Err(KaminoVaultError::AdminAuthorityIncorrect)
                }
            } else if value == 1 {
                if is_global_admin || is_vault_admin {
                    Ok(())
                } else {
                    Err(KaminoVaultError::AdminAuthorityIncorrect)
                }
            } else {
                Err(KaminoVaultError::InvalidBoolLikeValue)
            },
        }
    } else if is_vault_admin {
        Ok(())
    } else {
        Err(KaminoVaultError::AdminAuthorityIncorrect)
    }
}

/// Decides whether the signer may make the change.
///
/// A whitelist-only switch may be turned on by the global admin or the vault
/// admin, and turned off by the global admin alone. Every other field is the
/// vault admin's.
pub fn check_if_signer_allowed_to_update_vault_config(
    entry: &VaultConfigField,
    data: &[u8],
    is_global_admin: bool,
    is_vault_admin: bool,
) -> (r: Result<(), KaminoVaultError>)
    ensures
        r == signer_allowed_spec(*entry, data@, is_global_admin, is_vault_admin),
{
    match entry {
        VaultConfigField::AllowAllocationsInWhitelistedReservesOnly
        | VaultConfigField::AllowInvestInWhitelistedReservesOnly => {
            let value: u8 = match decode_u8(data) {
                Ok(value) => value,
                Err(e) => {
                    return Err(e);
                },
            };
            if value == 0 {
                if !is_global_admin {
                    return Err(KaminoVaultError::AdminAuthorityIncorrect);
                }
            } else if value == 1 {
                if !(is_global_admin || is_vault_admin) {
                    return Err(KaminoVaultError::AdminAuthorityIncorrect);
                }
            } else {
                return Err(KaminoVaultError::InvalidBoolLikeValue);
            }
        },
        _ => {
            // Every other field is the vault admin's.
            if !is_vault_admin {
                return Err(KaminoVaultError::AdminAuthorityIncorrect);
            }
        },
    }
    Ok(())
}

/// The ledger after a numeric field is set to `value`, or the limit that
/// `value` exceeds.
pub open spec fn with_number(vault: VaultState, entry: VaultConfigField, value: u64) -> Result<
    VaultState,
    KaminoVaultError,
> {
    match entry {
        VaultConfigField::PerformanceFeeBps => if value > 10_000 {
            Err(KaminoVaultError::BPSValueTooBig)
        } else {
            Ok(VaultState { performance_fee_bps: value, ..vault })
        },
        VaultConfigField::ManagementFeeBps => if value > 1000 {
            Err(KaminoVaultError::ManagementFeeGreaterThanMaxAllowed)
        } else {
            Ok(VaultState { management_fee_bps: value, ..vault })
        },
        VaultConfigField::MinDepositAmount => Ok(VaultState { min_deposit_amount: value, ..vault }),
        VaultConfigField::MinWithdrawAmount => if value > 1000 {
            Err(KaminoVaultError::MinWithdrawAmountTooBig)
        } else {
            Ok(VaultState { min_withdraw_amount: value, ..vault })
        },
        VaultConfigField::MinInvestAmount => Ok(VaultState { min_invest_amount: value, ..vault }),
        VaultConfigField::MinInvestDelaySlots => Ok(
            VaultState { min_invest_delay_slots: value, ..vault },
        ),
        VaultConfigField::CrankFundFeePerReserve => Ok(
            VaultState { crank_fund_fee_per_reserve: value, ..vault },
        ),
        VaultConfigField::UnallocatedWeight => Ok(VaultState { unallocated_weight: value, ..vault }),
        VaultConfigField::UnallocatedTokensCap => Ok(
            VaultState { unallocated_tokens_cap: value, ..vault },
        ),
        VaultConfigField::WithdrawalPenaltyLamports => if value > 10_000 {
            Err(KaminoVaultError::WithdrawalFeeLamportsGreaterThanMaxAllowed)
        } else {
            Ok(VaultState { withdrawal_penalty_lamports: value, ..vault })
        },
        VaultConfigField::WithdrawalPenaltyBps => if value > 1000 {
            Err(KaminoVaultError::WithdrawalFeeBPSGreaterThanMaxAllowed)
        } else {
            Ok(VaultState { withdrawal_penalty_bps: value, ..vault })
        },
        _ => Ok(vault),
    }
}

/// The ledger after a key field is set to `key`.
pub open spec fn with_key(vault: VaultState, entry: VaultConfigField, key: Pubkey) -> VaultState {
    match entry {
        VaultConfigField::PendingVaultAdmin => VaultState { pending_admin: key, ..vault },
        VaultConfigField::LookupTable => VaultState { vault_lookup_table: key, ..vault },
        VaultConfigField::Farm => VaultState { vault_farm: key, ..vault },
        VaultConfigField::FirstLossCapitalFarm => VaultState {
            first_loss_capital_farm: key,
            ..vault
        },
        VaultConfigField::AllocationAdmin => VaultState { allocation_admin: key, ..vault },
        _ => vault,
    }
}

/// The ledger after a switch is set to `value`.
pub open spec fn with_switch(vault: VaultState, entry: VaultConfigField, value: u8) -> VaultState {
    match entry {
        VaultConfigField::AllowAllocationsInWhitelistedReservesOnly => VaultState {
            allow_allocations_in_whitelisted_reserves_only: value,
            ..vault
        },
        VaultConfigField::AllowInvestInWhitelistedReservesOnly => VaultState {
            allow_invest_in_whitelisted_reserves_only: value,
            ..vault
        },
        _ => vault,
    }
}

/// Whether `entry` holds a 64-bit number.
pub open spec fn is_number_field(entry: VaultConfigField) -> bool {
    match entry {
        VaultConfigField::PerformanceFeeBps
        | VaultConfigField::ManagementFeeBps
        | VaultConfigField::MinDepositAmount
        | VaultConfigField::MinWithdrawAmount
        | VaultConfigField::MinInvestAmount
        | VaultConfigField::MinInvestDelaySlots
        | VaultConfigField::CrankFundFeePerReserve
        | VaultConfigField::UnallocatedWeight
        | VaultConfigField::UnallocatedTokensCap
        | VaultConfigField::WithdrawalPenaltyLamports
        | VaultConfigField::WithdrawalPenaltyBps => true,
        _ => false,
    }
}

/// Whether `entry` holds a key.
pub open spec fn is_key_field(entry: VaultConfigField) -> bool {
    match entry {
        VaultConfigField::PendingVaultAdmin
        | VaultConfigField::LookupTable
        | VaultConfigField::Farm
        | VaultConfigField::FirstLossCapitalFarm
        | VaultConfigField::AllocationAdmin => true,
        _ => false,
    }
}

/// `after` is what `update_vault_config` makes of `before`, or `before` itself
/// when `r` is an error.
pub open spec fn config_updated(
    before: VaultState,
    after: VaultState,
    entry: VaultConfigField,
    data: Seq<u8>,
    r: Result<(), KaminoVaultError>,
) -> bool {
    if is_number_field(entry) {
        match decode_u64_spec(data) {
            None => r == Err::<(), KaminoVaultError>(KaminoVaultError::MalformedConfigValue)
                && after == before,
            Some(value) => match with_number(before, entry, value) {
                Ok(next) => r is Ok && after == next,
                Err(e) => r == Err::<(), KaminoVaultError>(e) && after == before,
            },
        }
    } else if is_key_field(entry) {
        if data.len() == 32 {
            r is Ok && exists|key: Pubkey| encodes_key(data, key) && after == with_key(
                before,
                entry,
                key,
            )
        } else {
            r == Err::<(), KaminoVaultError>(KaminoVaultError::MalformedConfigValue) && after
                == before
        }
    } else if entry is Name {
        r is Ok && after.name@ == padded_to_40(data) && after == (VaultState {
            name: after.name,
            ..before
        })
    } else {
        match decode_u8_spec(data) {
            None => r == Err::<(), KaminoVaultError>(KaminoVaultError::MalformedConfigValue)
                && after == before,
            Some(value) => r is Ok && after == with_switch(before, entry, value),
        }
    }
}

/// Sets one field of the configuration from its encoded value.
///
/// Numbers are eight bytes, least significant first; keys are their
/// thirty-two bytes; switches are one byte; the name is taken as it is, cut or
/// zero-filled to forty bytes. Fails, changing nothing, with
/// `MalformedConfigValue` when `data` is not such an encoding, and with the
/// field's own error when the value exceeds the field's limit: a performance
/// fee above 10000 bps, a management fee above 1000 bps, a minimum withdrawal
/// above 1000, a withdrawal penalty above 10000 lamports or 1000 bps.
pub fn update_vault_config(vault: &mut VaultState, entry: VaultConfigField, data: &[u8]) -> (r:
    Result<(), KaminoVaultError>)
    ensures
        config_updated(*old(vault), *final(vault), entry, data@, r),
        old(vault).wf() ==> final(vault).wf(),
{
    match entry {
        VaultConfigField::PerformanceFeeBps => {
            let performance_fee_bps: u64 = match decode_u64(data) {
                Ok(value) => value,
                Err(e) => {
                    return Err(e);
                },
            };
            if performance_fee_bps > FULL_BPS {
                return Err(KaminoVaultError::BPSValueTooBig);
            }
            vault.performance_fee_bps = performance_fee_bps;
        },
        VaultConfigField::ManagementFeeBps => {
            let management_fee_bps: u64 = match decode_u64(data) {
                Ok(value) => value,
                Err(e) => {
                    return Err(e);
                },
            };
            if management_fee_bps > MAX_MGMT_FEE_BPS {
                return Err(KaminoVaultError::ManagementFeeGreaterThanMaxAllowed);
            }
            vault.management_fee_bps = management_fee_bps;
        },
        VaultConfigField::MinDepositAmount => {
            let min_deposit_amount: u64 = match decode_u64(data) {
                Ok(value) => value,
                Err(e) => {
                    return Err(e);
                },
            };
            vault.min_deposit_amount = min_deposit_amount;
        },
        VaultConfigField::MinWithdrawAmount => {
            let min_withdraw_amount: u64 = match decode_u64(data) {
                Ok(value) => value,
                Err(e) => {
                    return Err(e);
                },
            };
            if min_withdraw_amount > UPPER_LIMIT_MIN_WITHDRAW_AMOUNT {
                return Err(KaminoVaultError::MinWithdrawAmountTooBig);
            }
            vault.min_withdraw_amount = min_withdraw_amount;
        },
        VaultConfigField::MinInvestAmount => {
            let min_invest_amount: u64 = match decode_u64(data) {
                Ok(value) => value,
                Err(e) => {
                    return Err(e);
                },
            };
            vault.min_invest_amount = min_invest_amount;
        },
        VaultConfigField::MinInvestDelaySlots => {
            let min_invest_delay_slots: u64 = match decode_u64(data) {
                Ok(value) => value,
                Err(e) => {
                    return Err(e);
                },
            };
            vault.min_invest_delay_slots = min_invest_delay_slots;
        },
        VaultConfigField::CrankFundFeePerReserve => {
            let crank_fund_fee_per_reserve: u64 = match decode_u64(data) {
                Ok(value) => value,
                Err(e) => {
                    return Err(e);
                },
            };
            vault.crank_fund_fee_per_reserve = crank_fund_fee_per_reserve;
        },
        VaultConfigField::PendingVaultAdmin => {
            let pubkey = match decode_key(data) {
                Ok(key) => key,
                Err(e) => {
                    return Err(e);
                },
            };
            vault.pending_admin = pubkey;
        },
        VaultConfigField::Name => {
            vault.name = slice_to_array_padded(data);
        },
        VaultConfigField::LookupTable => {
            let pubkey = match decode_key(data) {
                Ok(key) => key,
                Err(e) => {
                    return Err(e);
                },
            };
            vault.vault_lookup_table = pubkey;
        },
        VaultConfigField::Farm => {
            let pubkey = match decode_key(data) {
                Ok(key) => key,
                Err(e) => {
                    return Err(e);
                },
            };
            vault.vault_farm = pubkey;
        },
        VaultConfigField::FirstLossCapitalFarm => {
            let pubkey = match decode_key(data) {
                Ok(key) => key,
                Err(e) => {
                    return Err(e);
                },
            };
            vault.first_loss_capital_farm = pubkey;
        },
        VaultConfigField::AllocationAdmin => {
            let pubkey = match decode_key(data) {
                Ok(key) => key,
                Err(e) => {
                    return Err(e);
                },
            };
            vault.allocation_admin = pubkey;
        },
        VaultConfigField::UnallocatedWeight => {
            let unallocated_weight: u64 = match decode_u64(data) {
                Ok(value) => value,
                Err(e) => {
                    return Err(e);
                },
            };
            vault.unallocated_weight = unallocated_weight;
        },
        VaultConfigField::UnallocatedTokensCap => {
            let unallocated_tokens_cap: u64 = match decode_u64(data) {
                Ok(value) => value,
                Err(e) => {
                    return Err(e);
                },
            };
            vault.unallocated_tokens_cap = unallocated_tokens_cap;
        },
        VaultConfigField::WithdrawalPenaltyLamports => {
            let withdrawal_penalty_lamports: u64 = match decode_u64(data) {
                Ok(value) => value,
                Err(e) => {
                    return Err(e);
                },
            };
            if withdrawal_penalty_lamports > MAX_WITHDRAWAL_PENALTY_LAMPORTS {
                return Err(KaminoVaultError::WithdrawalFeeLamportsGreaterThanMaxAllowed);
            }
            vault.withdrawal_penalty_lamports = withdrawal_penalty_lamports;
        },
        VaultConfigField::WithdrawalPenaltyBps => {
            let withdrawal_penalty_bps: u64 = match decode_u64(data) {
                Ok(value) => value,
                Err(e) => {
                    return Err(e);
                },
            };
            if withdrawal_penalty_bps > MAX_WITHDRAWAL_PENALTY_BPS {
                return Err(KaminoVaultError::WithdrawalFeeBPSGreaterThanMaxAllowed);
            }
            vault.withdrawal_penalty_bps = withdrawal_penalty_bps;
        },
        VaultConfigField::AllowAllocationsInWhitelistedReservesOnly => {
            let value: u8 = match decode_u8(data) {
                Ok(value) => value,
                Err(e) => {
                    return Err(e);
                },
            };
            vault.allow_allocations_in_whitelisted_reserves_only = value;
        },
        VaultConfigField::AllowInvestInWhitelistedReservesOnly => {
            let value: u8 = match decode_u8(data) {
                Ok(value) => value,
                Err(e) => {
                    return Err(e);
                },
            };
            vault.allow_invest_in_whitelisted_reserves_only = value;
        },
    }
    Ok(())
}

/// Changes one field of the configuration at `current_timestamp`.
///
/// Fees are charged first, at the rates in force until now, so that a change
/// of rates never reaches back; then the field is set as by
/// `update_vault_config`. Fails, changing nothing, as the holdings, the fees
/// or the change itself fail.
pub fn update_config(
    vault: &mut VaultState,
    reserves: &[ReserveSnapshot],
    entry: VaultConfigField,
    data: &[u8],
    current_timestamp: u64,
) -> (r: Result<(), KaminoVaultError>)
    ensures
        match holdings_error(*old(vault), reserves@) {
            Some(e) => r == Err::<(), KaminoVaultError>(e) && *final(vault) == *old(vault),
            None => match charge_fees_spec(
                *old(vault),
                invested_total(*old(vault), reserves@),
                current_timestamp,
            ) {
                Err(e) => r == Err::<(), KaminoVaultError>(e) && *final(vault) == *old(vault),
                Ok(after_fees) => if r is Ok {
                    config_updated(after_fees, *final(vault), entry, data@, r)
                } else {
                    config_updated(after_fees, after_fees, entry, data@, r) && *final(vault)
                        == *old(vault)
                },
            },
        },
        old(vault).wf() ==> final(vault).wf(),
{
    let holdings = match holdings(vault, reserves) {
        Ok(holdings) => holdings,
        Err(e) => {
            return Err(e);
        },
    };
    let mut next = *vault;
    match charge_fees(&mut next, &holdings.invested, current_timestamp) {
        Ok(()) => {},
        Err(e) => {
            return Err(e);
        },
    }
    match update_vault_config(&mut next, entry, data) {
        Ok(()) => {
            *vault = next;
            Ok(())
        },
        Err(e) => Err(e),
    }
}

} // verus!
