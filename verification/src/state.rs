//! The vault's ledger: balances, fee state, configuration and the allocation table.
use crate::error::KaminoVaultError;
use crate::fraction::{scale, Fraction};
use crate::pubkey::Pubkey;
use vstd::prelude::*;

pub mod proportions;
pub mod target_allocations;

verus! {

/// Number of slots in a vault's allocation table.
pub const MAX_RESERVES: usize = 25;

/// One slot of the allocation table. A slot whose `reserve` is the all-zero key
/// is vacant.
#[derive(Clone, Copy, Debug, PartialEq, Eq)]
pub struct VaultAllocation {
    pub reserve: Pubkey,
    /// Where the vault keeps the reserve's collateral.
    pub ctoken_vault: Pubkey,
    pub target_allocation_weight: u64,
    /// Maximum token invested in this reserve.
    pub token_allocation_cap: u64,
    pub ctoken_vault_bump: u64,
    /// Collateral units of the reserve that the vault holds.
    pub ctoken_allocation: u64,
    pub last_invest_slot: u64,
    /// What the reserve should hold, as of the last refresh of targets.
    pub token_target_allocation_sf: u128,
}

/// The ledger of one vault.
///
/// `_sf` fields hold fixed-point amounts as their bit patterns; see
/// [`Fraction`].
#[derive(Clone, Copy, Debug, PartialEq, Eq)]
pub struct VaultState {
    pub vault_admin_authority: Pubkey,
    pub base_vault_authority: Pubkey,
    pub base_vault_authority_bump: u64,
    pub token_mint: Pubkey,
    pub token_mint_decimals: u64,
    pub token_vault: Pubkey,
    pub token_program: Pubkey,
    pub shares_mint: Pubkey,
    pub shares_mint_decimals: u64,
    /// Idle tokens, held by the vault itself.
    pub token_available: u64,
    pub shares_issued: u64,
    /// Tokens set aside by depositors to pay for rebalancing.
    pub available_crank_funds: u64,
    /// Weight of the part of the vault's value that is to stay idle.
    pub unallocated_weight: u64,
    pub performance_fee_bps: u64,
    pub management_fee_bps: u64,
    /// Time of the last fee charge in seconds; 0 until the first.
    pub last_fee_charge_timestamp: u64,
    /// The vault's value after the last fee charge, from which growth is measured.
    pub prev_aum_sf: u128,
    /// Fees charged and not yet paid out.
    pub pending_fees_sf: u128,
    pub vault_allocation_strategy: [VaultAllocation; 25],
    pub min_deposit_amount: u64,
    pub min_withdraw_amount: u64,
    pub min_invest_amount: u64,
    pub min_invest_delay_slots: u64,
    pub crank_fund_fee_per_reserve: u64,
    pub pending_admin: Pubkey,
    /// Raw total interest earned by the vault, fees included.
    pub cumulative_earned_interest_sf: u128,
    pub cumulative_mgmt_fees_sf: u128,
    pub cumulative_perf_fees_sf: u128,
    pub name: [u8; 40],
    pub vault_lookup_table: Pubkey,
    pub vault_farm: Pubkey,
    pub creation_timestamp: u64,
    /// Most that may stay uninvested when targets are computed; 0 means no limit.
    pub unallocated_tokens_cap: u64,
    pub allocation_admin: Pubkey,
    pub withdrawal_penalty_lamports: u64,
    pub withdrawal_penalty_bps: u64,
    pub first_loss_capital_farm: Pubkey,
    pub allow_allocations_in_whitelisted_reserves_only: u8,
    pub allow_invest_in_whitelisted_reserves_only: u8,
}

/// What the protocol records about a reserve that vaults may be restricted to.
#[derive(Clone, Copy, Debug, PartialEq, Eq)]
pub struct ReserveWhitelistEntry {
    pub token_mint: Pubkey,
    pub reserve: Pubkey,
    pub whitelist_add_allocation: u8,
    pub whitelist_invest: u8,
}

impl ReserveWhitelistEntry {
    pub fn is_add_allocation_whitelisted(&self) -> (r: bool)
        ensures
            r == (self.whitelist_add_allocation != 0),
    {
        self.whitelist_add_allocation != 0
    }

    pub fn is_invest_whitelisted(&self) -> (r: bool)
        ensures
            r == (self.whitelist_invest != 0),
    {
        self.whitelist_invest != 0
    }
}

/// Number of occupied slots among the first `n`.
pub open spec fn count_live(allocs: Seq<VaultAllocation>, n: int) -> int
    decreases n,
{
    if n <= 0 {
        0
    } else {
        count_live(allocs, n - 1) + (if allocs[n - 1].is_live() {
            1int
        } else {
            0int
        })
    }
}

/// Number of slots among the first `n` that crank funds are collected for.
pub open spec fn count_funded(allocs: Seq<VaultAllocation>, n: int) -> int
    decreases n,
{
    if n <= 0 {
        0
    } else {
        count_funded(allocs, n - 1) + (if allocs[n - 1].is_funded() {
            1int
        } else {
            0int
        })
    }
}

/// The first slot at or after `from` that holds `reserve`.
pub open spec fn index_of(allocs: Seq<VaultAllocation>, reserve: Pubkey, from: int) -> Option<int>
    decreases allocs.len() - from,
{
    if from < 0 || from >= allocs.len() {
        None
    } else if allocs[from].reserve == reserve {
        Some(from)
    } else {
        index_of(allocs, reserve, from + 1)
    }
}

/// What `index_of` finds is an occupied position holding the key, and the first such.
pub proof fn lemma_index_of(allocs: Seq<VaultAllocation>, reserve: Pubkey, from: int)
    requires
        0 <= from,
    ensures
        match index_of(allocs, reserve, from) {
            Some(i) => from <= i < allocs.len() && allocs[i].reserve == reserve && forall|j: int|
                from <= j < i ==> allocs[j].reserve != reserve,
            None => forall|j: int| from <= j < allocs.len() ==> allocs[j].reserve != reserve,
        },
    decreases allocs.len() - from,
{
    if from < allocs.len() && allocs[from].reserve != reserve {
        lemma_index_of(allocs, reserve, from + 1);
    }
}

/// The first vacant slot at or after `from`.
pub open spec fn first_vacant(allocs: Seq<VaultAllocation>, from: int) -> Option<int>
    decreases allocs.len() - from,
{
    if from < 0 || from >= allocs.len() {
        None
    } else if !allocs[from].is_live() {
        Some(from)
    } else {
        first_vacant(allocs, from + 1)
    }
}

/// The table after `reserve` is given a weight and a cap: its slot is updated
/// if it has one, else the first vacant slot is taken; `None` when the table
/// is full.
pub open spec fn upsert_spec(
    allocs: Seq<VaultAllocation>,
    reserve: Pubkey,
    ctoken_vault: Pubkey,
    ctoken_vault_bump: u64,
    target_allocation_weight: u64,
    allocation_cap: u64,
) -> Option<Seq<VaultAllocation>> {
    match index_of(allocs, reserve, 0) {
        Some(i) => Some(
            allocs.update(
                i,
                VaultAllocation {
                    target_allocation_weight,
                    token_allocation_cap: allocation_cap,
                    ..allocs[i]
                },
            ),
        ),
        None => match first_vacant(allocs, 0) {
            Some(k) => Some(
                allocs.update(
                    k,
                    VaultAllocation {
                        reserve,
                        ctoken_vault,
                        target_allocation_weight,
                        ctoken_allocation: 0,
                        token_target_allocation_sf: 0,
                        token_allocation_cap: allocation_cap,
                        last_invest_slot: 0,
                        ctoken_vault_bump,
                    },
                ),
            ),
            None => None,
        },
    }
}

/// No two occupied slots hold the same reserve.
pub open spec fn live_reserves_unique(allocs: Seq<VaultAllocation>) -> bool {
    forall|i: int, j: int|
        0 <= i < j < allocs.len() && allocs[i].is_live() && allocs[j].is_live()
            ==> allocs[i].reserve != allocs[j].reserve
}

impl VaultAllocation {
    /// The slot holds a reserve.
    pub open spec fn is_live(self) -> bool {
        !self.reserve.is_default_spec()
    }

    /// The slot holds a reserve that deposits pay crank funds for.
    pub open spec fn is_funded(self) -> bool {
        self.is_live() && self.target_allocation_weight > 0 && self.token_allocation_cap > 0
    }

    /// The slot is as `default()` leaves it.
    pub open spec fn is_vacant_default(self) -> bool {
        &&& self.reserve.is_default_spec()
        &&& self.ctoken_vault.is_default_spec()
        &&& self.target_allocation_weight == 0
        &&& self.token_allocation_cap == u64::MAX
        &&& self.ctoken_vault_bump == 0
        &&& self.ctoken_allocation == 0
        &&& self.last_invest_slot == 0
        &&& self.token_target_allocation_sf == 0
    }

    pub fn get_token_target_allocation(&self) -> (r: Fraction)
        ensures
            r.bits == self.token_target_allocation_sf,
    {
        Fraction::from_bits(self.token_target_allocation_sf)
    }

    pub fn set_token_target_allocation(&mut self, token_target_allocation: Fraction)
        ensures
            *final(self) == (VaultAllocation {
                token_target_allocation_sf: token_target_allocation.bits,
                ..*old(self)
            }),
    {
        self.token_target_allocation_sf = token_target_allocation.to_bits();
    }

    /// A reserve may leave the table once nothing is held in it and nothing is
    /// to be placed in it.
    pub fn can_be_removed(&self) -> (r: bool)
        ensures
            r == (self.ctoken_allocation == 0 && self.target_allocation_weight == 0),
    {
        self.ctoken_allocation == 0 && self.target_allocation_weight == 0
    }

    pub fn set_last_invest_slot(&mut self, slot: u64)
        ensures
            *final(self) == (VaultAllocation { last_invest_slot: slot, ..*old(self) }),
    {
        self.last_invest_slot = slot;
    }
}

impl Default for VaultAllocation {
    fn default() -> (r: VaultAllocation)
        ensures
            r.is_vacant_default(),
    {
        VaultAllocation {
            reserve: Pubkey::default(),
            ctoken_vault: Pubkey::default(),
            target_allocation_weight: 0,
            ctoken_allocation: 0,
            token_target_allocation_sf: 0,
            token_allocation_cap: u64::MAX,
            last_invest_slot: 0,
            ctoken_vault_bump: 0,
        }
    }
}

impl VaultState {
    /// The allocation table as a sequence of slots.
    pub open spec fn allocations(self) -> Seq<VaultAllocation> {
        self.vault_allocation_strategy@
    }

    /// What holds of a ledger between operations: no reserve occupies two
    /// slots, and the configured rates and minimum are within their limits.
    pub open spec fn wf(self) -> bool {
        &&& live_reserves_unique(self.allocations())
        &&& self.performance_fee_bps <= 10_000
        &&& self.management_fee_bps <= 10_000
        &&& self.min_withdraw_amount <= 1000
    }

    /// Value under management when `invested_total` is placed in reserves:
    /// idle plus invested, less the fees owed.
    pub open spec fn compute_aum_spec(self, invested_total: Fraction) -> Result<
        Fraction,
        KaminoVaultError,
    > {
        let gross = self.token_available * scale() + invested_total.bits;
        if gross > u128::MAX {
            Err(KaminoVaultError::MathOverflow)
        } else if gross < self.pending_fees_sf {
            Err(KaminoVaultError::AUMBelowPendingFees)
        } else {
            Ok(Fraction { bits: (gross - self.pending_fees_sf) as u128 })
        }
    }

    /// The first requirement of `validate` that `self` misses, if any.
    pub open spec fn validate_spec(self) -> Result<(), KaminoVaultError> {
        if self.vault_admin_authority.is_default_spec() {
            Err(KaminoVaultError::AdminAuthorityIncorrect)
        } else if self.base_vault_authority.is_default_spec() {
            Err(KaminoVaultError::BaseVaultAuthorityIncorrect)
        } else if self.base_vault_authority_bump > u8::MAX {
            Err(KaminoVaultError::BaseVaultAuthorityBumpIncorrect)
        } else if self.token_mint.is_default_spec() {
            Err(KaminoVaultError::TokenMintIncorrect)
        } else if self.token_mint_decimals == 0 {
            Err(KaminoVaultError::TokenMintDecimalsIncorrect)
        } else if self.token_vault.is_default_spec() {
            Err(KaminoVaultError::TokenVaultIncorrect)
        } else if self.shares_mint.is_default_spec() {
            Err(KaminoVaultError::SharesMintIncorrect)
        } else if self.shares_mint_decimals == 0 {
            Err(KaminoVaultError::SharesMintDecimalsIncorrect)
        } else if self.token_available != 0 || self.shares_issued != 0 || self.performance_fee_bps
            != 0 || self.management_fee_bps != 0 || self.pending_fees_sf != 0
            || self.last_fee_charge_timestamp != 0 || self.prev_aum_sf != 0 {
            Err(KaminoVaultError::InitialAccountingIncorrect)
        } else {
            Ok(())
        }
    }

    pub fn get_pending_fees(&self) -> (r: Fraction)
        ensures
            r.bits == self.pending_fees_sf,
    {
        Fraction::from_bits(self.pending_fees_sf)
    }

    pub fn set_pending_fees(&mut self, pending_fees: Fraction)
        ensures
            *final(self) == (VaultState { pending_fees_sf: pending_fees.bits, ..*old(self) }),
    {
        self.pending_fees_sf = pending_fees.to_bits();
    }

    pub fn get_prev_aum(&self) -> (r: Fraction)
        ensures
            r.bits == self.prev_aum_sf,
    {
        Fraction::from_bits(self.prev_aum_sf)
    }

    pub fn set_prev_aum(&mut self, current_aum: Fraction)
        ensures
            *final(self) == (VaultState { prev_aum_sf: current_aum.bits, ..*old(self) }),
    {
        self.prev_aum_sf = current_aum.to_bits();
    }

    /// Number of reserves in the allocation table.
    pub fn get_reserves_count(&self) -> (r: usize)
        ensures
            r == count_live(self.allocations(), 25),
            r <= 25,
    {
        let mut count: usize = 0;
        let mut i: usize = 0;
        while i < MAX_RESERVES
            invariant
                i <= 25,
                count <= i,
                count == count_live(self.allocations(), i as int),
            decreases 25 - i,
        {
            if !self.vault_allocation_strategy[i].reserve.is_default() {
                count = count + 1;
            }
            i = i + 1;
        }
        count
    }

    /// Number of reserves that take part in allocation: occupied slots with a
    /// positive weight and a positive cap.
    pub fn get_reserves_with_allocation_count(&self) -> (r: usize)
        ensures
            r == count_funded(self.allocations(), 25),
            r <= 25,
    {
        let mut count: usize = 0;
        let mut i: usize = 0;
        while i < MAX_RESERVES
            invariant
                i <= 25,
                count <= i,
                count == count_funded(self.allocations(), i as int),
            decreases 25 - i,
        {
            let slot = &self.vault_allocation_strategy[i];
            if !slot.reserve.is_default() && slot.target_allocation_weight > 0
                && slot.token_allocation_cap > 0 {
                count = count + 1;
            }
            i = i + 1;
        }
        count
    }

    pub fn get_cumulative_earned_interest(&self) -> (r: Fraction)
        ensures
            r.bits == self.cumulative_earned_interest_sf,
    {
        Fraction::from_bits(self.cumulative_earned_interest_sf)
    }

    pub fn set_cumulative_earned_interest(&mut self, cumulative_earned_interest: Fraction)
        ensures
            *final(self) == (VaultState {
                cumulative_earned_interest_sf: cumulative_earned_interest.bits,
                ..*old(self)
            }),
    {
        self.cumulative_earned_interest_sf = cumulative_earned_interest.to_bits();
    }

    pub fn get_cumulative_mgmt_fees(&self) -> (r: Fraction)
        ensures
            r.bits == self.cumulative_mgmt_fees_sf,
    {
        Fraction::from_bits(self.cumulative_mgmt_fees_sf)
    }

    pub fn set_cumulative_mgmt_fees(&mut self, cumulative_mgmt_fees: Fraction)
        ensures
            *final(self) == (VaultState {
                cumulative_mgmt_fees_sf: cumulative_mgmt_fees.bits,
                ..*old(self)
            }),
    {
        self.cumulative_mgmt_fees_sf = cumulative_mgmt_fees.to_bits();
    }

    pub fn get_cumulative_perf_fees(&self) -> (r: Fraction)
        ensures
            r.bits == self.cumulative_perf_fees_sf,
    {
        Fraction::from_bits(self.cumulative_perf_fees_sf)
    }

    pub fn set_cumulative_perf_fees(&mut self, cumulative_perf_fees: Fraction)
        ensures
            *final(self) == (VaultState {
                cumulative_perf_fees_sf: cumulative_perf_fees.bits,
                ..*old(self)
            }),
    {
        self.cumulative_perf_fees_sf = cumulative_perf_fees.to_bits();
    }

    /// Value under management: idle plus invested, less the fees owed.
    ///
    /// Fails with `AUMBelowPendingFees` when the fees owed exceed what the
    /// vault holds, and with `MathOverflow` when the holdings themselves are
    /// not representable.
    pub fn compute_aum(&self, invested_total: &Fraction) -> (r: Result<Fraction, KaminoVaultError>)
        ensures
            r == self.compute_aum_spec(*invested_total),
    {
        let gross = match Fraction::from_u64(self.token_available).checked_add(*invested_total) {
            Some(gross) => gross,
            None => {
                return Err(KaminoVaultError::MathOverflow);
            },
        };
        match gross.checked_sub(self.get_pending_fees()) {
            Some(aum) => Ok(aum),
            None => Err(KaminoVaultError::AUMBelowPendingFees),
        }
    }

    /// Checks that a ledger is fit to start from: its identities are set, its
    /// decimals are positive and its accounting is still at zero.
    pub fn validate(&self) -> (r: Result<(), KaminoVaultError>)
        ensures
            r == self.validate_spec(),
    {
        if self.vault_admin_authority.is_default() {
            return Err(KaminoVaultError::AdminAuthorityIncorrect);
        }
        if self.base_vault_authority.is_default() {
            return Err(KaminoVaultError::BaseVaultAuthorityIncorrect);
        }
        if self.base_vault_authority_bump > 255 {
            return Err(KaminoVaultError::BaseVaultAuthorityBumpIncorrect);
        }
        if self.token_mint.is_default() {
            return Err(KaminoVaultError::TokenMintIncorrect);
        }
        if self.token_mint_decimals == 0 {
            return Err(KaminoVaultError::TokenMintDecimalsIncorrect);
        }
        if self.token_vault.is_default() {
            return Err(KaminoVaultError::TokenVaultIncorrect);
        }
        if self.shares_mint.is_default() {
            return Err(KaminoVaultError::SharesMintIncorrect);
        }
        if self.shares_mint_decimals == 0 {
            return Err(KaminoVaultError::SharesMintDecimalsIncorrect);
        }
        if self.token_available != 0 || self.shares_issued != 0 || self.performance_fee_bps != 0
            || self.management_fee_bps != 0 || self.pending_fees_sf != 0
            || self.last_fee_charge_timestamp != 0 || self.prev_aum_sf != 0 {
            return Err(KaminoVaultError::InitialAccountingIncorrect);
        }
        Ok(())
    }

    /// Position of `reserve` in the allocation table: the first slot holding it.
    pub fn get_reserve_idx_in_allocation(&self, reserve: &Pubkey) -> (r: Option<usize>)
        ensures
            match r {
                Some(i) => index_of(self.allocations(), *reserve, 0) == Some(i as int) && i < 25,
                None => index_of(self.allocations(), *reserve, 0) is None,
            },
    {
        let mut i: usize = 0;
        while i < MAX_RESERVES
            invariant
                i <= 25,
                index_of(self.allocations(), *reserve, 0) == index_of(
                    self.allocations(),
                    *reserve,
                    i as int,
                ),
            decreases 25 - i,
        {
            if self.vault_allocation_strategy[i].reserve == *reserve {
                return Some(i);
            }
            i = i + 1;
        }
        None
    }

    pub fn is_allocated_to_reserve(&self, reserve: Pubkey) -> (r: bool)
        ensures
            r == index_of(self.allocations(), reserve, 0).is_some(),
    {
        self.get_reserve_idx_in_allocation(&reserve).is_some()
    }

    /// The slot that holds `reserve`, or `ReserveNotPartOfAllocations`.
    pub fn allocation_for_reserve(&self, reserve: &Pubkey) -> (r: Result<
        &VaultAllocation,
        KaminoVaultError,
    >)
        ensures
            match r {
                Ok(slot) => index_of(self.allocations(), *reserve, 0) matches Some(i)
                    && *slot == self.allocations()[i],
                Err(e) => e == KaminoVaultError::ReserveNotPartOfAllocations && index_of(
                    self.allocations(),
                    *reserve,
                    0,
                ) is None,
            },
    {
        proof {
            lemma_index_of(self.allocations(), *reserve, 0);
        }
        match self.get_reserve_idx_in_allocation(reserve) {
            Some(idx) => Ok(&self.vault_allocation_strategy[idx]),
            None => Err(KaminoVaultError::ReserveNotPartOfAllocations),
        }
    }

    /// Mutable access to the slot at `idx`, or `OutOfRangeOfReserveIndex`.
    pub fn get_reserve_allocation_mut(&mut self, idx: usize) -> (r: Result<
        &mut VaultAllocation,
        KaminoVaultError,
    >)
        ensures
            match r {
                Ok(slot) => idx < 25 && *slot == old(self).allocations()[idx as int]
                    && *final(self) == (VaultState {
                    vault_allocation_strategy: final(self).vault_allocation_strategy,
                    ..*old(self)
                }) && final(self).allocations() == old(self).allocations().update(
                    idx as int,
                    *final(slot),
                ),
                Err(e) => e == KaminoVaultError::OutOfRangeOfReserveIndex && idx >= 25
                    && *final(self) == *old(self),
            },
    {
        if idx < MAX_RESERVES {
            Ok(&mut self.vault_allocation_strategy[idx])
        } else {
            Err(KaminoVaultError::OutOfRangeOfReserveIndex)
        }
    }

    /// Every number is zero, every key the all-zero key, every slot vacant.
    pub open spec fn is_zeroed(self) -> bool {
        &&& self.vault_admin_authority.is_default_spec()
        &&& self.base_vault_authority.is_default_spec()
        &&& self.base_vault_authority_bump == 0
        &&& self.token_mint.is_default_spec()
        &&& self.token_mint_decimals == 0
        &&& self.token_vault.is_default_spec()
        &&& self.token_program.is_default_spec()
        &&& self.shares_mint.is_default_spec()
        &&& self.shares_mint_decimals == 0
        &&& self.token_available == 0
        &&& self.shares_issued == 0
        &&& self.available_crank_funds == 0
        &&& self.unallocated_weight == 0
        &&& self.performance_fee_bps == 0
        &&& self.management_fee_bps == 0
        &&& self.last_fee_charge_timestamp == 0
        &&& self.prev_aum_sf == 0
        &&& self.pending_fees_sf == 0
        &&& forall|i: int|
            0 <= i < 25 ==> (#[trigger] self.allocations()[i]).reserve.is_default_spec()
                && self.allocations()[i].ctoken_vault.is_default_spec()
                && self.allocations()[i].target_allocation_weight == 0
                && self.allocations()[i].token_allocation_cap == 0
                && self.allocations()[i].ctoken_vault_bump == 0
                && self.allocations()[i].ctoken_allocation == 0
                && self.allocations()[i].last_invest_slot == 0
                && self.allocations()[i].token_target_allocation_sf == 0
        &&& self.min_deposit_amount == 0
        &&& self.min_withdraw_amount == 0
        &&& self.min_invest_amount == 0
        &&& self.min_invest_delay_slots == 0
        &&& self.crank_fund_fee_per_reserve == 0
        &&& self.pending_admin.is_default_spec()
        &&& self.cumulative_earned_interest_sf == 0
        &&& self.cumulative_mgmt_fees_sf == 0
        &&& self.cumulative_perf_fees_sf == 0
        &&& forall|i: int| 0 <= i < 40 ==> self.name[i] == 0
        &&& self.vault_lookup_table.is_default_spec()
        &&& self.vault_farm.is_default_spec()
        &&& self.creation_timestamp == 0
        &&& self.unallocated_tokens_cap == 0
        &&& self.allocation_admin.is_default_spec()
        &&& self.withdrawal_penalty_lamports == 0
        &&& self.withdrawal_penalty_bps == 0
        &&& self.first_loss_capital_farm.is_default_spec()
        &&& self.allow_allocations_in_whitelisted_reserves_only == 0
        &&& self.allow_invest_in_whitelisted_reserves_only == 0
    }

    /// All fields but the allocation table are those of `other`.
    pub open spec fn same_but_allocations(self, other: VaultState) -> bool {
        self == (VaultState { vault_allocation_strategy: self.vault_allocation_strategy, ..other })
    }

    pub fn vault_allows_allocations_in_whitelisted_reserves_only(&self) -> (r: bool)
        ensures
            r == (self.allow_allocations_in_whitelisted_reserves_only != 0),
    {
        self.allow_allocations_in_whitelisted_reserves_only != 0
    }

    pub fn vault_allows_invest_in_whitelisted_reserves_only(&self) -> (r: bool)
        ensures
            r == (self.allow_invest_in_whitelisted_reserves_only != 0),
    {
        self.allow_invest_in_whitelisted_reserves_only != 0
    }

    /// Gives `reserve` a weight and a cap. A reserve already in the table keeps
    /// its slot, its holdings and its collateral vault; a new one takes the
    /// first vacant slot. Fails with `ReserveSpaceExhausted`, changing nothing,
    /// when the reserve is new and no slot is vacant.
    pub fn upsert_reserve_allocation(
        &mut self,
        reserve: Pubkey,
        ctoken_vault: Pubkey,
        ctoken_vault_bump: u64,
        target_allocation_weight: u64,
        allocation_cap: u64,
    ) -> (r: Result<(), KaminoVaultError>)
        ensures
            final(self).same_but_allocations(*old(self)),
            match upsert_spec(
                old(self).allocations(),
                reserve,
                ctoken_vault,
                ctoken_vault_bump,
                target_allocation_weight,
                allocation_cap,
            ) {
                Some(table) => r is Ok && final(self).allocations() == table,
                None => r == Err::<(), KaminoVaultError>(KaminoVaultError::ReserveSpaceExhausted)
                    && *final(self) == *old(self),
            },
            old(self).wf() ==> final(self).wf(),
    {
        proof {
            lemma_index_of(self.allocations(), reserve, 0);
        }
        match self.get_reserve_idx_in_allocation(&reserve) {
            Some(idx) => {
                self.vault_allocation_strategy[idx].target_allocation_weight =
                    target_allocation_weight;
                self.vault_allocation_strategy[idx].token_allocation_cap = allocation_cap;
                assert(final(self).allocations() =~= old(self).allocations().update(
                    idx as int,
                    VaultAllocation {
                        target_allocation_weight,
                        token_allocation_cap: allocation_cap,
                        ..old(self).allocations()[idx as int]
                    },
                ));
                Ok(())
            },
            None => {
                let mut i: usize = 0;
                while i < MAX_RESERVES && !self.vault_allocation_strategy[i].reserve.is_default()
                    invariant
                        i <= 25,
                        first_vacant(self.allocations(), 0) == first_vacant(
                            self.allocations(),
                            i as int,
                        ),
                    decreases 25 - i,
                {
                    i = i + 1;
                }
                if i >= MAX_RESERVES {
                    return Err(KaminoVaultError::ReserveSpaceExhausted);
                }
                self.vault_allocation_strategy[i] = VaultAllocation {
                    reserve,
                    ctoken_vault,
                    target_allocation_weight,
                    ctoken_allocation: 0,
                    token_target_allocation_sf: 0,
                    token_allocation_cap: allocation_cap,
                    last_invest_slot: 0,
                    ctoken_vault_bump,
                };
                assert(final(self).allocations() =~= old(self).allocations().update(
                    i as int,
                    final(self).allocations()[i as int],
                ));
                Ok(())
            },
        }
    }

    /// Vacates the slot of `reserve`. Fails, changing nothing, with
    /// `ReserveNotPartOfAllocations` when the reserve has no slot and with
    /// `ReserveHasNonZeroAllocationOrCTokens` when it still has a weight or
    /// holds collateral.
    pub fn remove_reserve_from_allocation(&mut self, reserve: &Pubkey) -> (r: Result<
        (),
        KaminoVaultError,
    >)
        ensures
            final(self).same_but_allocations(*old(self)),
            match index_of(old(self).allocations(), *reserve, 0) {
                Some(i) => if old(self).allocations()[i].ctoken_allocation == 0 && old(self).allocations()[i].target_allocation_weight == 0 {
                    &&& r is Ok
                    &&& final(self).allocations()[i].is_vacant_default()
                    &&& forall|j: int|
                        0 <= j < 25 && j != i ==> final(self).allocations()[j] == old(self).allocations()[j]
                } else {
                    &&& r == Err::<(), KaminoVaultError>(
                        KaminoVaultError::ReserveHasNonZeroAllocationOrCTokens,
                    )
                    &&& *final(self) == *old(self)
                },
                None => r == Err::<(), KaminoVaultError>(
                    KaminoVaultError::ReserveNotPartOfAllocations,
                ) && *final(self) == *old(self),
            },
            old(self).wf() ==> final(self).wf(),
    {
        match self.get_reserve_idx_in_allocation(reserve) {
            Some(idx) => {
                if self.vault_allocation_strategy[idx].can_be_removed() {
                    self.vault_allocation_strategy[idx] = VaultAllocation::default();
                    Ok(())
                } else {
                    Err(KaminoVaultError::ReserveHasNonZeroAllocationOrCTokens)
                }
            },
            None => Err(KaminoVaultError::ReserveNotPartOfAllocations),
        }
    }

    /// Records `slot` as the last time the vault invested in `reserve`. Fails
    /// with `ReserveNotPartOfAllocations`, changing nothing, when the reserve
    /// has no slot.
    pub fn set_allocation_last_invest_slot(&mut self, reserve: &Pubkey, slot: u64) -> (r: Result<
        (),
        KaminoVaultError,
    >)
        ensures
            final(self).same_but_allocations(*old(self)),
            match index_of(old(self).allocations(), *reserve, 0) {
                Some(i) => r is Ok && final(self).allocations() == old(self).allocations().update(
                    i,
                    VaultAllocation { last_invest_slot: slot, ..old(self).allocations()[i] },
                ),
                None => r == Err::<(), KaminoVaultError>(
                    KaminoVaultError::ReserveNotPartOfAllocations,
                ) && *final(self) == *old(self),
            },
            old(self).wf() ==> final(self).wf(),
    {
        match self.get_reserve_idx_in_allocation(reserve) {
            Some(idx) => {
                self.vault_allocation_strategy[idx].set_last_invest_slot(slot);
                assert(final(self).allocations() =~= old(self).allocations().update(
                    idx as int,
                    VaultAllocation {
                        last_invest_slot: slot,
                        ..old(self).allocations()[idx as int]
                    },
                ));
                Ok(())
            },
            None => Err(KaminoVaultError::ReserveNotPartOfAllocations),
        }
    }
}

impl Default for VaultState {
    /// The ledger of a vault that has not been set up: every field zero,
    /// every slot vacant.
    fn default() -> (r: VaultState)
        ensures
            r.is_zeroed(),
            r.wf(),
            count_live(r.allocations(), 25) == 0,
            count_funded(r.allocations(), 25) == 0,
    {
        let vacant = VaultAllocation {
            reserve: Pubkey::default(),
            ctoken_vault: Pubkey::default(),
            target_allocation_weight: 0,
            token_allocation_cap: 0,
            ctoken_vault_bump: 0,
            ctoken_allocation: 0,
            last_invest_slot: 0,
            token_target_allocation_sf: 0,
        };
        let r = VaultState {
            vault_admin_authority: Pubkey::default(),
            base_vault_authority: Pubkey::default(),
            base_vault_authority_bump: 0,
            token_mint: Pubkey::default(),
            token_mint_decimals: 0,
            token_vault: Pubkey::default(),
            token_program: Pubkey::default(),
            shares_mint: Pubkey::default(),
            shares_mint_decimals: 0,
            token_available: 0,
            shares_issued: 0,
            available_crank_funds: 0,
            unallocated_weight: 0,
            performance_fee_bps: 0,
            management_fee_bps: 0,
            last_fee_charge_timestamp: 0,
            prev_aum_sf: 0,
            pending_fees_sf: 0,
            vault_allocation_strategy: [vacant;25],
            min_deposit_amount: 0,
            min_withdraw_amount: 0,
            min_invest_amount: 0,
            min_invest_delay_slots: 0,
            crank_fund_fee_per_reserve: 0,
            pending_admin: Pubkey::default(),
            cumulative_earned_interest_sf: 0,
            cumulative_mgmt_fees_sf: 0,
            cumulative_perf_fees_sf: 0,
            name: [0u8;40],
            vault_lookup_table: Pubkey::default(),
            vault_farm: Pubkey::default(),
            creation_timestamp: 0,
            unallocated_tokens_cap: 0,
            allocation_admin: Pubkey::default(),
            withdrawal_penalty_lamports: 0,
            withdrawal_penalty_bps: 0,
            first_loss_capital_farm: Pubkey::default(),
            allow_allocations_in_whitelisted_reserves_only: 0,
            allow_invest_in_whitelisted_reserves_only: 0,
        };
        proof {
            lemma_counts_of_vacant_table(r.allocations(), 25);
        }
        r
    }
}

/// A table of vacant slots holds no reserve.
pub proof fn lemma_counts_of_vacant_table(allocs: Seq<VaultAllocation>, n: int)
    requires
        forall|i: int| 0 <= i < n ==> !(#[trigger] allocs[i]).is_live(),
    ensures
        count_live(allocs, n) == 0,
        count_funded(allocs, n) == 0,
    decreases n,
{
    if n > 0 {
        lemma_counts_of_vacant_table(allocs, n - 1);
    }
}

/// No more slots are counted than there are.
pub proof fn lemma_count_bounds(allocs: Seq<VaultAllocation>, n: int)
    requires
        0 <= n,
    ensures
        0 <= count_funded(allocs, n) <= count_live(allocs, n) <= n,
    decreases n,
{
    if n > 0 {
        lemma_count_bounds(allocs, n - 1);
    }
}

} // verus!
