//! Holdings of a vault and the arithmetic shared by its operations.
use crate::error::KaminoVaultError;
use crate::fraction::{ceil_units, floor_units, scale, Fraction};
use crate::pubkey::Pubkey;
use crate::reserve::ReserveSnapshot;
use crate::state::{index_of, VaultAllocation, VaultState};
use crate::utils::wide_math::{mul_div_ceil_spec, mul_div_floor_spec};
use vstd::prelude::*;

verus! {

/// What the vault holds in one reserve, valued at the reserve's current rate.
#[derive(Clone, Copy, Debug, PartialEq, Eq)]
pub struct InvestedReserve {
    pub reserve: Pubkey,
    pub liquidity_amount: Fraction,
    pub ctoken_amount: u64,
    pub target_weight: u64,
}

/// What the vault holds in each slot of its allocation table, and in total.
#[derive(Clone, Copy, Debug, PartialEq, Eq)]
pub struct Invested {
    pub allocations: [InvestedReserve; 25],
    pub total: Fraction,
}

#[derive(Clone, Copy, Debug, PartialEq, Eq)]
pub struct Holdings {
    pub available: u64,
    pub invested: Invested,
    pub total_sum: Fraction,
}

/// Running result of valuing the allocation table slot by slot.
pub struct InvestedTally {
    /// One entry per slot seen so far.
    pub entries: Seq<InvestedReserve>,
    /// Sum of the entries' liquidity, as a bit pattern.
    pub total: int,
    /// Number of snapshots consumed so far.
    pub used: int,
}

impl InvestedReserve {
    /// The entry that stands for a vacant slot.
    pub open spec fn default_spec() -> InvestedReserve {
        InvestedReserve {
            reserve: Pubkey::default_spec(),
            liquidity_amount: Fraction { bits: 0 },
            ctoken_amount: 0,
            target_weight: 0,
        }
    }
}

impl Default for InvestedReserve {
    fn default() -> (r: InvestedReserve)
        ensures
            r == InvestedReserve::default_spec(),
    {
        InvestedReserve {
            reserve: Pubkey::default(),
            liquidity_amount: Fraction::zero(),
            ctoken_amount: 0,
            target_weight: 0,
        }
    }
}

impl Default for Invested {
    fn default() -> (r: Invested)
        ensures
            r.total.bits == 0,
            forall|i: int| 0 <= i < 25 ==> r.allocations[i] == InvestedReserve::default_spec(),
    {
        Invested { allocations: [InvestedReserve::default();25], total: Fraction::zero() }
    }
}

/// The first entry at or after `from` that is for `reserve`.
pub open spec fn invested_index_of(entries: Seq<InvestedReserve>, reserve: Pubkey, from: int)
    -> Option<int>
    decreases entries.len() - from,
{
    if from < 0 || from >= entries.len() {
        None
    } else if entries[from].reserve == reserve {
        Some(from)
    } else {
        invested_index_of(entries, reserve, from + 1)
    }
}

impl Invested {
    /// The entry for `reserve`: the first one that carries its key.
    pub fn in_reserve(&self, reserve: &Pubkey) -> (r: Option<&InvestedReserve>)
        ensures
            match r {
                Some(entry) => invested_index_of(self.allocations@, *reserve, 0) matches Some(i)
                    && *entry == self.allocations[i],
                None => invested_index_of(self.allocations@, *reserve, 0) is None,
            },
    {
        let mut i: usize = 0;
        while i < 25
            invariant
                i <= 25,
                invested_index_of(self.allocations@, *reserve, 0) == invested_index_of(
                    self.allocations@,
                    *reserve,
                    i as int,
                ),
            decreases 25 - i,
        {
            if self.allocations[i].reserve == *reserve {
                return Some(&self.allocations[i]);
            }
            i = i + 1;
        }
        None
    }
}

/// The value of the first `n` slots of `allocs`, each occupied slot taking
/// the next snapshot in `snaps`, or the first reason why they cannot be valued.
pub open spec fn invested_upto(
    allocs: Seq<VaultAllocation>,
    snaps: Seq<ReserveSnapshot>,
    n: int,
) -> Result<InvestedTally, KaminoVaultError>
    decreases n,
{
    if n <= 0 {
        Ok(InvestedTally { entries: Seq::empty(), total: 0, used: 0 })
    } else {
        match invested_upto(allocs, snaps, n - 1) {
            Err(e) => Err(e),
            Ok(t) => {
                let slot = allocs[n - 1];
                if !slot.is_live() {
                    Ok(
                        InvestedTally {
                            entries: t.entries.push(InvestedReserve::default_spec()),
                            ..t
                        },
                    )
                } else if t.used >= snaps.len() {
                    Err(KaminoVaultError::ReserveNotProvidedInTheAccounts)
                } else if snaps[t.used].reserve != slot.reserve {
                    Err(KaminoVaultError::ReserveAccountAndKeyMismatch)
                } else if snaps[t.used].stale {
                    Err(KaminoVaultError::ReserveIsStale)
                } else {
                    let rate = snaps[t.used].exchange_rate;
                    let liquidity = rate.collateral_to_liquidity_spec(
                        slot.ctoken_allocation * scale(),
                    );
                    if rate.collateral_supply.bits == 0 || liquidity > u128::MAX || t.total
                        + liquidity > u128::MAX {
                        Err(KaminoVaultError::MathOverflow)
                    } else {
                        Ok(
                            InvestedTally {
                                entries: t.entries.push(
                                    InvestedReserve {
                                        reserve: slot.reserve,
                                        liquidity_amount: Fraction { bits: liquidity as u128 },
                                        ctoken_amount: slot.ctoken_allocation,
                                        target_weight: slot.target_allocation_weight,
                                    },
                                ),
                                total: t.total + liquidity,
                                used: t.used + 1,
                            },
                        )
                    }
                }
            },
        }
    }
}

/// Once a slot cannot be valued, no longer prefix of the table can.
proof fn lemma_invested_error_persists(
    allocs: Seq<VaultAllocation>,
    snaps: Seq<ReserveSnapshot>,
    n: int,
    m: int,
)
    requires
        n <= m,
        invested_upto(allocs, snaps, n) is Err,
    ensures
        invested_upto(allocs, snaps, m) == invested_upto(allocs, snaps, n),
    decreases m - n,
{
    if n < m {
        lemma_invested_error_persists(allocs, snaps, n, m - 1);
    }
}

/// `invested` is the value of the whole allocation table of `vault` under `snaps`.
pub open spec fn is_invested_of(invested: Invested, vault: VaultState, snaps: Seq<ReserveSnapshot>)
    -> bool {
    invested_upto(vault.allocations(), snaps, 25) matches Ok(t) && invested.allocations@
        == t.entries && invested.total.bits == t.total
}

/// `holdings` is what `vault` holds under `snaps`.
pub open spec fn is_holdings_of(
    holdings: Holdings,
    vault: VaultState,
    snaps: Seq<ReserveSnapshot>,
) -> bool {
    &&& holdings.available == vault.token_available
    &&& is_invested_of(holdings.invested, vault, snaps)
    &&& holdings.total_sum.bits == vault.token_available * scale() + holdings.invested.total.bits
}

/// Why the holdings of `vault` under `snaps` cannot be stated, if they cannot.
pub open spec fn holdings_error(vault: VaultState, snaps: Seq<ReserveSnapshot>) -> Option<
    KaminoVaultError,
> {
    match invested_upto(vault.allocations(), snaps, 25) {
        Err(e) => Some(e),
        Ok(t) => if vault.token_available * scale() + t.total > u128::MAX {
            Some(KaminoVaultError::MathOverflow)
        } else {
            None
        },
    }
}

/// Values what the vault holds in each reserve.
///
/// `reserves` holds one snapshot per occupied slot, in table order. Fails with
/// `ReserveNotProvidedInTheAccounts` when they run out, with
/// `ReserveAccountAndKeyMismatch` when one is for another reserve than its
/// slot, with `ReserveIsStale` when one is stale, and with `MathOverflow` when
/// a value or the total is not representable: whichever comes first in table
/// order.
pub fn amounts_invested(vault: &VaultState, reserves: &[ReserveSnapshot]) -> (r: Result<
    Invested,
    KaminoVaultError,
>)
    ensures
        match r {
            Ok(invested) => is_invested_of(invested, *vault, reserves@),
            Err(e) => invested_upto(vault.allocations(), reserves@, 25) == Err::<
                InvestedTally,
                KaminoVaultError,
            >(e),
        },
{
    let mut invested = Invested::default();
    let mut total = Fraction::zero();
    let mut next: usize = 0;
    let mut i: usize = 0;
    let ghost mut tally = InvestedTally { entries: Seq::empty(), total: 0, used: 0 };
    while i < 25
        invariant
            i <= 25,
            next <= i,
            invested_upto(vault.allocations(), reserves@, i as int) == Ok::<
                InvestedTally,
                KaminoVaultError,
            >(tally),
            tally.entries.len() == i,
            tally.total == total.bits,
            tally.used == next,
            forall|j: int| 0 <= j < i ==> invested.allocations[j] == tally.entries[j],
        decreases 25 - i,
    {
        let slot = &vault.vault_allocation_strategy[i];
        if slot.reserve.is_default() {
            invested.allocations[i] = InvestedReserve::default();
            proof {
                tally = InvestedTally {
                    entries: tally.entries.push(InvestedReserve::default_spec()),
                    ..tally
                };
            }
        } else {
            if next >= reserves.len() {
                proof {
                    lemma_invested_error_persists(vault.allocations(), reserves@, i + 1, 25);
                }
                return Err(KaminoVaultError::ReserveNotProvidedInTheAccounts);
            }
            let snapshot = &reserves[next];
            if snapshot.reserve != slot.reserve {
                proof {
                    lemma_invested_error_persists(vault.allocations(), reserves@, i + 1, 25);
                }
                return Err(KaminoVaultError::ReserveAccountAndKeyMismatch);
            }
            if snapshot.stale {
                proof {
                    lemma_invested_error_persists(vault.allocations(), reserves@, i + 1, 25);
                }
                return Err(KaminoVaultError::ReserveIsStale);
            }
            let liquidity_amount = match snapshot.exchange_rate.fraction_collateral_to_liquidity(
                Fraction::from_u64(slot.ctoken_allocation),
            ) {
                Some(liquidity_amount) => liquidity_amount,
                None => {
                    proof {
                        lemma_invested_error_persists(vault.allocations(), reserves@, i + 1, 25);
                    }
                    return Err(KaminoVaultError::MathOverflow);
                },
            };
            total = match total.checked_add(liquidity_amount) {
                Some(total) => total,
                None => {
                    proof {
                        lemma_invested_error_persists(vault.allocations(), reserves@, i + 1, 25);
                    }
                    return Err(KaminoVaultError::MathOverflow);
                },
            };
            let entry = InvestedReserve {
                reserve: slot.reserve,
                liquidity_amount,
                ctoken_amount: slot.ctoken_allocation,
                target_weight: slot.target_allocation_weight,
            };
            invested.allocations[i] = entry;
            next = next + 1;
            proof {
                tally = InvestedTally {
                    entries: tally.entries.push(entry),
                    total: tally.total + liquidity_amount.bits,
                    used: tally.used + 1,
                };
            }
        }
        i = i + 1;
    }
    invested.total = total;
    assert(invested.allocations@ =~= tally.entries);
    Ok(invested)
}

/// Idle balance and per-reserve holdings of the vault.
pub fn underlying_inventory(vault: &VaultState, reserves: &[ReserveSnapshot]) -> (r: Result<
    (u64, Invested),
    KaminoVaultError,
>)
    ensures
        match r {
            Ok((available, invested)) => available == vault.token_available && is_invested_of(
                invested,
                *vault,
                reserves@,
            ),
            Err(e) => invested_upto(vault.allocations(), reserves@, 25) == Err::<
                InvestedTally,
                KaminoVaultError,
            >(e),
        },
{
    let available = available_to_invest(vault);
    match amounts_invested(vault, reserves) {
        Ok(invested) => Ok((available, invested)),
        Err(e) => Err(e),
    }
}

/// Everything the vault holds: idle, invested, and their sum.
pub fn holdings(vault: &VaultState, reserves: &[ReserveSnapshot]) -> (r: Result<
    Holdings,
    KaminoVaultError,
>)
    ensures
        match r {
            Ok(h) => is_holdings_of(h, *vault, reserves@) && holdings_error(*vault, reserves@)
                is None,
            Err(e) => holdings_error(*vault, reserves@) == Some(e),
        },
{
    let (available, invested) = match underlying_inventory(vault, reserves) {
        Ok(inventory) => inventory,
        Err(e) => {
            return Err(e);
        },
    };
    match Fraction::from_u64(available).checked_add(invested.total) {
        Some(total_sum) => Ok(Holdings { available, invested, total_sum }),
        None => Err(KaminoVaultError::MathOverflow),
    }
}

pub fn available_to_invest(vault: &VaultState) -> (r: u64)
    ensures
        r == vault.token_available,
{
    vault.token_available
}

/// Shares minted for `amount` tokens: one per token while no share exists,
/// else the tendered fraction of the shares issued, at a price rounded up.
pub open spec fn shares_to_mint_spec(aum_bits: int, amount: int, shares_issued: int) -> int {
    if shares_issued == 0 {
        amount
    } else {
        (shares_issued * amount) / ceil_units(aum_bits)
    }
}

/// Outcome of `get_shares_to_mint`.
pub open spec fn get_shares_to_mint_spec(
    holdings_aum: Fraction,
    user_token_amount: u64,
    shares_issued: u64,
) -> Result<u64, KaminoVaultError> {
    let shares = shares_to_mint_spec(
        holdings_aum.bits as int,
        user_token_amount as int,
        shares_issued as int,
    );
    if shares_issued == 0 {
        Ok(user_token_amount)
    } else if holdings_aum.bits == 0 {
        Err(KaminoVaultError::VaultAUMZero)
    } else if ceil_units(holdings_aum.bits as int) > u64::MAX || shares > u64::MAX {
        Err(KaminoVaultError::IntegerOverflow)
    } else {
        Ok(shares as u64)
    }
}

/// Tokens owed for `shares` out of `shares_issued`: the whole value when all
/// shares are redeemed, else the proportional part, rounded down.
pub open spec fn total_for_user_spec(shares_issued: int, aum_bits: int, shares: int) -> int {
    if shares_issued == shares {
        floor_units(aum_bits)
    } else {
        floor_units(mul_div_floor_spec(aum_bits, shares, shares_issued))
    }
}

/// Outcome of `compute_user_total_received_on_withdraw`.
pub open spec fn compute_user_total_received_on_withdraw_spec(
    shares_issued: u64,
    vault_total_holdings: Fraction,
    shares_to_withdraw: u64,
) -> Result<u64, KaminoVaultError> {
    let total = total_for_user_spec(
        shares_issued as int,
        vault_total_holdings.bits as int,
        shares_to_withdraw as int,
    );
    if shares_issued != shares_to_withdraw && (shares_issued == 0 || mul_div_floor_spec(
        vault_total_holdings.bits as int,
        shares_to_withdraw as int,
        shares_issued as int,
    ) > u128::MAX) {
        Err(KaminoVaultError::MathOverflow)
    } else if total > u64::MAX {
        Err(KaminoVaultError::IntegerOverflow)
    } else {
        Ok(total as u64)
    }
}

/// Tokens charged for `shares_to_mint` new shares: one per share while no
/// share exists, else their proportional value, rounded up.
pub open spec fn amount_to_deposit_spec(shares_issued: int, aum_bits: int, shares_to_mint: int)
    -> int {
    if shares_issued == 0 {
        shares_to_mint
    } else {
        ceil_units(mul_div_ceil_spec(aum_bits, shares_to_mint, shares_issued))
    }
}

/// Outcome of `compute_amount_to_deposit_from_shares_to_mint`.
pub open spec fn compute_amount_to_deposit_from_shares_to_mint_spec(
    vault_total_shares: u64,
    vault_total_holdings: Fraction,
    shares_to_mint: u64,
) -> Result<u64, KaminoVaultError> {
    let amount = amount_to_deposit_spec(
        vault_total_shares as int,
        vault_total_holdings.bits as int,
        shares_to_mint as int,
    );
    if vault_total_shares != 0 && mul_div_ceil_spec(
        vault_total_holdings.bits as int,
        shares_to_mint as int,
        vault_total_shares as int,
    ) > u128::MAX {
        Err(KaminoVaultError::MathOverflow)
    } else if amount > u64::MAX {
        Err(KaminoVaultError::IntegerOverflow)
    } else {
        Ok(amount as u64)
    }
}

/// Shares burned for an amount delivered: its proportional part of the
/// supply at a price rounded down, rounded up, and never more than asked.
pub open spec fn shares_to_burn_spec(
    amount_bits: int,
    total_supply: int,
    total_sum_bits: int,
    number_of_shares: int,
) -> int {
    let shares = ceil_units(
        mul_div_floor_spec(amount_bits, total_supply, floor_units(total_sum_bits)),
    );
    if shares <= number_of_shares {
        shares
    } else {
        number_of_shares
    }
}

/// Outcome of `calculate_shares_to_burn`.
pub open spec fn calculate_shares_to_burn_spec(
    amount_to_send_to_user: Fraction,
    total_supply: u64,
    total_sum: Fraction,
    number_of_shares: u64,
) -> Result<u64, KaminoVaultError> {
    if floor_units(total_sum.bits as int) > u64::MAX {
        Err(KaminoVaultError::IntegerOverflow)
    } else if floor_units(total_sum.bits as int) == 0 {
        Err(KaminoVaultError::MathOverflow)
    } else {
        Ok(
            shares_to_burn_spec(
                amount_to_send_to_user.bits as int,
                total_supply as int,
                total_sum.bits as int,
                number_of_shares as int,
            ) as u64,
        )
    }
}

/// Shares to mint for a deposit of `user_token_amount` into a vault worth
/// `holdings_aum` with `shares_issued` shares outstanding.
///
/// Fails with `VaultAUMZero` when shares exist but are worth nothing, and with
/// `IntegerOverflow` when the price or the result is not a 64-bit amount.
pub fn get_shares_to_mint(holdings_aum: Fraction, user_token_amount: u64, shares_issued: u64) -> (r:
    Result<u64, KaminoVaultError>)
    ensures
        r == get_shares_to_mint_spec(holdings_aum, user_token_amount, shares_issued),
{
    if shares_issued == 0 {
        return Ok(user_token_amount);
    }
    if holdings_aum.bits == 0 {
        return Err(KaminoVaultError::VaultAUMZero);
    }
    let price: u64 = match holdings_aum.to_ceil() {
        Some(price) => price,
        None => {
            return Err(KaminoVaultError::IntegerOverflow);
        },
    };
    assert(shares_issued * user_token_amount <= u128::MAX) by (nonlinear_arith)
        requires
            shares_issued <= u64::MAX,
            user_token_amount <= u64::MAX,
    ;
    let shares: u128 = (shares_issued as u128 * user_token_amount as u128) / (price as u128);
    if shares > u64::MAX as u128 {
        return Err(KaminoVaultError::IntegerOverflow);
    }
    Ok(shares as u64)
}

/// How much the user has to receive for `shares_to_withdraw` shares, rounded
/// down to whole tokens.
///
/// Fails with `MathOverflow` when no share is issued or the proportional
/// value is not representable, and with `IntegerOverflow` when it is not a
/// 64-bit amount.
pub fn compute_user_total_received_on_withdraw(
    shares_issued: u64,
    vault_total_holdings: Fraction,
    shares_to_withdraw: u64,
) -> (r: Result<u64, KaminoVaultError>)
    ensures
        r == compute_user_total_received_on_withdraw_spec(
            shares_issued,
            vault_total_holdings,
            shares_to_withdraw,
        ),
{
    let owed = if shares_issued == shares_to_withdraw {
        vault_total_holdings
    } else {
        match vault_total_holdings.mul_int_ratio(shares_to_withdraw, shares_issued) {
            Some(owed) => owed,
            None => {
                return Err(KaminoVaultError::MathOverflow);
            },
        }
    };
    match owed.to_floor() {
        Some(total) => Ok(total),
        None => Err(KaminoVaultError::IntegerOverflow),
    }
}

/// How much a depositor is charged for `shares_to_mint` shares, rounded up to
/// whole tokens.
///
/// Fails with `MathOverflow` when the proportional value is not representable
/// and with `IntegerOverflow` when it is not a 64-bit amount.
pub fn compute_amount_to_deposit_from_shares_to_mint(
    vault_total_shares: u64,
    vault_total_holdings: Fraction,
    shares_to_mint: u64,
) -> (r: Result<u64, KaminoVaultError>)
    ensures
        r == compute_amount_to_deposit_from_shares_to_mint_spec(
            vault_total_shares,
            vault_total_holdings,
            shares_to_mint,
        ),
{
    if vault_total_shares == 0 {
        return Ok(shares_to_mint);
    }
    let value = match vault_total_holdings.mul_int_ratio_ceil(shares_to_mint, vault_total_shares) {
        Some(value) => value,
        None => {
            return Err(KaminoVaultError::MathOverflow);
        },
    };
    match value.to_ceil() {
        Some(amount) => Ok(amount),
        None => Err(KaminoVaultError::IntegerOverflow),
    }
}

/// Shares to burn for `amount_to_send_to_user` delivered, at most `number_of_shares`.
///
/// Fails with `IntegerOverflow` when the vault's whole value is not a 64-bit
/// amount and with `MathOverflow` when it is below one token.
pub fn calculate_shares_to_burn(
    amount_to_send_to_user: Fraction,
    total_supply: u64,
    total_sum: Fraction,
    number_of_shares: u64,
) -> (r: Result<u64, KaminoVaultError>)
    ensures
        r == calculate_shares_to_burn_spec(
            amount_to_send_to_user,
            total_supply,
            total_sum,
            number_of_shares,
        ),
{
    let whole_value: u64 = match total_sum.to_floor() {
        Some(whole_value) => whole_value,
        None => {
            return Err(KaminoVaultError::IntegerOverflow);
        },
    };
    if whole_value == 0 {
        return Err(KaminoVaultError::MathOverflow);
    }
    match amount_to_send_to_user.mul_int_ratio(total_supply, whole_value) {
        Some(share_value) => match share_value.to_ceil() {
            Some(shares) => if shares <= number_of_shares {
                Ok(shares)
            } else {
                Ok(number_of_shares)
            },
            None => Ok(number_of_shares),
        },
        None => {
            proof {
                crate::fraction::lemma_ceil_units_monotone(
                    u128::MAX as int + 1,
                    mul_div_floor_spec(
                        amount_to_send_to_user.bits as int,
                        total_supply as int,
                        whole_value as int,
                    ),
                );
            }
            Ok(number_of_shares)
        },
    }
}

pub fn deposit_into_vault(vault: &mut VaultState, amount: u64)
    requires
        old(vault).token_available + amount <= u64::MAX,
    ensures
        *final(vault) == (VaultState {
            token_available: (old(vault).token_available + amount) as u64,
            ..*old(vault)
        }),
{
    vault.token_available = vault.token_available + amount;
}

pub fn withdraw_from_vault(vault: &mut VaultState, amount: u64)
    requires
        amount <= old(vault).token_available,
    ensures
        *final(vault) == (VaultState {
            token_available: (old(vault).token_available - amount) as u64,
            ..*old(vault)
        }),
{
    vault.token_available = vault.token_available - amount;
}

pub fn burn_shares(vault: &mut VaultState, amt: u64)
    requires
        amt <= old(vault).shares_issued,
    ensures
        *final(vault) == (VaultState {
            shares_issued: (old(vault).shares_issued - amt) as u64,
            ..*old(vault)
        }),
{
    vault.shares_issued = vault.shares_issued - amt;
}

pub fn mint_shares(vault: &mut VaultState, amt: u64)
    requires
        old(vault).shares_issued + amt <= u64::MAX,
    ensures
        *final(vault) == (VaultState {
            shares_issued: (old(vault).shares_issued + amt) as u64,
            ..*old(vault)
        }),
{
    vault.shares_issued = vault.shares_issued + amt;
}

/// Applies the effects of a withdrawal to the vault accounting.
pub fn withdraw_from_accounting(
    vault: &mut VaultState,
    available_to_send_to_user: u64,
    shares_to_burn: u64,
)
    requires
        available_to_send_to_user <= old(vault).token_available,
        shares_to_burn <= old(vault).shares_issued,
    ensures
        *final(vault) == (VaultState {
            token_available: (old(vault).token_available - available_to_send_to_user) as u64,
            shares_issued: (old(vault).shares_issued - shares_to_burn) as u64,
            ..*old(vault)
        }),
{
    withdraw_from_vault(vault, available_to_send_to_user);
    burn_shares(vault, shares_to_burn);
}

/// Records the value that the next fee charge measures growth from.
pub fn update_prev_aum(vault: &mut VaultState, aum: Fraction)
    ensures
        *final(vault) == (VaultState { prev_aum_sf: aum.bits, ..*old(vault) }),
{
    vault.set_prev_aum(aum);
}

pub fn update_pending_fees(vault: &mut VaultState, fees: Fraction)
    ensures
        *final(vault) == (VaultState { pending_fees_sf: fees.bits, ..*old(vault) }),
{
    vault.set_pending_fees(fees);
}

pub fn deposit_crank_funds(vault: &mut VaultState, amount: u64)
    requires
        old(vault).available_crank_funds + amount <= u64::MAX,
    ensures
        *final(vault) == (VaultState {
            available_crank_funds: (old(vault).available_crank_funds + amount) as u64,
            ..*old(vault)
        }),
{
    vault.available_crank_funds = vault.available_crank_funds + amount;
}

/// The table after `ctokens` are added to what `reserve` holds; `None` when the
/// sum is not a 64-bit amount.
pub open spec fn add_ctokens_spec(allocs: Seq<VaultAllocation>, i: int, ctokens: u64) -> Seq<
    VaultAllocation,
> {
    allocs.update(
        i,
        VaultAllocation {
            ctoken_allocation: (allocs[i].ctoken_allocation + ctokens) as u64,
            ..allocs[i]
        },
    )
}

/// The table after `ctokens` are taken from what slot `i` holds.
pub open spec fn sub_ctokens_spec(allocs: Seq<VaultAllocation>, i: int, ctokens: u64) -> Seq<
    VaultAllocation,
> {
    allocs.update(
        i,
        VaultAllocation {
            ctoken_allocation: (allocs[i].ctoken_allocation - ctokens) as u64,
            ..allocs[i]
        },
    )
}

/// Adds `ctokens` to the collateral held in `reserve`.
///
/// Fails, changing nothing, with `CannotFindReserveInAllocations` when the
/// reserve has no slot and with `MathOverflow` when the holding would not be
/// a 64-bit amount.
pub fn deposit_into_vault_allocation(vault: &mut VaultState, ctokens: u64, reserve: &Pubkey) -> (r:
    Result<(), KaminoVaultError>)
    ensures
        final(vault).same_but_allocations(*old(vault)),
        match index_of(old(vault).allocations(), *reserve, 0) {
            Some(i) => if old(vault).allocations()[i].ctoken_allocation + ctokens <= u64::MAX {
                r is Ok && final(vault).allocations() == add_ctokens_spec(
                    old(vault).allocations(),
                    i,
                    ctokens,
                )
            } else {
                r == Err::<(), KaminoVaultError>(KaminoVaultError::MathOverflow) && *final(vault)
                    == *old(vault)
            },
            None => r == Err::<(), KaminoVaultError>(
                KaminoVaultError::CannotFindReserveInAllocations,
            ) && *final(vault) == *old(vault),
        },
{
    let idx = match vault.get_reserve_idx_in_allocation(reserve) {
        Some(idx) => idx,
        None => {
            return Err(KaminoVaultError::CannotFindReserveInAllocations);
        },
    };
    let held: u64 = vault.vault_allocation_strategy[idx].ctoken_allocation;
    match held.checked_add(ctokens) {
        Some(sum) => {
            vault.vault_allocation_strategy[idx].ctoken_allocation = sum;
            assert(final(vault).allocations() =~= add_ctokens_spec(
                old(vault).allocations(),
                idx as int,
                ctokens,
            ));
            Ok(())
        },
        None => Err(KaminoVaultError::MathOverflow),
    }
}

/// Takes `ctokens` from the collateral held in `reserve`.
///
/// Fails, changing nothing, with `CannotFindReserveInAllocations` when the
/// reserve has no slot and with `MathOverflow` when it holds less.
pub fn withdraw_from_vault_allocation(vault: &mut VaultState, ctokens: u64, reserve: &Pubkey) -> (r:
    Result<(), KaminoVaultError>)
    ensures
        final(vault).same_but_allocations(*old(vault)),
        match index_of(old(vault).allocations(), *reserve, 0) {
            Some(i) => if ctokens <= old(vault).allocations()[i].ctoken_allocation {
                r is Ok && final(vault).allocations() == sub_ctokens_spec(
                    old(vault).allocations(),
                    i,
                    ctokens,
                )
            } else {
                r == Err::<(), KaminoVaultError>(KaminoVaultError::MathOverflow) && *final(vault)
                    == *old(vault)
            },
            None => r == Err::<(), KaminoVaultError>(
                KaminoVaultError::CannotFindReserveInAllocations,
            ) && *final(vault) == *old(vault),
        },
{
    let idx = match vault.get_reserve_idx_in_allocation(reserve) {
        Some(idx) => idx,
        None => {
            return Err(KaminoVaultError::CannotFindReserveInAllocations);
        },
    };
    let held: u64 = vault.vault_allocation_strategy[idx].ctoken_allocation;
    if ctokens > held {
        return Err(KaminoVaultError::MathOverflow);
    }
    vault.vault_allocation_strategy[idx].ctoken_allocation = held - ctokens;
    assert(final(vault).allocations() =~= sub_ctokens_spec(
        old(vault).allocations(),
        idx as int,
        ctokens,
    ));
    Ok(())
}

/// Every entry of a valued table is for its slot's reserve and collateral.
pub proof fn lemma_invested_entries(
    allocs: Seq<VaultAllocation>,
    snaps: Seq<ReserveSnapshot>,
    n: int,
)
    requires
        0 <= n,
        invested_upto(allocs, snaps, n) is Ok,
    ensures
        invested_upto(allocs, snaps, n)->Ok_0.entries.len() == n,
        0 <= invested_upto(allocs, snaps, n)->Ok_0.used,
        0 <= invested_upto(allocs, snaps, n)->Ok_0.total,
        forall|j: int|
            0 <= j < n ==> (#[trigger] invested_upto(allocs, snaps, n)->Ok_0.entries[j]).reserve
                == allocs[j].reserve,
    decreases n,
{
    if n > 0 {
        assert(invested_upto(allocs, snaps, n - 1) is Ok);
        lemma_invested_entries(allocs, snaps, n - 1);
        let prev = invested_upto(allocs, snaps, n - 1)->Ok_0;
        let cur = invested_upto(allocs, snaps, n)->Ok_0;
        if !allocs[n - 1].is_live() {
            Pubkey::lemma_default_spec(allocs[n - 1].reserve);
        }
        assert forall|j: int| 0 <= j < n implies (#[trigger] cur.entries[j]).reserve
            == allocs[j].reserve by {
            if j < n - 1 {
                assert(cur.entries[j] == prev.entries[j]);
            }
        }
    }
}

/// Tables that agree on reserves, collateral and weights hold the same.
pub proof fn lemma_same_holdings(
    before: Seq<VaultAllocation>,
    after: Seq<VaultAllocation>,
    snaps: Seq<ReserveSnapshot>,
    n: int,
)
    requires
        0 <= n <= 25,
        forall|j: int|
            0 <= j < 25 ==> (#[trigger] after[j]).reserve == before[j].reserve
                && after[j].ctoken_allocation == before[j].ctoken_allocation
                && after[j].target_allocation_weight == before[j].target_allocation_weight,
    ensures
        invested_upto(after, snaps, n) == invested_upto(before, snaps, n),
    decreases n,
{
    if n > 0 {
        lemma_same_holdings(before, after, snaps, n - 1);
        assert(after[n - 1].reserve == before[n - 1].reserve);
    }
}

} // verus!
