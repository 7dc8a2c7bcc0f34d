//! The vault's value-affecting operations. Each computes what is to be moved
//! and updates the ledger; none moves assets itself. An operation that fails
//! leaves the ledger as it found it.
use crate::error::KaminoVaultError;
use crate::fraction::{bps_bits, ceil_units, floor_units, frac_bits, scale, Fraction};
use crate::operations::effects::{
    DepositEffects, InvestEffects, InvestingDirection, WithdrawEffects, WithdrawPendingFeesEffects,
};
use crate::operations::vault_operations::common::{
    calculate_shares_to_burn, calculate_shares_to_burn_spec,
    compute_amount_to_deposit_from_shares_to_mint,
    compute_amount_to_deposit_from_shares_to_mint_spec, compute_user_total_received_on_withdraw,
    compute_user_total_received_on_withdraw_spec, get_shares_to_mint, get_shares_to_mint_spec,
    holdings, holdings_error, invested_upto, lemma_invested_entries, lemma_same_holdings,
    Invested,
};
use crate::pubkey::Pubkey;
use crate::reserve::{CollateralExchangeRate, ReserveSnapshot};
use crate::state::target_allocations::{
    first_mismatch, refresh_targets_with, with_targets,
};
use crate::state::{count_funded, index_of, VaultAllocation, VaultState};
use crate::utils::consts::{INITIAL_DEPOSIT_AMOUNT, SECONDS_PER_YEAR_CEIL};
use vstd::prelude::*;

pub mod common;
pub mod string_utils;

verus! {

/// Seconds between the last fee charge and `now`, never negative.
pub open spec fn elapsed_seconds(last: u64, now: u64) -> int {
    if now >= last {
        now - last
    } else {
        0
    }
}

/// The management fee rate for `elapsed` seconds: the yearly rate prorated.
pub open spec fn mgmt_fee_rate_bits(mgmt_bps: int, elapsed: int) -> int {
    (bps_bits(mgmt_bps) * elapsed) / 31_556_926
}

/// The management fee on `prev_aum` for `elapsed` seconds.
pub open spec fn mgmt_charge_bits(prev_aum: int, mgmt_bps: int, elapsed: int) -> int {
    if elapsed == 0 {
        0
    } else {
        (prev_aum * mgmt_fee_rate_bits(mgmt_bps, elapsed)) / scale()
    }
}

/// Growth of the vault's value since the last charge; a loss counts as none.
pub open spec fn earned_interest_bits(new_aum: int, prev_aum: int) -> int {
    if new_aum >= prev_aum {
        new_aum - prev_aum
    } else {
        0
    }
}

/// The performance fee on `earned`.
pub open spec fn perf_charge_bits(perf_bps: int, earned: int) -> int {
    (bps_bits(perf_bps) * earned) / scale()
}

/// The vault's value as fees see it: zero when it cannot be stated.
pub open spec fn aum_or_zero(vault: VaultState, invested_total: Fraction) -> int {
    match vault.compute_aum_spec(invested_total) {
        Ok(aum) => aum.bits as int,
        Err(_) => 0,
    }
}

/// The fees that a charge at `now` adds: management plus performance, but
/// never more than the vault is worth.
pub open spec fn new_fees_bits(vault: VaultState, invested_total: Fraction, now: u64) -> int {
    let new_aum = aum_or_zero(vault, invested_total);
    let charge = mgmt_charge_bits(
        vault.prev_aum_sf as int,
        vault.management_fee_bps as int,
        elapsed_seconds(vault.last_fee_charge_timestamp, now),
    ) + perf_charge_bits(
        vault.performance_fee_bps as int,
        earned_interest_bits(new_aum, vault.prev_aum_sf as int),
    );
    if charge <= new_aum {
        charge
    } else {
        new_aum
    }
}

/// Whether a charge at `now` leaves the representable range on the way.
pub open spec fn charge_fees_overflows(vault: VaultState, invested_total: Fraction, now: u64)
    -> bool {
    let elapsed = elapsed_seconds(vault.last_fee_charge_timestamp, now);
    let new_aum = aum_or_zero(vault, invested_total);
    let mgmt = mgmt_charge_bits(vault.prev_aum_sf as int, vault.management_fee_bps as int, elapsed);
    let perf = perf_charge_bits(
        vault.performance_fee_bps as int,
        earned_interest_bits(new_aum, vault.prev_aum_sf as int),
    );
    vault.last_fee_charge_timestamp != 0 && {
        ||| bps_bits(vault.management_fee_bps as int) * elapsed > u128::MAX
        ||| mgmt > u128::MAX
        ||| perf > u128::MAX
        ||| mgmt + perf > u128::MAX
        ||| vault.pending_fees_sf + new_fees_bits(vault, invested_total, now) > u128::MAX
    }
}

/// A sum that stops at the largest 128-bit value.
pub open spec fn saturating_sum(a: int, b: int) -> u128 {
    if a + b <= u128::MAX {
        (a + b) as u128
    } else {
        u128::MAX
    }
}

/// The ledger after fees are charged at `now`. The first charge of a vault
/// only records the time; later ones move the new fees from the vault's value
/// to the fees owed.
pub open spec fn charged(vault: VaultState, invested_total: Fraction, now: u64) -> VaultState {
    if vault.last_fee_charge_timestamp == 0 {
        VaultState { last_fee_charge_timestamp: now, ..vault }
    } else {
        let elapsed = elapsed_seconds(vault.last_fee_charge_timestamp, now);
        let new_aum = aum_or_zero(vault, invested_total);
        let earned = earned_interest_bits(new_aum, vault.prev_aum_sf as int);
        let fees = new_fees_bits(vault, invested_total, now);
        VaultState {
            cumulative_mgmt_fees_sf: saturating_sum(
                vault.cumulative_mgmt_fees_sf as int,
                mgmt_charge_bits(
                    vault.prev_aum_sf as int,
                    vault.management_fee_bps as int,
                    elapsed,
                ),
            ),
            cumulative_perf_fees_sf: saturating_sum(
                vault.cumulative_perf_fees_sf as int,
                perf_charge_bits(vault.performance_fee_bps as int, earned),
            ),
            cumulative_earned_interest_sf: saturating_sum(
                vault.cumulative_earned_interest_sf as int,
                earned,
            ),
            pending_fees_sf: (vault.pending_fees_sf + fees) as u128,
            prev_aum_sf: (new_aum - fees) as u128,
            last_fee_charge_timestamp: now,
            ..vault
        }
    }
}

/// Outcome of `charge_fees`.
pub open spec fn charge_fees_spec(vault: VaultState, invested_total: Fraction, now: u64) -> Result<
    VaultState,
    KaminoVaultError,
> {
    if charge_fees_overflows(vault, invested_total, now) {
        Err(KaminoVaultError::MathOverflow)
    } else {
        Ok(charged(vault, invested_total, now))
    }
}

/// Prepares a fresh ledger: records the decimals and the creation time, zeroes
/// the balances, and checks that the ledger is fit to start from.
pub fn initialize(
    vault: &mut VaultState,
    token_decimals: u8,
    shares_decimals: u8,
    current_timestamp: u64,
) -> (r: Result<(), KaminoVaultError>)
    ensures
        ({
            let prepared = VaultState {
                token_mint_decimals: token_decimals as u64,
                shares_mint_decimals: shares_decimals as u64,
                token_available: 0,
                shares_issued: 0,
                creation_timestamp: current_timestamp,
                ..*old(vault)
            };
            match r {
                Ok(()) => prepared.validate_spec() is Ok && *final(vault) == prepared,
                Err(e) => prepared.validate_spec() == Err::<(), KaminoVaultError>(e)
                    && *final(vault) == *old(vault),
            }
        }),
        old(vault).wf() ==> final(vault).wf(),
{
    let mut prepared = *vault;
    prepared.token_mint_decimals = token_decimals as u64;
    prepared.shares_mint_decimals = shares_decimals as u64;
    prepared.token_available = 0;
    prepared.shares_issued = 0;
    prepared.creation_timestamp = current_timestamp;
    match prepared.validate() {
        Ok(()) => {
            *vault = prepared;
            Ok(())
        },
        Err(e) => Err(e),
    }
}

/// Brings fee accounting up to `timestamp`.
///
/// The first charge of a vault only records the time. Later ones add the
/// management fee for the time elapsed and the performance fee on the growth
/// since the last charge to the fees owed, capped at the vault's value, and
/// take the same amount off the value that growth is next measured from.
/// Fails with `MathOverflow`, changing nothing, when an amount on the way is
/// not representable.
pub fn charge_fees(vault: &mut VaultState, invested: &Invested, timestamp: u64) -> (r: Result<
    (),
    KaminoVaultError,
>)
    ensures
        match r {
            Ok(()) => charge_fees_spec(*old(vault), invested.total, timestamp) == Ok::<
                VaultState,
                KaminoVaultError,
            >(*final(vault)),
            Err(e) => charge_fees_spec(*old(vault), invested.total, timestamp) == Err::<
                VaultState,
                KaminoVaultError,
            >(e) && *final(vault) == *old(vault),
        },
        old(vault).wf() ==> final(vault).wf(),
{
    if vault.last_fee_charge_timestamp == 0 {
        vault.last_fee_charge_timestamp = timestamp;
        return Ok(());
    }
    let seconds_passed: u64 = if timestamp >= vault.last_fee_charge_timestamp {
        timestamp - vault.last_fee_charge_timestamp
    } else {
        0
    };
    let new_aum = match vault.compute_aum(&invested.total) {
        Ok(aum) => aum,
        Err(_) => Fraction::zero(),
    };
    let prev_aum = vault.get_prev_aum();

    // The management fee is applied to the previous value.
    let mgmt_fee_yearly = Fraction::from_bps(vault.management_fee_bps);
    let prorated = match mgmt_fee_yearly.checked_mul_int(seconds_passed as u128) {
        Some(prorated) => prorated,
        None => {
            return Err(KaminoVaultError::MathOverflow);
        },
    };
    let mgmt_charge = if seconds_passed == 0 {
        Fraction::zero()
    } else {
        let mgmt_fee = Fraction::from_bits(prorated.to_bits() / SECONDS_PER_YEAR_CEIL);
        match prev_aum.checked_mul(mgmt_fee) {
            Some(mgmt_charge) => mgmt_charge,
            None => {
                return Err(KaminoVaultError::MathOverflow);
            },
        }
    };

    // The performance fee is applied to the interest earned; a loss earns none.
    let earned_interest = new_aum.saturating_sub(prev_aum);
    let perf_charge = match Fraction::from_bps(vault.performance_fee_bps).checked_mul(
        earned_interest,
    ) {
        Some(perf_charge) => perf_charge,
        None => {
            return Err(KaminoVaultError::MathOverflow);
        },
    };
    let charge = match mgmt_charge.checked_add(perf_charge) {
        Some(charge) => charge,
        None => {
            return Err(KaminoVaultError::MathOverflow);
        },
    };
    let new_fees = charge.min(new_aum);
    let pending_fees = match vault.get_pending_fees().checked_add(new_fees) {
        Some(pending_fees) => pending_fees,
        None => {
            return Err(KaminoVaultError::MathOverflow);
        },
    };
    let remaining_aum = Fraction::from_bits(new_aum.to_bits() - new_fees.to_bits());

    vault.cumulative_mgmt_fees_sf =
        vault.get_cumulative_mgmt_fees().saturating_add(mgmt_charge).to_bits();
    vault.cumulative_perf_fees_sf =
        vault.get_cumulative_perf_fees().saturating_add(perf_charge).to_bits();
    vault.cumulative_earned_interest_sf =
        vault.get_cumulative_earned_interest().saturating_add(earned_interest).to_bits();
    vault.pending_fees_sf = pending_fees.to_bits();
    vault.prev_aum_sf = remaining_aum.to_bits();
    vault.last_fee_charge_timestamp = timestamp;
    Ok(())
}

/// The liquidity that `vault` holds in reserves under `snaps`, in total.
pub open spec fn invested_total(vault: VaultState, snaps: Seq<ReserveSnapshot>) -> Fraction {
    match invested_upto(vault.allocations(), snaps, 25) {
        Ok(t) => Fraction { bits: t.total as u128 },
        Err(_) => Fraction { bits: 0 },
    }
}

/// Crank funds that a deposit sets aside: one fee per funded reserve.
pub open spec fn crank_funds_spec(vault: VaultState) -> int {
    count_funded(vault.allocations(), 25) * vault.crank_fund_fee_per_reserve
}

/// A deposit of `tendered` tokens, beside `crank_funds`, into a ledger on which
/// fees have been charged and which holds `invested_total` in reserves.
pub open spec fn deposit_after_fees(
    vault: VaultState,
    invested_total: Fraction,
    tendered: u64,
    crank_funds: u64,
) -> Result<(VaultState, DepositEffects), KaminoVaultError> {
    match vault.compute_aum_spec(invested_total) {
        Err(e) => Err(e),
        Ok(aum) => match get_shares_to_mint_spec(aum, tendered, vault.shares_issued) {
            Err(e) => Err(e),
            Ok(shares_to_mint) => match compute_amount_to_deposit_from_shares_to_mint_spec(
                vault.shares_issued,
                aum,
                shares_to_mint,
            ) {
                Err(e) => Err(e),
                Ok(tokens) => if tendered < vault.min_deposit_amount {
                    Err(KaminoVaultError::DepositAmountBelowMinimum)
                } else if shares_to_mint == 0 {
                    Err(KaminoVaultError::DepositAmountsZeroShares)
                } else if vault.token_available + tokens > u64::MAX || vault.shares_issued
                    + shares_to_mint > u64::MAX || vault.available_crank_funds + crank_funds
                    > u64::MAX || aum.bits + tokens * scale() > u128::MAX {
                    Err(KaminoVaultError::MathOverflow)
                } else {
                    Ok(
                        (
                            VaultState {
                                token_available: (vault.token_available + tokens) as u64,
                                shares_issued: (vault.shares_issued + shares_to_mint) as u64,
                                prev_aum_sf: (aum.bits + tokens * scale()) as u128,
                                available_crank_funds: (vault.available_crank_funds
                                    + crank_funds) as u64,
                                ..vault
                            },
                            DepositEffects {
                                shares_to_mint,
                                token_to_deposit: tokens,
                                crank_funds_to_deposit: crank_funds,
                            },
                        ),
                    )
                },
            },
        },
    }
}

/// Outcome of `deposit`: the ledger it leaves and the effects it reports, or
/// the reason why it refuses.
pub open spec fn deposit_spec(
    vault: VaultState,
    snaps: Seq<ReserveSnapshot>,
    max_amount: u64,
    now: u64,
) -> Result<(VaultState, DepositEffects), KaminoVaultError> {
    let crank_funds = crank_funds_spec(vault);
    if crank_funds > u64::MAX {
        Err(KaminoVaultError::MathOverflow)
    } else if max_amount < crank_funds {
        Err(KaminoVaultError::DepositAmountBelowMinimum)
    } else {
        match holdings_error(vault, snaps) {
            Some(e) => Err(e),
            None => match charge_fees_spec(vault, invested_total(vault, snaps), now) {
                Err(e) => Err(e),
                Ok(after_fees) => deposit_after_fees(
                    after_fees,
                    invested_total(vault, snaps),
                    (max_amount - crank_funds) as u64,
                    crank_funds as u64,
                ),
            },
        }
    }
}

/// Takes a deposit of at most `max_amount` tokens.
///
/// A crank fee per funded reserve is set aside first. The rest buys shares
/// at the vault's value per share after fees, rounded up; the depositor is
/// then charged what the shares minted are worth, rounded up, which is never
/// more than was tendered. Fails, changing nothing, with
/// `DepositAmountBelowMinimum` when what is tendered beside the crank funds is
/// below the vault's minimum, with `DepositAmountsZeroShares` when it buys no
/// share, and as the holdings, the fees and the arithmetic on the way fail.
pub fn deposit(
    vault: &mut VaultState,
    reserves: &[ReserveSnapshot],
    max_amount: u64,
    current_timestamp: u64,
) -> (r: Result<DepositEffects, KaminoVaultError>)
    ensures
        match r {
            Ok(effects) => deposit_spec(*old(vault), reserves@, max_amount, current_timestamp)
                == Ok::<(VaultState, DepositEffects), KaminoVaultError>((*final(vault), effects)),
            Err(e) => deposit_spec(*old(vault), reserves@, max_amount, current_timestamp) == Err::<
                (VaultState, DepositEffects),
                KaminoVaultError,
            >(e) && *final(vault) == *old(vault),
        },
        old(vault).wf() ==> final(vault).wf(),
{
    let num_reserve: u64 = vault.get_reserves_with_allocation_count() as u64;
    let crank_funds_to_deposit: u64 = match num_reserve.checked_mul(
        vault.crank_fund_fee_per_reserve,
    ) {
        Some(crank_funds) => crank_funds,
        None => {
            return Err(KaminoVaultError::MathOverflow);
        },
    };
    if max_amount < crank_funds_to_deposit {
        return Err(KaminoVaultError::DepositAmountBelowMinimum);
    }
    let max_user_tokens_to_deposit: u64 = max_amount - crank_funds_to_deposit;

    let holdings = match holdings(vault, reserves) {
        Ok(holdings) => holdings,
        Err(e) => {
            return Err(e);
        },
    };
    let mut next = *vault;
    match charge_fees(&mut next, &holdings.invested, current_timestamp) {
        Ok(()) => {},
        Err(e) => {
            return Err(e);
        },
    }
    let current_vault_aum = match next.compute_aum(&holdings.invested.total) {
        Ok(aum) => aum,
        Err(e) => {
            return Err(e);
        },
    };
    let shares_to_mint: u64 = match get_shares_to_mint(
        current_vault_aum,
        max_user_tokens_to_deposit,
        next.shares_issued,
    ) {
        Ok(shares) => shares,
        Err(e) => {
            return Err(e);
        },
    };
    let user_tokens_to_deposit: u64 = match compute_amount_to_deposit_from_shares_to_mint(
        next.shares_issued,
        current_vault_aum,
        shares_to_mint,
    ) {
        Ok(tokens) => tokens,
        Err(e) => {
            return Err(e);
        },
    };
    if max_user_tokens_to_deposit < next.min_deposit_amount {
        return Err(KaminoVaultError::DepositAmountBelowMinimum);
    }
    if shares_to_mint == 0 {
        return Err(KaminoVaultError::DepositAmountsZeroShares);
    }
    let token_available = next.token_available.checked_add(user_tokens_to_deposit);
    let shares_issued = next.shares_issued.checked_add(shares_to_mint);
    let crank_funds = next.available_crank_funds.checked_add(crank_funds_to_deposit);
    let prev_aum = current_vault_aum.checked_add(Fraction::from_u64(user_tokens_to_deposit));
    match (token_available, shares_issued, crank_funds, prev_aum) {
        (Some(token_available), Some(shares_issued), Some(crank_funds), Some(prev_aum)) => {
            // The ledger changes only now that nothing can fail any more.
            next.token_available = token_available;
            next.shares_issued = shares_issued;
            next.prev_aum_sf = prev_aum.to_bits();
            next.available_crank_funds = crank_funds;
            *vault = next;
            Ok(
                DepositEffects {
                    shares_to_mint,
                    token_to_deposit: user_tokens_to_deposit,
                    crank_funds_to_deposit,
                },
            )
        },
        _ => Err(KaminoVaultError::MathOverflow),
    }
}

/// What is drawn from one reserve to complete a payment.
#[derive(Clone, Copy, Debug, PartialEq, Eq, Structural)]
pub struct Disinvestment {
    /// Liquidity from the reserve that the payee is entitled to.
    pub liquidity_to_send: Fraction,
    /// Whole liquidity that the reserve pays out for the collateral redeemed.
    pub liquidity_to_disinvest: u64,
    /// Collateral units redeemed.
    pub ctokens: u64,
    /// One token kept back from the payee when redeeming loses more to
    /// rounding than the entitlement does, else zero.
    pub rounding_error: u64,
}

/// The disinvestment that moves nothing.
pub open spec fn no_disinvestment() -> Disinvestment {
    Disinvestment {
        liquidity_to_send: Fraction { bits: 0 },
        liquidity_to_disinvest: 0,
        ctokens: 0,
        rounding_error: 0,
    }
}

/// The smaller of two integers.
pub open spec fn min_int(a: int, b: int) -> int {
    if a <= b {
        a
    } else {
        b
    }
}

/// Outcome of `disinvest_for_withdraw`.
pub open spec fn disinvest_for_withdraw_spec(
    rate: CollateralExchangeRate,
    invested_liquidity: Fraction,
    needed: u64,
    ctokens_owned: u64,
) -> Result<Disinvestment, KaminoVaultError> {
    let to_send = min_int(invested_liquidity.bits as int, needed * scale());
    let ctokens_f = rate.liquidity_to_collateral_ceil_spec(floor_units(to_send) * scale());
    let ctokens = min_int(ceil_units(ctokens_f), ctokens_owned as int);
    let disinvested_f = rate.collateral_to_liquidity_spec(ctokens * scale());
    if to_send == 0 {
        Ok(no_disinvestment())
    } else if rate.liquidity_supply.bits == 0 || ctokens_f > u128::MAX {
        Err(KaminoVaultError::MathOverflow)
    } else if ceil_units(ctokens_f) > u64::MAX {
        Err(KaminoVaultError::IntegerOverflow)
    } else if rate.collateral_supply.bits == 0 || disinvested_f > u128::MAX {
        Err(KaminoVaultError::MathOverflow)
    } else if floor_units(disinvested_f) > u64::MAX {
        Err(KaminoVaultError::IntegerOverflow)
    } else {
        Ok(
            Disinvestment {
                liquidity_to_send: Fraction { bits: to_send as u128 },
                liquidity_to_disinvest: floor_units(disinvested_f) as u64,
                ctokens: ctokens as u64,
                rounding_error: if frac_bits(disinvested_f) > 0 && frac_bits(disinvested_f)
                    > frac_bits(to_send) {
                    1
                } else {
                    0
                },
            },
        )
    }
}

/// Sizes the redemption that completes a withdrawal of which `needed` whole
/// tokens are still owed, from a reserve in which the vault holds
/// `invested_liquidity` as `ctokens_owned` collateral units.
///
/// The entitlement is the lesser of what is owed and what is held. The
/// collateral to redeem for its whole part is rounded up, so that enough
/// liquidity is freed, and capped at what the vault owns; the liquidity that
/// this collateral pays out is rounded down.
pub fn disinvest_for_withdraw(
    rate: &CollateralExchangeRate,
    invested_liquidity: Fraction,
    needed: u64,
    ctokens_owned: u64,
) -> (r: Result<Disinvestment, KaminoVaultError>)
    ensures
        r == disinvest_for_withdraw_spec(*rate, invested_liquidity, needed, ctokens_owned),
{
    let liquidity_to_send = invested_liquidity.min(Fraction::from_u64(needed));
    if liquidity_to_send.bits == 0 {
        return Ok(
            Disinvestment {
                liquidity_to_send: Fraction::zero(),
                liquidity_to_disinvest: 0,
                ctokens: 0,
                rounding_error: 0,
            },
        );
    }
    // Round up the collateral to redeem so that enough liquidity is freed.
    let ctokens_f = match rate.fraction_liquidity_to_collateral_ceil(liquidity_to_send.floor()) {
        Some(ctokens_f) => ctokens_f,
        None => {
            return Err(KaminoVaultError::MathOverflow);
        },
    };
    let wanted: u64 = match ctokens_f.to_ceil() {
        Some(wanted) => wanted,
        None => {
            return Err(KaminoVaultError::IntegerOverflow);
        },
    };
    let ctokens: u64 = if wanted <= ctokens_owned {
        wanted
    } else {
        ctokens_owned
    };
    // Redeeming pays out whole tokens only.
    let disinvested_f = match rate.fraction_collateral_to_liquidity(Fraction::from_u64(ctokens)) {
        Some(disinvested_f) => disinvested_f,
        None => {
            return Err(KaminoVaultError::MathOverflow);
        },
    };
    let liquidity_to_disinvest: u64 = match disinvested_f.to_floor() {
        Some(liquidity) => liquidity,
        None => {
            return Err(KaminoVaultError::IntegerOverflow);
        },
    };
    let lost = disinvested_f.frac();
    let rounding_error: u64 = if lost.bits > 0 && lost.bits > liquidity_to_send.frac().bits {
        1
    } else {
        0
    };
    Ok(Disinvestment { liquidity_to_send, liquidity_to_disinvest, ctokens, rounding_error })
}

/// The part of a withdrawal that is drawn from the named reserve, if one is named.
pub open spec fn withdraw_disinvestment_spec(
    vault: VaultState,
    snaps: Seq<ReserveSnapshot>,
    reserve: Option<ReserveSnapshot>,
    needed: u64,
    reserve_ctokens_owned: Option<u64>,
) -> Result<Disinvestment, KaminoVaultError> {
    match reserve {
        None => Ok(no_disinvestment()),
        Some(named) => match index_of(vault.allocations(), named.reserve, 0) {
            None => Err(KaminoVaultError::ReserveNotPartOfAllocations),
            Some(i) => if named.reserve.is_default_spec() {
                Err(KaminoVaultError::ReserveNotPartOfAllocations)
            } else {
                disinvest_for_withdraw_spec(
                    named.exchange_rate,
                    invested_upto(vault.allocations(), snaps, 25)->Ok_0.entries[i].liquidity_amount,
                    needed,
                    match reserve_ctokens_owned {
                        Some(owned) => owned,
                        None => 0,
                    },
                )
            },
        },
    }
}

/// A withdrawal of `number_of_shares` from a ledger on which fees have been
/// charged, of which `d` is drawn from the named reserve.
pub open spec fn withdraw_settle_spec(
    vault: VaultState,
    aum: Fraction,
    total_for_user: u64,
    reserve: Option<ReserveSnapshot>,
    d: Disinvestment,
    number_of_shares: u64,
) -> Result<(VaultState, WithdrawEffects), KaminoVaultError> {
    let available_to_send = min_int(vault.token_available as int, total_for_user as int);
    let to_send_whole = floor_units(d.liquidity_to_send.bits as int);
    let actual = to_send_whole - d.rounding_error;
    let theoretical = available_to_send * scale() + d.liquidity_to_send.bits;
    let delivered = available_to_send + actual;
    let left_in_vault = d.liquidity_to_disinvest - actual;
    let slot = match reserve {
        Some(named) => index_of(vault.allocations(), named.reserve, 0),
        None => None,
    };
    if to_send_whole > u64::MAX || to_send_whole < d.rounding_error || theoretical > u128::MAX {
        Err(KaminoVaultError::MathOverflow)
    } else {
        match calculate_shares_to_burn_spec(
            Fraction { bits: (delivered * scale()) as u128 },
            vault.shares_issued,
            aum,
            number_of_shares,
        ) {
            Err(e) => Err(e),
            Ok(shares_to_burn) => if d.liquidity_to_disinvest < actual {
                Err(KaminoVaultError::NotEnoughLiquidityDisinvestedToSendToUser)
            } else if shares_to_burn == 0 {
                Err(KaminoVaultError::WithdrawResultsInZeroShares)
            } else if delivered < vault.min_withdraw_amount {
                Err(KaminoVaultError::WithdrawAmountBelowMinimum)
            } else if shares_to_burn > vault.shares_issued || vault.token_available
                - available_to_send + left_in_vault > u64::MAX || theoretical > aum.bits || (
            slot matches Some(i) && d.ctokens > vault.allocations()[i].ctoken_allocation) {
                Err(KaminoVaultError::MathOverflow)
            } else {
                Ok(
                    (
                        VaultState {
                            token_available: (vault.token_available - available_to_send
                                + left_in_vault) as u64,
                            shares_issued: (vault.shares_issued - shares_to_burn) as u64,
                            prev_aum_sf: (aum.bits - theoretical) as u128,
                            vault_allocation_strategy: match slot {
                                Some(i) => vstd::array::spec_array_update(
                                    vault.vault_allocation_strategy,
                                    i,
                                    crate::state::VaultAllocation {
                                        ctoken_allocation: (
                                        vault.allocations()[i].ctoken_allocation
                                            - d.ctokens) as u64,
                                        ..vault.allocations()[i]
                                    },
                                ),
                                None => vault.vault_allocation_strategy,
                            },
                            ..vault
                        },
                        WithdrawEffects {
                            shares_to_burn,
                            available_to_send_to_user: available_to_send as u64,
                            invested_to_disinvest_ctokens: d.ctokens,
                            invested_liquidity_to_send_to_user: actual as u64,
                            invested_liquidity_to_disinvest: d.liquidity_to_disinvest,
                        },
                    ),
                )
            },
        }
    }
}

/// A withdrawal from a ledger on which fees have been charged.
pub open spec fn withdraw_after_fees(
    vault: VaultState,
    snaps: Seq<ReserveSnapshot>,
    invested_total: Fraction,
    reserve: Option<ReserveSnapshot>,
    number_of_shares: u64,
    reserve_ctokens_owned: Option<u64>,
) -> Result<(VaultState, WithdrawEffects), KaminoVaultError> {
    match vault.compute_aum_spec(invested_total) {
        Err(e) => Err(e),
        Ok(aum) => if aum.bits == 0 {
            Err(KaminoVaultError::VaultAUMZero)
        } else {
            match compute_user_total_received_on_withdraw_spec(
                vault.shares_issued,
                aum,
                number_of_shares,
            ) {
                Err(e) => Err(e),
                Ok(total_for_user) => match withdraw_disinvestment_spec(
                    vault,
                    snaps,
                    reserve,
                    (total_for_user - min_int(
                        vault.token_available as int,
                        total_for_user as int,
                    )) as u64,
                    reserve_ctokens_owned,
                ) {
                    Err(e) => Err(e),
                    Ok(d) => withdraw_settle_spec(
                        vault,
                        aum,
                        total_for_user,
                        reserve,
                        d,
                        number_of_shares,
                    ),
                },
            }
        },
    }
}

/// Outcome of `withdraw`: the ledger it leaves and the effects it reports, or
/// the reason why it refuses.
pub open spec fn withdraw_spec(
    vault: VaultState,
    snaps: Seq<ReserveSnapshot>,
    reserve: Option<ReserveSnapshot>,
    now: u64,
    number_of_shares: u64,
    reserve_ctokens_owned: Option<u64>,
) -> Result<(VaultState, WithdrawEffects), KaminoVaultError> {
    if number_of_shares == 0 {
        Err(KaminoVaultError::CannotWithdrawZeroShares)
    } else {
        match holdings_error(vault, snaps) {
            Some(e) => Err(e),
            None => match charge_fees_spec(vault, invested_total(vault, snaps), now) {
                Err(e) => Err(e),
                Ok(after_fees) => withdraw_after_fees(
                    after_fees,
                    snaps,
                    invested_total(vault, snaps),
                    reserve,
                    number_of_shares,
                    reserve_ctokens_owned,
                ),
            },
        }
    }
}

/// Sizes the part of a withdrawal that is drawn from the named reserve.
fn withdraw_disinvestment(
    vault: &VaultState,
    invested: &Invested,
    reserves: Ghost<Seq<ReserveSnapshot>>,
    reserve: Option<ReserveSnapshot>,
    needed: u64,
    reserve_ctokens_owned: Option<u64>,
) -> (r: Result<Disinvestment, KaminoVaultError>)
    requires
        invested_upto(vault.allocations(), reserves@, 25) matches Ok(t) && invested.allocations@
            == t.entries,
    ensures
        r == withdraw_disinvestment_spec(*vault, reserves@, reserve, needed, reserve_ctokens_owned),
{
    match reserve {
        None => Ok(
            Disinvestment {
                liquidity_to_send: Fraction::zero(),
                liquidity_to_disinvest: 0,
                ctokens: 0,
                rounding_error: 0,
            },
        ),
        Some(named) => {
            let idx = match vault.get_reserve_idx_in_allocation(&named.reserve) {
                Some(idx) => idx,
                None => {
                    return Err(KaminoVaultError::ReserveNotPartOfAllocations);
                },
            };
            if named.reserve.is_default() {
                return Err(KaminoVaultError::ReserveNotPartOfAllocations);
            }
            let owned: u64 = match reserve_ctokens_owned {
                Some(owned) => owned,
                None => 0,
            };
            disinvest_for_withdraw(
                &named.exchange_rate,
                invested.allocations[idx].liquidity_amount,
                needed,
                owned,
            )
        },
    }
}

/// Checks a sized withdrawal and books it.
fn withdraw_settle(
    vault: &mut VaultState,
    aum: Fraction,
    total_for_user: u64,
    reserve: Option<ReserveSnapshot>,
    d: Disinvestment,
    number_of_shares: u64,
) -> (r: Result<WithdrawEffects, KaminoVaultError>)
    ensures
        match r {
            Ok(effects) => withdraw_settle_spec(
                *old(vault),
                aum,
                total_for_user,
                reserve,
                d,
                number_of_shares,
            ) == Ok::<(VaultState, WithdrawEffects), KaminoVaultError>((*final(vault), effects)),
            Err(e) => withdraw_settle_spec(
                *old(vault),
                aum,
                total_for_user,
                reserve,
                d,
                number_of_shares,
            ) == Err::<(VaultState, WithdrawEffects), KaminoVaultError>(e)
                && *final(vault) == *old(vault),
        },
        old(vault).wf() ==> final(vault).wf(),
{
    broadcast use vstd::array::axiom_spec_array_update;

    // First max out from the idle balance.
    let available_to_send_to_user: u64 = if vault.token_available <= total_for_user {
        vault.token_available
    } else {
        total_for_user
    };
    let invested_liquidity_to_send_to_user: u64 = match d.liquidity_to_send.to_floor() {
        Some(whole) => whole,
        None => {
            return Err(KaminoVaultError::MathOverflow);
        },
    };
    if invested_liquidity_to_send_to_user < d.rounding_error {
        return Err(KaminoVaultError::MathOverflow);
    }
    let actual_invested_liquidity_to_send_to_user: u64 = invested_liquidity_to_send_to_user
        - d.rounding_error;
    let theoretical_amount_to_send_to_user = match Fraction::from_u64(
        available_to_send_to_user,
    ).checked_add(d.liquidity_to_send) {
        Some(theoretical) => theoretical,
        None => {
            return Err(KaminoVaultError::MathOverflow);
        },
    };
    let delivered: u128 = available_to_send_to_user as u128
        + actual_invested_liquidity_to_send_to_user as u128;
    let shares_to_burn: u64 = match calculate_shares_to_burn(
        Fraction::from_bits(delivered * crate::fraction::FRACTION_ONE_BITS),
        vault.shares_issued,
        aum,
        number_of_shares,
    ) {
        Ok(shares) => shares,
        Err(e) => {
            return Err(e);
        },
    };
    if d.liquidity_to_disinvest < actual_invested_liquidity_to_send_to_user {
        return Err(KaminoVaultError::NotEnoughLiquidityDisinvestedToSendToUser);
    }
    let disinvested_amount_left_in_vault: u64 = d.liquidity_to_disinvest
        - actual_invested_liquidity_to_send_to_user;
    // A withdrawal that burns no share is refused.
    if shares_to_burn == 0 {
        return Err(KaminoVaultError::WithdrawResultsInZeroShares);
    }
    if delivered < vault.min_withdraw_amount as u128 {
        return Err(KaminoVaultError::WithdrawAmountBelowMinimum);
    }
    if shares_to_burn > vault.shares_issued {
        return Err(KaminoVaultError::MathOverflow);
    }
    let token_available: u64 = match (vault.token_available
        - available_to_send_to_user).checked_add(disinvested_amount_left_in_vault) {
        Some(token_available) => token_available,
        None => {
            return Err(KaminoVaultError::MathOverflow);
        },
    };
    let prev_aum = match aum.checked_sub(theoretical_amount_to_send_to_user) {
        Some(prev_aum) => prev_aum,
        None => {
            return Err(KaminoVaultError::MathOverflow);
        },
    };
    let slot = match reserve {
        Some(named) => vault.get_reserve_idx_in_allocation(&named.reserve),
        None => None,
    };
    match slot {
        Some(idx) => {
            let held: u64 = vault.vault_allocation_strategy[idx].ctoken_allocation;
            if d.ctokens > held {
                return Err(KaminoVaultError::MathOverflow);
            }
            // The ledger changes only now that nothing can fail any more.
            vault.vault_allocation_strategy[idx].ctoken_allocation = held - d.ctokens;
            assert(vault.vault_allocation_strategy@ =~= vstd::array::spec_array_update(
                old(vault).vault_allocation_strategy,
                idx as int,
                crate::state::VaultAllocation {
                    ctoken_allocation: (held - d.ctokens) as u64,
                    ..old(vault).allocations()[idx as int]
                },
            )@);
        },
        None => {},
    }
    vault.token_available = token_available;
    vault.shares_issued = vault.shares_issued - shares_to_burn;
    vault.prev_aum_sf = prev_aum.to_bits();
    Ok(
        WithdrawEffects {
            shares_to_burn,
            available_to_send_to_user,
            invested_to_disinvest_ctokens: d.ctokens,
            invested_liquidity_to_send_to_user: actual_invested_liquidity_to_send_to_user,
            invested_liquidity_to_disinvest: d.liquidity_to_disinvest,
        },
    )
}

/// Redeems `number_of_shares` shares.
///
/// After fees, the shares are worth their proportional part of the vault's
/// value, rounded down; all shares together are worth all of it. The amount
/// is paid from the idle balance first. What is still owed is drawn from the
/// reserve named, if one is, as far as the vault's holding there and
/// `reserve_ctokens_owned` reach; see `disinvest_for_withdraw`. The shares
/// burned are those that the amount paid is worth, rounded up, and at most
/// `number_of_shares`. Liquidity that the redemption frees beyond the payment
/// stays in the vault as idle balance.
///
/// Fails, changing nothing, with `CannotWithdrawZeroShares` for no shares,
/// `VaultAUMZero` for a vault worth nothing, `ReserveNotPartOfAllocations` for
/// a named reserve without a slot, `NotEnoughLiquidityDisinvestedToSendToUser`
/// when the redemption pays out less than is sent on,
/// `WithdrawResultsInZeroShares` when no share would be burned,
/// `WithdrawAmountBelowMinimum` when the payment is below the vault's
/// minimum, and as the holdings, the fees and the arithmetic on the way fail.
pub fn withdraw(
    vault: &mut VaultState,
    reserve_to_withdraw_from: Option<ReserveSnapshot>,
    reserves: &[ReserveSnapshot],
    current_timestamp: u64,
    number_of_shares: u64,
    reserve_ctokens_owned: Option<u64>,
) -> (r: Result<WithdrawEffects, KaminoVaultError>)
    ensures
        match r {
            Ok(effects) => withdraw_spec(
                *old(vault),
                reserves@,
                reserve_to_withdraw_from,
                current_timestamp,
                number_of_shares,
                reserve_ctokens_owned,
            ) == Ok::<(VaultState, WithdrawEffects), KaminoVaultError>((*final(vault), effects)),
            Err(e) => withdraw_spec(
                *old(vault),
                reserves@,
                reserve_to_withdraw_from,
                current_timestamp,
                number_of_shares,
                reserve_ctokens_owned,
            ) == Err::<(VaultState, WithdrawEffects), KaminoVaultError>(e)
                && *final(vault) == *old(vault),
        },
        old(vault).wf() ==> final(vault).wf(),
{
    if number_of_shares == 0 {
        return Err(KaminoVaultError::CannotWithdrawZeroShares);
    }
    let holdings = match holdings(vault, reserves) {
        Ok(holdings) => holdings,
        Err(e) => {
            return Err(e);
        },
    };
    let mut next = *vault;
    match charge_fees(&mut next, &holdings.invested, current_timestamp) {
        Ok(()) => {},
        Err(e) => {
            return Err(e);
        },
    }
    // The user is entitled to the corresponding part of the total less the fees owed.
    let current_vault_aum = match next.compute_aum(&holdings.invested.total) {
        Ok(aum) => aum,
        Err(e) => {
            return Err(e);
        },
    };
    if current_vault_aum.bits == 0 {
        return Err(KaminoVaultError::VaultAUMZero);
    }
    let total_for_user: u64 = match compute_user_total_received_on_withdraw(
        next.shares_issued,
        current_vault_aum,
        number_of_shares,
    ) {
        Ok(total) => total,
        Err(e) => {
            return Err(e);
        },
    };
    let from_available: u64 = if next.token_available <= total_for_user {
        next.token_available
    } else {
        total_for_user
    };
    let disinvestment = match withdraw_disinvestment(
        &next,
        &holdings.invested,
        Ghost(reserves@),
        reserve_to_withdraw_from,
        total_for_user - from_available,
        reserve_ctokens_owned,
    ) {
        Ok(disinvestment) => disinvestment,
        Err(e) => {
            return Err(e);
        },
    };
    match withdraw_settle(
        &mut next,
        current_vault_aum,
        total_for_user,
        reserve_to_withdraw_from,
        disinvestment,
        number_of_shares,
    ) {
        Ok(effects) => {
            *vault = next;
            Ok(effects)
        },
        Err(e) => Err(e),
    }
}

/// Outcome of `disinvest_for_fees`.
pub open spec fn disinvest_for_fees_spec(
    rate: CollateralExchangeRate,
    invested_liquidity: Fraction,
    owed: Fraction,
) -> Result<Disinvestment, KaminoVaultError> {
    let to_send = min_int(invested_liquidity.bits as int, owed.bits as int);
    let ctokens_f = rate.liquidity_to_collateral_ceil_spec(floor_units(to_send) * scale());
    let disinvested_f = rate.collateral_to_liquidity_spec(ceil_units(ctokens_f) * scale());
    if floor_units(to_send) > u64::MAX {
        Err(KaminoVaultError::IntegerOverflow)
    } else if rate.liquidity_supply.bits == 0 || ceil_units(ctokens_f) > u64::MAX {
        Err(KaminoVaultError::IntegerOverflow)
    } else if rate.collateral_supply.bits == 0 || disinvested_f > u128::MAX {
        Err(KaminoVaultError::MathOverflow)
    } else if floor_units(disinvested_f) > u64::MAX {
        Err(KaminoVaultError::IntegerOverflow)
    } else {
        Ok(
            Disinvestment {
                liquidity_to_send: Fraction { bits: to_send as u128 },
                liquidity_to_disinvest: floor_units(disinvested_f) as u64,
                ctokens: ceil_units(ctokens_f) as u64,
                rounding_error: if frac_bits(disinvested_f) > 0 {
                    1
                } else {
                    0
                },
            },
        )
    }
}

/// Sizes the redemption that completes a payment of fees of which `owed` is
/// still due, from a reserve in which the vault holds `invested_liquidity`.
///
/// The collateral to redeem for the whole part of what is due is rounded up;
/// the liquidity that it pays out is rounded down, and one token is kept back
/// from the payee whenever that rounding loses anything.
pub fn disinvest_for_fees(
    rate: &CollateralExchangeRate,
    invested_liquidity: Fraction,
    owed: Fraction,
) -> (r: Result<Disinvestment, KaminoVaultError>)
    ensures
        r == disinvest_for_fees_spec(*rate, invested_liquidity, owed),
{
    let liquidity_to_send = invested_liquidity.min(owed);
    let whole_to_send: u64 = match liquidity_to_send.to_floor() {
        Some(whole) => whole,
        None => {
            return Err(KaminoVaultError::IntegerOverflow);
        },
    };
    let ctokens: u64 = match rate.liquidity_to_collateral_ceil(whole_to_send) {
        Some(ctokens) => ctokens,
        None => {
            return Err(KaminoVaultError::IntegerOverflow);
        },
    };
    let disinvested_f = match rate.fraction_collateral_to_liquidity(Fraction::from_u64(ctokens)) {
        Some(disinvested_f) => disinvested_f,
        None => {
            return Err(KaminoVaultError::MathOverflow);
        },
    };
    let liquidity_to_disinvest: u64 = match disinvested_f.to_floor() {
        Some(liquidity) => liquidity,
        None => {
            return Err(KaminoVaultError::IntegerOverflow);
        },
    };
    let rounding_error: u64 = if disinvested_f.frac().bits > 0 {
        1
    } else {
        0
    };
    Ok(Disinvestment { liquidity_to_send, liquidity_to_disinvest, ctokens, rounding_error })
}

/// A payment of the fees owed from a ledger on which fees have been charged.
pub open spec fn withdraw_pending_fees_after_fees(
    vault: VaultState,
    snaps: Seq<ReserveSnapshot>,
    reserve: ReserveSnapshot,
) -> Result<(VaultState, WithdrawPendingFeesEffects), KaminoVaultError> {
    let from_available = min_int(vault.token_available * scale(), vault.pending_fees_sf as int);
    match index_of(vault.allocations(), reserve.reserve, 0) {
        None => Err(KaminoVaultError::ReserveNotPartOfAllocations),
        Some(i) => if reserve.reserve.is_default_spec() {
            Err(KaminoVaultError::ReserveNotPartOfAllocations)
        } else {
            match disinvest_for_fees_spec(
                reserve.exchange_rate,
                invested_upto(vault.allocations(), snaps, 25)->Ok_0.entries[i].liquidity_amount,
                Fraction { bits: (vault.pending_fees_sf - from_available) as u128 },
            ) {
                Err(e) => Err(e),
                Ok(d) => {
                    let available_to_send = floor_units(from_available);
                    let to_send_whole = floor_units(d.liquidity_to_send.bits as int);
                    let actual = to_send_whole - d.rounding_error;
                    let left_in_vault = d.liquidity_to_disinvest - actual;
                    let delivered = (available_to_send + actual) * scale();
                    if to_send_whole < d.rounding_error {
                        Err(KaminoVaultError::MathOverflow)
                    } else if d.liquidity_to_disinvest < actual {
                        Err(KaminoVaultError::NotEnoughLiquidityDisinvestedToSendToUser)
                    } else if vault.token_available - available_to_send + left_in_vault
                        > u64::MAX || d.ctokens > vault.allocations()[i].ctoken_allocation
                        || delivered > vault.pending_fees_sf {
                        Err(KaminoVaultError::MathOverflow)
                    } else {
                        Ok(
                            (
                                VaultState {
                                    token_available: (vault.token_available - available_to_send
                                        + left_in_vault) as u64,
                                    pending_fees_sf: (vault.pending_fees_sf - delivered) as u128,
                                    vault_allocation_strategy: vstd::array::spec_array_update(
                                        vault.vault_allocation_strategy,
                                        i,
                                        crate::state::VaultAllocation {
                                            ctoken_allocation: (
                                            vault.allocations()[i].ctoken_allocation
                                                - d.ctokens) as u64,
                                            ..vault.allocations()[i]
                                        },
                                    ),
                                    ..vault
                                },
                                WithdrawPendingFeesEffects {
                                    available_to_send_to_user: available_to_send as u64,
                                    invested_to_disinvest_ctokens: d.ctokens,
                                    invested_liquidity_to_send_to_user: actual as u64,
                                    invested_liquidity_to_disinvest: d.liquidity_to_disinvest,
                                },
                            ),
                        )
                    }
                },
            }
        },
    }
}

/// Outcome of `withdraw_pending_fees`: the ledger it leaves and the effects it
/// reports, or the reason why it refuses.
pub open spec fn withdraw_pending_fees_spec(
    vault: VaultState,
    snaps: Seq<ReserveSnapshot>,
    reserve: ReserveSnapshot,
    now: u64,
) -> Result<(VaultState, WithdrawPendingFeesEffects), KaminoVaultError> {
    match holdings_error(vault, snaps) {
        Some(e) => Err(e),
        None => match charge_fees_spec(vault, invested_total(vault, snaps), now) {
            Err(e) => Err(e),
            Ok(after_fees) => withdraw_pending_fees_after_fees(after_fees, snaps, reserve),
        },
    }
}

/// Checks a sized payment of fees and books it.
fn withdraw_pending_fees_settle(
    vault: &mut VaultState,
    invested: &Invested,
    reserves: Ghost<Seq<ReserveSnapshot>>,
    reserve: &ReserveSnapshot,
) -> (r: Result<WithdrawPendingFeesEffects, KaminoVaultError>)
    requires
        invested_upto(old(vault).allocations(), reserves@, 25) matches Ok(t)
            && invested.allocations@ == t.entries,
    ensures
        match r {
            Ok(effects) => withdraw_pending_fees_after_fees(*old(vault), reserves@, *reserve)
                == Ok::<(VaultState, WithdrawPendingFeesEffects), KaminoVaultError>(
                (*final(vault), effects),
            ),
            Err(e) => withdraw_pending_fees_after_fees(*old(vault), reserves@, *reserve) == Err::<
                (VaultState, WithdrawPendingFeesEffects),
                KaminoVaultError,
            >(e) && *final(vault) == *old(vault),
        },
        old(vault).wf() ==> final(vault).wf(),
{
    broadcast use vstd::array::axiom_spec_array_update;

    let total_fees = vault.get_pending_fees();
    // Pay as much as possible from the idle balance.
    let available_to_send_f = Fraction::from_u64(vault.token_available).min(total_fees);
    let idx = match vault.get_reserve_idx_in_allocation(&reserve.reserve) {
        Some(idx) => idx,
        None => {
            return Err(KaminoVaultError::ReserveNotPartOfAllocations);
        },
    };
    if reserve.reserve.is_default() {
        return Err(KaminoVaultError::ReserveNotPartOfAllocations);
    }
    let still_owed = Fraction::from_bits(total_fees.to_bits() - available_to_send_f.to_bits());
    let d = match disinvest_for_fees(
        &reserve.exchange_rate,
        invested.allocations[idx].liquidity_amount,
        still_owed,
    ) {
        Ok(d) => d,
        Err(e) => {
            return Err(e);
        },
    };
    let available_to_send_to_user: u64 = match available_to_send_f.to_floor() {
        Some(whole) => whole,
        None => {
            return Err(KaminoVaultError::MathOverflow);
        },
    };
    let invested_liquidity_to_send_to_user: u64 = match d.liquidity_to_send.to_floor() {
        Some(whole) => whole,
        None => {
            return Err(KaminoVaultError::MathOverflow);
        },
    };
    if invested_liquidity_to_send_to_user < d.rounding_error {
        return Err(KaminoVaultError::MathOverflow);
    }
    let actual_invested_liquidity_to_send_to_user: u64 = invested_liquidity_to_send_to_user
        - d.rounding_error;
    if d.liquidity_to_disinvest < actual_invested_liquidity_to_send_to_user {
        return Err(KaminoVaultError::NotEnoughLiquidityDisinvestedToSendToUser);
    }
    let disinvested_amount_left_in_vault: u64 = d.liquidity_to_disinvest
        - actual_invested_liquidity_to_send_to_user;
    let token_available: u64 = match (vault.token_available
        - available_to_send_to_user).checked_add(disinvested_amount_left_in_vault) {
        Some(token_available) => token_available,
        None => {
            return Err(KaminoVaultError::MathOverflow);
        },
    };
    let held: u64 = vault.vault_allocation_strategy[idx].ctoken_allocation;
    if d.ctokens > held {
        return Err(KaminoVaultError::MathOverflow);
    }
    let delivered: u128 = (available_to_send_to_user as u128
        + actual_invested_liquidity_to_send_to_user as u128) * crate::fraction::FRACTION_ONE_BITS;
    if delivered > total_fees.to_bits() {
        return Err(KaminoVaultError::MathOverflow);
    }
    // The ledger changes only now that nothing can fail any more.
    vault.vault_allocation_strategy[idx].ctoken_allocation = held - d.ctokens;
    assert(vault.vault_allocation_strategy@ =~= vstd::array::spec_array_update(
        old(vault).vault_allocation_strategy,
        idx as int,
        crate::state::VaultAllocation {
            ctoken_allocation: (held - d.ctokens) as u64,
            ..old(vault).allocations()[idx as int]
        },
    )@);
    vault.token_available = token_available;
    vault.pending_fees_sf = total_fees.to_bits() - delivered;
    Ok(
        WithdrawPendingFeesEffects {
            available_to_send_to_user,
            invested_to_disinvest_ctokens: d.ctokens,
            invested_liquidity_to_send_to_user: actual_invested_liquidity_to_send_to_user,
            invested_liquidity_to_disinvest: d.liquidity_to_disinvest,
        },
    )
}

/// Pays out the fees owed.
///
/// After fees are charged, as much of what is owed as the idle balance covers
/// is paid from it, in whole tokens. The rest is drawn from `reserve`, as far
/// as the vault's holding there reaches; see `disinvest_for_fees`. The fees
/// owed go down by what is paid. Liquidity that the redemption frees beyond
/// the payment stays in the vault as idle balance.
///
/// Fails, changing nothing, with `ReserveNotPartOfAllocations` for a reserve
/// without a slot, with `NotEnoughLiquidityDisinvestedToSendToUser` when the
/// redemption pays out less than is sent on, and as the holdings, the fees
/// and the arithmetic on the way fail.
pub fn withdraw_pending_fees(
    vault: &mut VaultState,
    reserve_to_withdraw_from: &ReserveSnapshot,
    reserves: &[ReserveSnapshot],
    current_timestamp: u64,
) -> (r: Result<WithdrawPendingFeesEffects, KaminoVaultError>)
    ensures
        match r {
            Ok(effects) => withdraw_pending_fees_spec(
                *old(vault),
                reserves@,
                *reserve_to_withdraw_from,
                current_timestamp,
            ) == Ok::<(VaultState, WithdrawPendingFeesEffects), KaminoVaultError>(
                (*final(vault), effects),
            ),
            Err(e) => withdraw_pending_fees_spec(
                *old(vault),
                reserves@,
                *reserve_to_withdraw_from,
                current_timestamp,
            ) == Err::<(VaultState, WithdrawPendingFeesEffects), KaminoVaultError>(e)
                && *final(vault) == *old(vault),
        },
        old(vault).wf() ==> final(vault).wf(),
{
    let holdings = match holdings(vault, reserves) {
        Ok(holdings) => holdings,
        Err(e) => {
            return Err(e);
        },
    };
    let mut next = *vault;
    match charge_fees(&mut next, &holdings.invested, current_timestamp) {
        Ok(()) => {},
        Err(e) => {
            return Err(e);
        },
    }
    match withdraw_pending_fees_settle(
        &mut next,
        &holdings.invested,
        Ghost(reserves@),
        reserve_to_withdraw_from,
    ) {
        Ok(effects) => {
            *vault = next;
            Ok(effects)
        },
        Err(e) => Err(e),
    }
}

/// The ledger after up to `max_amount_to_give_up` of the fees owed are
/// forgiven at `now`, on a ledger on which fees have been charged.
pub open spec fn given_up(vault: VaultState, total_sum: Fraction, now: u64, max_amount: u64)
    -> VaultState {
    let forgiven = min_int(max_amount * scale(), vault.pending_fees_sf as int);
    let new_pending = vault.pending_fees_sf - forgiven;
    VaultState {
        pending_fees_sf: new_pending as u128,
        last_fee_charge_timestamp: now,
        prev_aum_sf: if total_sum.bits >= new_pending {
            (total_sum.bits - new_pending) as u128
        } else {
            0
        },
        ..vault
    }
}

/// Outcome of `give_up_pending_fee`.
pub open spec fn give_up_pending_fee_spec(
    vault: VaultState,
    snaps: Seq<ReserveSnapshot>,
    now: u64,
    max_amount_to_give_up: u64,
) -> Result<VaultState, KaminoVaultError> {
    match holdings_error(vault, snaps) {
        Some(e) => Err(e),
        None => match charge_fees_spec(vault, invested_total(vault, snaps), now) {
            Err(e) => Err(e),
            Ok(after_fees) => Ok(
                given_up(
                    after_fees,
                    Fraction {
                        bits: (vault.token_available * scale() + invested_total(
                            vault,
                            snaps,
                        ).bits) as u128,
                    },
                    now,
                    max_amount_to_give_up,
                ),
            ),
        },
    }
}

/// Forgives up to `max_amount_to_give_up` of the fees owed, to unlock a vault
/// that suffered a loss.
///
/// Fees are charged first. Then the fees owed go down by the lesser of the
/// amount given and all of them, and fee tracking starts afresh: the value
/// that growth is next measured from becomes what the vault holds less the
/// fees still owed, or zero when they exceed it.
pub fn give_up_pending_fee(
    vault: &mut VaultState,
    reserves: &[ReserveSnapshot],
    current_timestamp: u64,
    max_amount_to_give_up: u64,
) -> (r: Result<(), KaminoVaultError>)
    ensures
        match r {
            Ok(()) => give_up_pending_fee_spec(
                *old(vault),
                reserves@,
                current_timestamp,
                max_amount_to_give_up,
            ) == Ok::<VaultState, KaminoVaultError>(*final(vault)),
            Err(e) => give_up_pending_fee_spec(
                *old(vault),
                reserves@,
                current_timestamp,
                max_amount_to_give_up,
            ) == Err::<VaultState, KaminoVaultError>(e) && *final(vault) == *old(vault),
        },
        old(vault).wf() ==> final(vault).wf(),
{
    let holdings = match holdings(vault, reserves) {
        Ok(holdings) => holdings,
        Err(e) => {
            return Err(e);
        },
    };
    let mut next = *vault;
    match charge_fees(&mut next, &holdings.invested, current_timestamp) {
        Ok(()) => {},
        Err(e) => {
            return Err(e);
        },
    }
    let pending_fees = next.get_pending_fees();
    let amount_to_give_up = Fraction::from_u64(max_amount_to_give_up).min(pending_fees);
    let new_pending_fees = pending_fees.saturating_sub(amount_to_give_up);
    next.pending_fees_sf = new_pending_fees.to_bits();
    next.last_fee_charge_timestamp = current_timestamp;
    next.prev_aum_sf = holdings.total_sum.saturating_sub(new_pending_fees).to_bits();
    *vault = next;
    Ok(())
}

/// Outcome of `invest_sizing`.
pub open spec fn invest_sizing_spec(
    rate: CollateralExchangeRate,
    slot: VaultAllocation,
    actual: Fraction,
    available: u64,
    min_invest_amount: u64,
) -> Result<InvestEffects, KaminoVaultError> {
    let target = slot.token_target_allocation_sf as int;
    let subtract = actual.bits > target;
    let liquidity_f = if subtract {
        actual.bits - target
    } else {
        min_int(target - actual.bits, available * scale())
    };
    let collateral_f = rate.liquidity_to_collateral_spec(liquidity_f);
    let collateral = if slot.target_allocation_weight == 0 {
        slot.ctoken_allocation as int
    } else {
        floor_units(collateral_f)
    };
    let back_f = rate.collateral_to_liquidity_spec(collateral * scale());
    let amount = if subtract {
        floor_units(back_f)
    } else {
        ceil_units(back_f)
    };
    if liquidity_f <= min_invest_amount * scale() {
        Err(KaminoVaultError::InvestAmountBelowMinimum)
    } else if slot.target_allocation_weight != 0 && (rate.liquidity_supply.bits == 0
        || collateral_f > u128::MAX) {
        Err(KaminoVaultError::MathOverflow)
    } else if slot.target_allocation_weight != 0 && floor_units(collateral_f) > u64::MAX {
        Err(KaminoVaultError::IntegerOverflow)
    } else if rate.collateral_supply.bits == 0 || back_f > u128::MAX {
        Err(KaminoVaultError::MathOverflow)
    } else if amount > u64::MAX {
        Err(KaminoVaultError::IntegerOverflow)
    } else {
        Ok(
            InvestEffects {
                direction: if subtract {
                    InvestingDirection::Subtract
                } else {
                    InvestingDirection::Add
                },
                liquidity_amount: amount as u64,
                collateral_amount: collateral as u64,
                rounding_loss: if frac_bits(back_f) > 0 {
                    1
                } else {
                    0
                },
            },
        )
    }
}

/// Sizes the move that brings what the vault holds in a reserve, `actual`,
/// towards the target of the reserve's slot.
///
/// Above target, the difference is taken out; at or below it, the difference
/// is put in, as far as the idle balance `available` reaches. The difference
/// is turned into collateral units rounding down; a reserve of weight zero is
/// left altogether. The liquidity that this collateral stands for is what is
/// moved: rounded up when put in, down when taken out. `rounding_loss` is one
/// token when that liquidity is not whole.
///
/// Fails with `InvestAmountBelowMinimum` when the difference is at or below
/// `min_invest_amount`, and as the conversions fail.
pub fn invest_sizing(
    rate: &CollateralExchangeRate,
    slot: &VaultAllocation,
    actual: Fraction,
    available: u64,
    min_invest_amount: u64,
) -> (r: Result<InvestEffects, KaminoVaultError>)
    ensures
        r == invest_sizing_spec(*rate, *slot, actual, available, min_invest_amount),
{
    let target = slot.get_token_target_allocation();
    let (liquidity_f, direction) = if actual.bits > target.bits {
        (Fraction::from_bits(actual.bits - target.bits), InvestingDirection::Subtract)
    } else {
        (
            Fraction::from_bits(target.bits - actual.bits).min(Fraction::from_u64(available)),
            InvestingDirection::Add,
        )
    };
    if liquidity_f.bits <= Fraction::from_u64(min_invest_amount).bits {
        return Err(KaminoVaultError::InvestAmountBelowMinimum);
    }
    let collateral_amount: u64 = if slot.target_allocation_weight == 0 {
        slot.ctoken_allocation
    } else {
        let collateral_f = match rate.fraction_liquidity_to_collateral(liquidity_f) {
            Some(collateral_f) => collateral_f,
            None => {
                return Err(KaminoVaultError::MathOverflow);
            },
        };
        match collateral_f.to_floor() {
            Some(collateral) => collateral,
            None => {
                return Err(KaminoVaultError::IntegerOverflow);
            },
        }
    };
    // Recompute the liquidity from the collateral to know how much will
    // really be received or has to be put in.
    let liquidity_amount_f = match rate.fraction_collateral_to_liquidity(
        Fraction::from_u64(collateral_amount),
    ) {
        Some(liquidity_amount_f) => liquidity_amount_f,
        None => {
            return Err(KaminoVaultError::MathOverflow);
        },
    };
    let rounding_loss: u64 = if liquidity_amount_f.frac().bits > 0 {
        1
    } else {
        0
    };
    let liquidity_amount = match direction {
        // The minimum liquidity needed to get the collateral.
        InvestingDirection::Add => liquidity_amount_f.to_ceil(),
        // The liquidity that will be received for the collateral.
        InvestingDirection::Subtract => liquidity_amount_f.to_floor(),
    };
    match liquidity_amount {
        Some(liquidity_amount) => Ok(
            InvestEffects { direction, liquidity_amount, collateral_amount, rounding_loss },
        ),
        None => Err(KaminoVaultError::IntegerOverflow),
    }
}

/// The ledger and the effects after a sized move is booked on slot `i` at `current_slot`.
///
/// The idle balance changes by the whole tokens that the collateral moved is
/// worth, rounded down. The rounding loss is taken from the crank funds when
/// they cover it, and reported otherwise.
pub open spec fn invest_booked(vault: VaultState, i: int, sizing: InvestEffects, current_slot: u64)
    -> Result<(VaultState, InvestEffects), KaminoVaultError> {
    let slot = vault.allocations()[i];
    let add = sizing.direction is Add;
    let token_available = if add {
        vault.token_available - (sizing.liquidity_amount - sizing.rounding_loss)
    } else {
        vault.token_available + (sizing.liquidity_amount + sizing.rounding_loss)
    };
    let ctokens = if add {
        slot.ctoken_allocation + sizing.collateral_amount
    } else {
        slot.ctoken_allocation - sizing.collateral_amount
    };
    let covered = vault.available_crank_funds >= sizing.rounding_loss;
    if sizing.liquidity_amount < sizing.rounding_loss && add || token_available < 0
        || token_available > u64::MAX || ctokens < 0 || ctokens > u64::MAX {
        Err(KaminoVaultError::MathOverflow)
    } else {
        Ok(
            (
                VaultState {
                    token_available: token_available as u64,
                    available_crank_funds: if covered {
                        (vault.available_crank_funds - sizing.rounding_loss) as u64
                    } else {
                        vault.available_crank_funds
                    },
                    vault_allocation_strategy: vstd::array::spec_array_update(
                        vault.vault_allocation_strategy,
                        i,
                        VaultAllocation {
                            ctoken_allocation: ctokens as u64,
                            last_invest_slot: current_slot,
                            ..slot
                        },
                    ),
                    ..vault
                },
                InvestEffects {
                    rounding_loss: if covered {
                        0
                    } else {
                        sizing.rounding_loss
                    },
                    ..sizing
                },
            ),
        )
    }
}

/// An invest call on a ledger on which fees have been charged and targets
/// have been refreshed.
pub open spec fn invest_after_refresh(
    vault: VaultState,
    snaps: Seq<ReserveSnapshot>,
    reserve: ReserveSnapshot,
    current_slot: u64,
) -> Result<(VaultState, InvestEffects), KaminoVaultError> {
    match index_of(vault.allocations(), reserve.reserve, 0) {
        None => Err(KaminoVaultError::ReserveNotPartOfAllocations),
        Some(i) => if reserve.reserve.is_default_spec() {
            Err(KaminoVaultError::ReserveNotPartOfAllocations)
        } else if current_slot < vault.allocations()[i].last_invest_slot
            + vault.min_invest_delay_slots {
            Err(KaminoVaultError::InvestTooSoon)
        } else {
            match invest_sizing_spec(
                reserve.exchange_rate,
                vault.allocations()[i],
                invested_upto(vault.allocations(), snaps, 25)->Ok_0.entries[i].liquidity_amount,
                vault.token_available,
                vault.min_invest_amount,
            ) {
                Err(e) => Err(e),
                Ok(sizing) => invest_booked(vault, i, sizing, current_slot),
            }
        },
    }
}

/// Outcome of `invest`: the ledger it leaves and the effects it reports, or
/// the reason why it refuses.
pub open spec fn invest_spec(
    vault: VaultState,
    snaps: Seq<ReserveSnapshot>,
    reserve: ReserveSnapshot,
    current_slot: u64,
    now: u64,
) -> Result<(VaultState, InvestEffects), KaminoVaultError> {
    match holdings_error(vault, snaps) {
        Some(e) => Err(e),
        None => match charge_fees_spec(vault, invested_total(vault, snaps), now) {
            Err(e) => Err(e),
            Ok(after_fees) => match refresh_targets_with(
                after_fees,
                invested_total(vault, snaps),
                false,
            ) {
                Err(e) => Err(e),
                Ok(targets) => invest_after_refresh(
                    with_targets(after_fees, targets),
                    snaps,
                    reserve,
                    current_slot,
                ),
            },
        },
    }
}

/// What holds in a valued table is for the table's own reserves.
proof fn lemma_no_mismatch(vault: VaultState, invested: Invested, snaps: Seq<ReserveSnapshot>, n: int)
    requires
        0 <= n <= 25,
        invested_upto(vault.allocations(), snaps, 25) matches Ok(t) && invested.allocations@
            == t.entries,
    ensures
        first_mismatch(vault.allocations(), invested, n) is None,
    decreases n,
{
    if n > 0 {
        lemma_no_mismatch(vault, invested, snaps, n - 1);
        lemma_invested_entries(vault.allocations(), snaps, 25);
        let t = invested_upto(vault.allocations(), snaps, 25)->Ok_0;
        assert(t.entries[n - 1].reserve == vault.allocations()[n - 1].reserve);
        assert(invested.allocations[n - 1] == t.entries[n - 1]);
    }
}

/// Books a sized move on the slot at `idx`.
fn invest_book(vault: &mut VaultState, idx: usize, sizing: InvestEffects, current_slot: u64) -> (r:
    Result<InvestEffects, KaminoVaultError>)
    requires
        idx < 25,
        sizing.rounding_loss <= 1,
    ensures
        match r {
            Ok(effects) => invest_booked(*old(vault), idx as int, sizing, current_slot) == Ok::<
                (VaultState, InvestEffects),
                KaminoVaultError,
            >((*final(vault), effects)),
            Err(e) => invest_booked(*old(vault), idx as int, sizing, current_slot) == Err::<
                (VaultState, InvestEffects),
                KaminoVaultError,
            >(e) && *final(vault) == *old(vault),
        },
        old(vault).wf() ==> final(vault).wf(),
{
    broadcast use vstd::array::axiom_spec_array_update;

    let held: u64 = vault.vault_allocation_strategy[idx].ctoken_allocation;
    let (token_available, ctokens) = match sizing.direction {
        InvestingDirection::Add => {
            if sizing.liquidity_amount < sizing.rounding_loss {
                return Err(KaminoVaultError::MathOverflow);
            }
            let moved: u64 = sizing.liquidity_amount - sizing.rounding_loss;
            if moved > vault.token_available {
                return Err(KaminoVaultError::MathOverflow);
            }
            (Some(vault.token_available - moved), held.checked_add(sizing.collateral_amount))
        },
        InvestingDirection::Subtract => {
            let moved: u128 = sizing.liquidity_amount as u128 + sizing.rounding_loss as u128;
            let sum: u128 = vault.token_available as u128 + moved;
            if sum > u64::MAX as u128 {
                return Err(KaminoVaultError::MathOverflow);
            }
            (Some(sum as u64), held.checked_sub(sizing.collateral_amount))
        },
    };
    match (token_available, ctokens) {
        (Some(token_available), Some(ctokens)) => {
            // The ledger changes only now that nothing can fail any more.
            vault.token_available = token_available;
            let mut slot = vault.vault_allocation_strategy[idx];
            slot.ctoken_allocation = ctokens;
            slot.last_invest_slot = current_slot;
            vault.vault_allocation_strategy[idx] = slot;
            assert(vault.vault_allocation_strategy@ =~= vstd::array::spec_array_update(
                old(vault).vault_allocation_strategy,
                idx as int,
                VaultAllocation {
                    ctoken_allocation: ctokens,
                    last_invest_slot: current_slot,
                    ..old(vault).allocations()[idx as int]
                },
            )@);
            // The rounding loss is reported for compensation only when the
            // crank funds cannot cover it.
            let mut rounding_loss: u64 = sizing.rounding_loss;
            if vault.available_crank_funds >= rounding_loss {
                vault.available_crank_funds = vault.available_crank_funds - rounding_loss;
                rounding_loss = 0;
            }
            Ok(
                InvestEffects {
                    direction: sizing.direction,
                    liquidity_amount: sizing.liquidity_amount,
                    collateral_amount: sizing.collateral_amount,
                    rounding_loss,
                },
            )
        },
        _ => Err(KaminoVaultError::MathOverflow),
    }
}

/// Checks an invest call on a refreshed ledger, sizes the move and books it.
fn invest_settle(
    vault: &mut VaultState,
    invested: &Invested,
    reserves: Ghost<Seq<ReserveSnapshot>>,
    reserve: &ReserveSnapshot,
    current_slot: u64,
) -> (r: Result<InvestEffects, KaminoVaultError>)
    requires
        invested_upto(old(vault).allocations(), reserves@, 25) matches Ok(t)
            && invested.allocations@ == t.entries,
    ensures
        match r {
            Ok(effects) => invest_after_refresh(*old(vault), reserves@, *reserve, current_slot)
                == Ok::<(VaultState, InvestEffects), KaminoVaultError>((*final(vault), effects)),
            Err(e) => invest_after_refresh(*old(vault), reserves@, *reserve, current_slot) == Err::<
                (VaultState, InvestEffects),
                KaminoVaultError,
            >(e) && *final(vault) == *old(vault),
        },
        old(vault).wf() ==> final(vault).wf(),
{
    let idx = match vault.get_reserve_idx_in_allocation(&reserve.reserve) {
        Some(idx) => idx,
        None => {
            return Err(KaminoVaultError::ReserveNotPartOfAllocations);
        },
    };
    if reserve.reserve.is_default() {
        return Err(KaminoVaultError::ReserveNotPartOfAllocations);
    }
    let slot = vault.vault_allocation_strategy[idx];
    if (current_slot as u128) < (slot.last_invest_slot as u128) + (
    vault.min_invest_delay_slots as u128) {
        return Err(KaminoVaultError::InvestTooSoon);
    }
    let sizing = match invest_sizing(
        &reserve.exchange_rate,
        &slot,
        invested.allocations[idx].liquidity_amount,
        vault.token_available,
        vault.min_invest_amount,
    ) {
        Ok(sizing) => sizing,
        Err(e) => {
            return Err(e);
        },
    };
    invest_book(vault, idx, sizing, current_slot)
}

/// Moves the vault's holding in `reserve` towards its target.
///
/// Fees are charged and every reserve's target is recomputed first. Then the
/// move is sized, see `invest_sizing`, and booked: the idle balance and the
/// collateral held change by what is moved, and the slot records
/// `current_slot`.
///
/// Fails, changing nothing, with `ReserveNotPartOfAllocations` for a reserve
/// without a slot, with `InvestTooSoon` when fewer than the vault's
/// `min_invest_delay_slots` have passed since the reserve's last invest, with
/// `InvestAmountBelowMinimum` when what is to be moved is at or below the
/// vault's minimum, and as the holdings, the fees, the targets and the
/// arithmetic on the way fail.
pub fn invest(
    vault: &mut VaultState,
    reserves: &[ReserveSnapshot],
    reserve: &ReserveSnapshot,
    current_slot: u64,
    current_timestamp: u64,
) -> (r: Result<InvestEffects, KaminoVaultError>)
    ensures
        match r {
            Ok(effects) => invest_spec(
                *old(vault),
                reserves@,
                *reserve,
                current_slot,
                current_timestamp,
            ) == Ok::<(VaultState, InvestEffects), KaminoVaultError>((*final(vault), effects)),
            Err(e) => invest_spec(*old(vault), reserves@, *reserve, current_slot, current_timestamp)
                == Err::<(VaultState, InvestEffects), KaminoVaultError>(e)
                && *final(vault) == *old(vault),
        },
        old(vault).wf() ==> final(vault).wf(),
{
    let holdings = match holdings(vault, reserves) {
        Ok(holdings) => holdings,
        Err(e) => {
            return Err(e);
        },
    };
    let mut next = *vault;
    match charge_fees(&mut next, &holdings.invested, current_timestamp) {
        Ok(()) => {},
        Err(e) => {
            return Err(e);
        },
    }
    proof {
        lemma_no_mismatch(next, holdings.invested, reserves@, 25);
    }
    let ghost after_fees = next;
    match next.refresh_target_allocations(&holdings.invested) {
        Ok(()) => {},
        Err(e) => {
            return Err(e);
        },
    }
    proof {
        let targets = refresh_targets_with(after_fees, holdings.invested.total, false)->Ok_0;
        crate::state::target_allocations::lemma_install_upto(
            after_fees.vault_allocation_strategy,
            targets,
            25,
        );
        assert forall|j: int| 0 <= j < 25 implies (#[trigger] next.allocations()[j]).reserve
            == vault.allocations()[j].reserve && next.allocations()[j].ctoken_allocation
            == vault.allocations()[j].ctoken_allocation
            && next.allocations()[j].target_allocation_weight
            == vault.allocations()[j].target_allocation_weight by {
            assert(next.allocations()[j] == crate::state::target_allocations::install_upto(
                after_fees.vault_allocation_strategy,
                targets,
                25,
            )[j]);
        }
        lemma_same_holdings(vault.allocations(), next.allocations(), reserves@, 25);
    }
    match invest_settle(&mut next, &holdings.invested, Ghost(reserves@), reserve, current_slot) {
        Ok(effects) => {
            *vault = next;
            Ok(effects)
        },
        Err(e) => Err(e),
    }
}

/// The accounts that a vault is made of.
#[derive(Clone, Copy, Debug, PartialEq, Eq)]
pub struct VaultIdentities {
    /// Who administers the vault, and at first its allocations too.
    pub admin_authority: Pubkey,
    pub base_vault_authority: Pubkey,
    pub base_vault_authority_bump: u8,
    pub token_mint: Pubkey,
    pub token_vault: Pubkey,
    pub token_program: Pubkey,
    pub shares_mint: Pubkey,
}

/// The ledger with its identities set and its start recorded, before it is
/// checked and seeded.
pub open spec fn identified(
    vault: VaultState,
    identities: VaultIdentities,
    token_decimals: u8,
    shares_decimals: u8,
    now: u64,
) -> VaultState {
    VaultState {
        vault_admin_authority: identities.admin_authority,
        allocation_admin: identities.admin_authority,
        token_mint: identities.token_mint,
        token_vault: identities.token_vault,
        token_program: identities.token_program,
        base_vault_authority: identities.base_vault_authority,
        shares_mint: identities.shares_mint,
        base_vault_authority_bump: identities.base_vault_authority_bump as u64,
        token_mint_decimals: token_decimals as u64,
        shares_mint_decimals: shares_decimals as u64,
        token_available: 0,
        shares_issued: 0,
        creation_timestamp: now,
        ..vault
    }
}

/// Outcome of `init_vault`.
pub open spec fn init_vault_spec(
    vault: VaultState,
    identities: VaultIdentities,
    token_decimals: u8,
    shares_decimals: u8,
    snaps: Seq<ReserveSnapshot>,
    now: u64,
) -> Result<(VaultState, DepositEffects), KaminoVaultError> {
    let prepared = identified(vault, identities, token_decimals, shares_decimals, now);
    match prepared.validate_spec() {
        Err(e) => Err(e),
        Ok(()) => deposit_spec(prepared, snaps, 1000, now),
    }
}

/// Sets up a vault and takes its seed deposit.
///
/// The ledger is given its identities, checked as by `initialize`, and takes
/// a first deposit of `INITIAL_DEPOSIT_AMOUNT` tokens from its admin, which
/// fixes the first share price. Fails, changing nothing, as `initialize` and
/// `deposit` fail.
pub fn init_vault(
    vault: &mut VaultState,
    identities: VaultIdentities,
    token_decimals: u8,
    shares_decimals: u8,
    reserves: &[ReserveSnapshot],
    current_timestamp: u64,
) -> (r: Result<DepositEffects, KaminoVaultError>)
    ensures
        match r {
            Ok(effects) => init_vault_spec(
                *old(vault),
                identities,
                token_decimals,
                shares_decimals,
                reserves@,
                current_timestamp,
            ) == Ok::<(VaultState, DepositEffects), KaminoVaultError>((*final(vault), effects)),
            Err(e) => init_vault_spec(
                *old(vault),
                identities,
                token_decimals,
                shares_decimals,
                reserves@,
                current_timestamp,
            ) == Err::<(VaultState, DepositEffects), KaminoVaultError>(e)
                && *final(vault) == *old(vault),
        },
        old(vault).wf() ==> final(vault).wf(),
{
    let mut next = *vault;
    next.vault_admin_authority = identities.admin_authority;
    next.allocation_admin = identities.admin_authority;
    next.token_mint = identities.token_mint;
    next.token_vault = identities.token_vault;
    next.token_program = identities.token_program;
    next.base_vault_authority = identities.base_vault_authority;
    next.shares_mint = identities.shares_mint;
    next.base_vault_authority_bump = identities.base_vault_authority_bump as u64;
    match initialize(&mut next, token_decimals, shares_decimals, current_timestamp) {
        Ok(()) => {},
        Err(e) => {
            return Err(e);
        },
    }
    match deposit(&mut next, reserves, INITIAL_DEPOSIT_AMOUNT, current_timestamp) {
        Ok(effects) => {
            *vault = next;
            Ok(effects)
        },
        Err(e) => Err(e),
    }
}

} // verus!
