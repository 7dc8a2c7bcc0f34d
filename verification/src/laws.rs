//! What holds of the vault's operations whatever the ledger and the inputs.
use crate::fraction::{ceil_units, floor_units, frac_bits, scale, Fraction};
use crate::operations::effects::{DepositEffects, WithdrawEffects};
use crate::operations::vault_checks::{
    deposit_check_spec, withdraw_check_spec, VaultAndUserBalances,
};
use crate::operations::vault_operations::common::{
    amount_to_deposit_spec, compute_user_total_received_on_withdraw_spec, shares_to_mint_spec,
};
use crate::operations::vault_operations::common::{
    holdings_error, invested_upto, lemma_same_holdings,
};
use crate::operations::vault_operations::{
    aum_or_zero, charge_fees_spec, charged, crank_funds_spec, deposit_after_fees, deposit_spec,
    invest_after_refresh, invest_booked, invest_sizing_spec, invest_spec, invested_total,
    give_up_pending_fee_spec, new_fees_bits, withdraw_after_fees, withdraw_pending_fees_spec,
    withdraw_spec,
};
use crate::state::target_allocations::{lemma_install_upto, refresh_targets_with, with_targets};
use crate::reserve::{CollateralExchangeRate, ReserveSnapshot};
use crate::state::{VaultAllocation, VaultState};
use crate::utils::wide_math::{mul_div_ceil_spec, mul_div_floor_spec};
use vstd::arithmetic::div_mod::{
    lemma_div_is_ordered, lemma_div_multiples_vanish, lemma_fundamental_div_mod,
    lemma_fundamental_div_mod_converse,
};
use vstd::prelude::*;

verus! {

/// A vault whose slots are vacant holds nothing in reserves, whatever
/// snapshots it is shown.
pub proof fn lemma_vacant_table_holds_nothing(
    allocs: Seq<VaultAllocation>,
    snaps: Seq<ReserveSnapshot>,
    n: int,
)
    requires
        0 <= n,
        forall|i: int| 0 <= i < n ==> !(#[trigger] allocs[i]).is_live(),
    ensures
        crate::operations::vault_operations::common::invested_upto(allocs, snaps, n) matches Ok(t)
            && t.total == 0 && t.used == 0,
    decreases n,
{
    if n > 0 {
        lemma_vacant_table_holds_nothing(allocs, snaps, n - 1);
    }
}

/// Charging fees changes neither balances nor shares nor the allocation table.
pub proof fn lemma_charge_fees_frame(vault: VaultState, invested_total: Fraction, now: u64)
    ensures
        ({
            let after = charged(vault, invested_total, now);
            &&& after.token_available == vault.token_available
            &&& after.shares_issued == vault.shares_issued
            &&& after.available_crank_funds == vault.available_crank_funds
            &&& after.vault_allocation_strategy == vault.vault_allocation_strategy
            &&& after.min_deposit_amount == vault.min_deposit_amount
            &&& after.min_withdraw_amount == vault.min_withdraw_amount
        }),
{
}

/// The crank funds set aside by a deposit are not negative.
pub proof fn lemma_crank_funds_nonnegative(vault: VaultState)
    ensures
        0 <= crank_funds_spec(vault),
{
    crate::state::lemma_count_bounds(vault.allocations(), 25);
    assert(0 <= crate::state::count_funded(vault.allocations(), 25)
        * vault.crank_fund_fee_per_reserve) by (nonlinear_arith)
        requires
            0 <= crate::state::count_funded(vault.allocations(), 25),
            0 <= vault.crank_fund_fee_per_reserve,
    ;
}

/// A first deposit is taken one for one: into a vault that has issued no
/// shares, whatever is tendered beside the crank funds is the amount
/// deposited and the number of shares minted.
pub proof fn lemma_bootstrap_deposit(
    vault: VaultState,
    snaps: Seq<ReserveSnapshot>,
    max_amount: u64,
    now: u64,
)
    requires
        vault.shares_issued == 0,
        deposit_spec(vault, snaps, max_amount, now) is Ok,
    ensures
        ({
            let effects = deposit_spec(vault, snaps, max_amount, now)->Ok_0.1;
            &&& effects.crank_funds_to_deposit == crank_funds_spec(vault)
            &&& effects.shares_to_mint == max_amount - crank_funds_spec(vault)
            &&& effects.token_to_deposit == max_amount - crank_funds_spec(vault)
        }),
{
    let total = invested_total(vault, snaps);
    lemma_crank_funds_nonnegative(vault);
    lemma_charge_fees_frame(vault, total, now);
    let after_fees = charge_fees_spec(vault, total, now)->Ok_0;
    assert(after_fees == charged(vault, total, now));
    let tendered = (max_amount - crank_funds_spec(vault)) as u64;
    assert(deposit_spec(vault, snaps, max_amount, now) == deposit_after_fees(
        after_fees,
        total,
        tendered,
        crank_funds_spec(vault) as u64,
    ));
}

/// Rounding up to whole units gives at most `units` when the bits are at most
/// `units` whole units.
proof fn lemma_ceil_units_at_most(bits: int, units: int)
    requires
        0 <= bits <= units * scale(),
    ensures
        ceil_units(bits) <= units,
{
    lemma_div_is_ordered(bits + scale() - 1, units * scale() + scale() - 1, scale());
    lemma_fundamental_div_mod_converse(
        units * scale() + scale() - 1,
        scale(),
        units,
        scale() - 1,
    );
}

/// Bits are at most their whole units rounded up.
proof fn lemma_ceil_units_covers(bits: int)
    requires
        0 <= bits,
    ensures
        bits <= ceil_units(bits) * scale(),
        floor_units(bits) * scale() <= bits,
        floor_units(bits) * scale() + frac_bits(bits) == bits,
        frac_bits(bits) > 0 ==> ceil_units(bits) == floor_units(bits) + 1,
        frac_bits(bits) == 0 ==> ceil_units(bits) == floor_units(bits),
{
    lemma_fundamental_div_mod(bits, scale());
    lemma_fundamental_div_mod(bits + scale() - 1, scale());
    if frac_bits(bits) > 0 {
        lemma_fundamental_div_mod_converse(
            bits + scale() - 1,
            scale(),
            floor_units(bits) + 1,
            frac_bits(bits) - 1,
        );
    } else {
        lemma_fundamental_div_mod_converse(
            bits + scale() - 1,
            scale(),
            floor_units(bits),
            scale() - 1,
        );
    }
}

/// A depositor is never charged more than was tendered: the shares minted
/// for `tendered` tokens are worth at most `tendered`, however the two
/// roundings fall.
pub proof fn lemma_deposit_charge_at_most_tendered(aum_bits: int, tendered: int, shares_issued: int)
    requires
        0 <= aum_bits,
        0 <= tendered,
        0 <= shares_issued,
        shares_issued != 0 ==> aum_bits > 0,
    ensures
        amount_to_deposit_spec(
            shares_issued,
            aum_bits,
            shares_to_mint_spec(aum_bits, tendered, shares_issued),
        ) <= tendered,
{
    if shares_issued != 0 {
        let price = ceil_units(aum_bits);
        let shares = (shares_issued * tendered) / price;
        lemma_ceil_units_covers(aum_bits);
        assert(price > 0) by (nonlinear_arith)
            requires
                aum_bits > 0,
                aum_bits <= price * scale(),
        ;
        lemma_fundamental_div_mod(shares_issued * tendered, price);
        assert(0 <= shares_issued * tendered) by (nonlinear_arith)
            requires
                0 <= shares_issued,
                0 <= tendered,
        ;
        vstd::arithmetic::div_mod::lemma_div_pos_is_pos(shares_issued * tendered, price);
        vstd::arithmetic::div_mod::lemma_mod_pos_bound(shares_issued * tendered, price);
        assert(shares * price <= shares_issued * tendered) by (nonlinear_arith)
            requires
                shares_issued * tendered == price * shares + (shares_issued * tendered) % price,
                0 <= (shares_issued * tendered) % price,
        ;
        // aum * shares <= price * scale * shares <= scale * shares_issued * tendered
        assert(aum_bits * shares <= (tendered * scale()) * shares_issued) by (nonlinear_arith)
            requires
                0 <= aum_bits <= price * scale(),
                0 <= shares,
                shares * price <= shares_issued * tendered,
        ;
        let value = mul_div_ceil_spec(aum_bits, shares, shares_issued);
        lemma_div_is_ordered(
            aum_bits * shares + shares_issued - 1,
            (tendered * scale()) * shares_issued + shares_issued - 1,
            shares_issued,
        );
        lemma_fundamental_div_mod_converse(
            (tendered * scale()) * shares_issued + shares_issued - 1,
            shares_issued,
            tendered * scale(),
            shares_issued - 1,
        );
        assert(0 <= aum_bits * shares) by (nonlinear_arith)
            requires
                0 <= aum_bits,
                0 <= shares,
        ;
        vstd::arithmetic::div_mod::lemma_div_pos_is_pos(
            aum_bits * shares + shares_issued - 1,
            shares_issued,
        );
        lemma_ceil_units_at_most(value, tendered);
    }
}

/// A deposit never pays too little for the shares it mints: at the vault's
/// value per share after fees, the tokens deposited are worth at least the
/// shares minted.
pub proof fn lemma_deposit_pays_enough(aum_bits: int, shares_issued: int, shares_to_mint: int)
    requires
        0 <= aum_bits,
        0 < shares_issued,
        0 <= shares_to_mint,
    ensures
        amount_to_deposit_spec(shares_issued, aum_bits, shares_to_mint) * scale() * shares_issued
            >= aum_bits * shares_to_mint,
{
    let value = mul_div_ceil_spec(aum_bits, shares_to_mint, shares_issued);
    let tokens = amount_to_deposit_spec(shares_issued, aum_bits, shares_to_mint);
    assert(0 <= aum_bits * shares_to_mint) by (nonlinear_arith)
        requires
            0 <= aum_bits,
            0 <= shares_to_mint,
    ;
    lemma_fundamental_div_mod(aum_bits * shares_to_mint + shares_issued - 1, shares_issued);
    vstd::arithmetic::div_mod::lemma_mod_pos_bound(
        aum_bits * shares_to_mint + shares_issued - 1,
        shares_issued,
    );
    vstd::arithmetic::div_mod::lemma_div_pos_is_pos(
        aum_bits * shares_to_mint + shares_issued - 1,
        shares_issued,
    );
    lemma_ceil_units_covers(value);
    assert(value * shares_issued >= aum_bits * shares_to_mint) by (nonlinear_arith)
        requires
            aum_bits * shares_to_mint + shares_issued - 1 == shares_issued * value + (aum_bits
                * shares_to_mint + shares_issued - 1) % shares_issued,
            (aum_bits * shares_to_mint + shares_issued - 1) % shares_issued < shares_issued,
    ;
    assert(tokens * scale() * shares_issued >= value * shares_issued) by (nonlinear_arith)
        requires
            value <= tokens * scale(),
            0 < shares_issued,
    ;
}

/// Conservation on deposit: the ledger grows by exactly what the effects
/// report, and the effects ask the depositor for no more than was tendered.
pub proof fn lemma_deposit_conserves(
    vault: VaultState,
    snaps: Seq<ReserveSnapshot>,
    max_amount: u64,
    now: u64,
)
    requires
        deposit_spec(vault, snaps, max_amount, now) is Ok,
    ensures
        ({
            let (after, effects) = deposit_spec(vault, snaps, max_amount, now)->Ok_0;
            &&& after.shares_issued == vault.shares_issued + effects.shares_to_mint
            &&& after.token_available == vault.token_available + effects.token_to_deposit
            &&& after.available_crank_funds == vault.available_crank_funds
                + effects.crank_funds_to_deposit
            &&& effects.token_to_deposit + effects.crank_funds_to_deposit <= max_amount
            &&& effects.shares_to_mint > 0
        }),
{
    let total = invested_total(vault, snaps);
    lemma_crank_funds_nonnegative(vault);
    lemma_charge_fees_frame(vault, total, now);
    let after_fees = charge_fees_spec(vault, total, now)->Ok_0;
    assert(after_fees == charged(vault, total, now));
    let aum = after_fees.compute_aum_spec(total)->Ok_0;
    let tendered = (max_amount - crank_funds_spec(vault)) as u64;
    assert(deposit_spec(vault, snaps, max_amount, now) == deposit_after_fees(
        after_fees,
        total,
        tendered,
        crank_funds_spec(vault) as u64,
    ));
    lemma_deposit_charge_at_most_tendered(
        aum.bits as int,
        tendered as int,
        after_fees.shares_issued as int,
    );
}

/// The balance check after a deposit passes exactly when the user paid the
/// deposit and the crank funds, and the shares issued grew by what the user
/// gained.
pub proof fn lemma_deposit_check(
    amounts_before: VaultAndUserBalances,
    amounts_after: VaultAndUserBalances,
    shares_issued_before: u64,
    shares_issued_after: u64,
    effects: DepositEffects,
)
    ensures
        deposit_check_spec(
            amounts_before,
            amounts_after,
            shares_issued_before,
            shares_issued_after,
            effects,
        ) is Ok <==> (amounts_before.user_token_balance - amounts_after.user_token_balance
            == effects.token_to_deposit + effects.crank_funds_to_deposit && shares_issued_after
            - shares_issued_before == amounts_after.user_shares_balance
            - amounts_before.user_shares_balance),
{
}

/// Conservation on withdraw: the shares issued fall by the shares burned; the
/// idle balance falls by what is paid from it and grows by what the
/// redemption leaves over; and the user is sent no more than the redemption
/// and the idle balance provide.
pub proof fn lemma_withdraw_conserves(
    vault: VaultState,
    snaps: Seq<ReserveSnapshot>,
    reserve: Option<ReserveSnapshot>,
    now: u64,
    number_of_shares: u64,
    reserve_ctokens_owned: Option<u64>,
)
    requires
        withdraw_spec(vault, snaps, reserve, now, number_of_shares, reserve_ctokens_owned) is Ok,
    ensures
        ({
            let (after, effects) = withdraw_spec(
                vault,
                snaps,
                reserve,
                now,
                number_of_shares,
                reserve_ctokens_owned,
            )->Ok_0;
            &&& after.shares_issued == vault.shares_issued - effects.shares_to_burn
            &&& 0 < effects.shares_to_burn <= number_of_shares
            &&& effects.available_to_send_to_user <= vault.token_available
            &&& effects.invested_liquidity_to_send_to_user
                <= effects.invested_liquidity_to_disinvest
            &&& after.token_available == vault.token_available - effects.available_to_send_to_user
                + (effects.invested_liquidity_to_disinvest
                - effects.invested_liquidity_to_send_to_user)
            &&& reserve is None ==> effects.invested_to_disinvest_ctokens == 0
                && effects.invested_liquidity_to_disinvest == 0
                && after.vault_allocation_strategy == vault.vault_allocation_strategy
        }),
{
    lemma_charge_fees_frame(vault, invested_total(vault, snaps), now);
}

/// The balance check after a withdrawal passes exactly when the user
/// received what the effects say was sent, lost the shares that were burned,
/// the vault's collateral fell by what was redeemed, the reserve paid out the
/// liquidity disinvested, and the vault kept what was not sent on.
pub proof fn lemma_withdraw_check(
    amounts_before: VaultAndUserBalances,
    amounts_after: VaultAndUserBalances,
    effects: WithdrawEffects,
)
    ensures
        withdraw_check_spec(amounts_before, amounts_after, effects) is Ok <==> ({
            &&& amounts_after.user_token_balance - amounts_before.user_token_balance
                == effects.available_to_send_to_user + effects.invested_liquidity_to_send_to_user
            &&& amounts_before.user_shares_balance - amounts_after.user_shares_balance
                == effects.shares_to_burn
            &&& amounts_before.vault_ctoken_balance - amounts_after.vault_ctoken_balance
                == effects.invested_to_disinvest_ctokens
            &&& amounts_before.reserve_supply_liquidity_balance
                - amounts_after.reserve_supply_liquidity_balance
                == effects.invested_liquidity_to_disinvest
            &&& amounts_after.vault_token_balance - amounts_before.vault_token_balance
                == effects.invested_liquidity_to_disinvest
                - effects.invested_liquidity_to_send_to_user - effects.available_to_send_to_user
        }),
{
}

/// Fee idempotence: once fees have been charged at `now`, charging them at
/// `now` again changes nothing.
///
/// The very first charge of a vault only records the time, so that the
/// charge after it is the first to measure growth: of a vault that has never
/// been charged, this is stated where there is no growth to measure.
pub proof fn lemma_charge_fees_idempotent(vault: VaultState, invested_total: Fraction, now: u64)
    requires
        vault.last_fee_charge_timestamp != 0 || now == 0 || aum_or_zero(vault, invested_total)
            == vault.prev_aum_sf,
        charge_fees_spec(vault, invested_total, now) is Ok,
    ensures
        charge_fees_spec(charge_fees_spec(vault, invested_total, now)->Ok_0, invested_total, now)
            == charge_fees_spec(vault, invested_total, now),
        charge_fees_spec(
            charge_fees_spec(vault, invested_total, now)->Ok_0,
            invested_total,
            now,
        )->Ok_0.pending_fees_sf == charge_fees_spec(
            vault,
            invested_total,
            now,
        )->Ok_0.pending_fees_sf,
        charge_fees_spec(
            charge_fees_spec(vault, invested_total, now)->Ok_0,
            invested_total,
            now,
        )->Ok_0.prev_aum_sf == charge_fees_spec(vault, invested_total, now)->Ok_0.prev_aum_sf,
{
    let once = charge_fees_spec(vault, invested_total, now)->Ok_0;
    assert(once == charged(vault, invested_total, now));
    if once.last_fee_charge_timestamp != 0 {
        let aum = aum_or_zero(once, invested_total);
        assert(aum == once.prev_aum_sf);
        assert((crate::fraction::bps_bits(once.performance_fee_bps as int) * 0) / scale() == 0)
            by (nonlinear_arith);
        assert(crate::fraction::bps_bits(once.management_fee_bps as int) * 0 == 0)
            by (nonlinear_arith);
    }
}

/// Rounding down a sum loses at most one more than rounding down its terms.
pub proof fn lemma_floor_of_sum(x: int, y: int, d: int)
    requires
        0 <= x,
        0 <= y,
        0 < d,
    ensures
        x / d + y / d <= (x + y) / d <= x / d + y / d + 1,
{
    lemma_fundamental_div_mod(x, d);
    lemma_fundamental_div_mod(y, d);
    vstd::arithmetic::div_mod::lemma_mod_pos_bound(x, d);
    vstd::arithmetic::div_mod::lemma_mod_pos_bound(y, d);
    let rest = x % d + y % d;
    if rest < d {
        assert(x + y == (x / d + y / d) * d + rest) by (nonlinear_arith)
            requires
                x == d * (x / d) + x % d,
                y == d * (y / d) + y % d,
                rest == x % d + y % d,
        ;
        lemma_fundamental_div_mod_converse(x + y, d, x / d + y / d, rest);
    } else {
        assert(x + y == (x / d + y / d + 1) * d + (rest - d)) by (nonlinear_arith)
            requires
                x == d * (x / d) + x % d,
                y == d * (y / d) + y % d,
                rest == x % d + y % d,
        ;
        lemma_fundamental_div_mod_converse(x + y, d, x / d + y / d + 1, rest - d);
    }
}

/// No value creation on rebalance, at the reserve's rate.
///
/// A move that puts tokens into a reserve takes from the idle balance no
/// more than the collateral bought is worth. A move that takes tokens out
/// adds to the idle balance what the collateral given up is worth, short of
/// at most one bit, the smallest amount that a `Fraction` can hold, and
/// short of nothing when the liquidity taken out is not whole. The rounding
/// loss is at most one token.
pub proof fn lemma_invest_sizing_keeps_value(
    rate: CollateralExchangeRate,
    slot: VaultAllocation,
    actual: Fraction,
    available: u64,
    min_invest_amount: u64,
)
    requires
        rate.wf(),
        invest_sizing_spec(rate, slot, actual, available, min_invest_amount) is Ok,
    ensures
        ({
            let sizing = invest_sizing_spec(rate, slot, actual, available, min_invest_amount)->Ok_0;
            let held = slot.ctoken_allocation as int;
            let moved = sizing.collateral_amount as int;
            &&& sizing.rounding_loss <= 1
            &&& sizing.rounding_loss <= sizing.liquidity_amount || sizing.direction is Subtract
            &&& sizing.direction is Add ==> (sizing.liquidity_amount - sizing.rounding_loss)
                * scale() <= rate.collateral_to_liquidity_spec((held + moved) * scale())
                - rate.collateral_to_liquidity_spec(held * scale())
            &&& sizing.direction is Subtract && moved <= held
                ==> rate.collateral_to_liquidity_spec(held * scale())
                - rate.collateral_to_liquidity_spec((held - moved) * scale()) <= (
            sizing.liquidity_amount + sizing.rounding_loss) * scale() + 1
            &&& sizing.direction is Subtract && moved <= held && sizing.rounding_loss == 1
                ==> rate.collateral_to_liquidity_spec(held * scale())
                - rate.collateral_to_liquidity_spec((held - moved) * scale()) <= (
            sizing.liquidity_amount + sizing.rounding_loss) * scale()
        }),
{
    let sizing = invest_sizing_spec(rate, slot, actual, available, min_invest_amount)->Ok_0;
    let held = slot.ctoken_allocation as int;
    let moved = sizing.collateral_amount as int;
    let liquidity = rate.liquidity_supply.bits as int;
    let collateral = rate.collateral_supply.bits as int;
    let back_f = rate.collateral_to_liquidity_spec(moved * scale());
    assert(0 <= (moved * scale()) * liquidity) by (nonlinear_arith)
        requires
            0 <= moved,
            0 <= liquidity,
    ;
    vstd::arithmetic::div_mod::lemma_div_pos_is_pos((moved * scale()) * liquidity, collateral);
    lemma_ceil_units_covers(back_f);
    if sizing.direction is Add {
        assert(((held + moved) * scale()) * liquidity == (held * scale()) * liquidity + (moved
            * scale()) * liquidity) by (nonlinear_arith);
        assert(0 <= (held * scale()) * liquidity) by (nonlinear_arith)
            requires
                0 <= held,
                0 <= liquidity,
        ;
        lemma_floor_of_sum((held * scale()) * liquidity, (moved * scale()) * liquidity, collateral);
    } else if moved <= held {
        assert((held * scale()) * liquidity == ((held - moved) * scale()) * liquidity + (moved
            * scale()) * liquidity) by (nonlinear_arith);
        assert(0 <= ((held - moved) * scale()) * liquidity) by (nonlinear_arith)
            requires
                0 <= held - moved,
                0 <= liquidity,
        ;
        lemma_floor_of_sum(
            ((held - moved) * scale()) * liquidity,
            (moved * scale()) * liquidity,
            collateral,
        );
    }
}

/// No value creation on rebalance, on the ledger.
///
/// What the vault holds idle and in the reserve, the latter valued at the
/// reserve's rate, is worth no less after a move into the reserve than
/// before it, and after a move out of it less by at most one bit; by nothing
/// when a rounding loss was reported or taken from the crank funds. Nothing
/// else that counts towards the vault's value changes: the fees owed and the
/// collateral in the other reserves stay as they are.
pub proof fn lemma_invest_keeps_value(
    vault: VaultState,
    i: int,
    rate: CollateralExchangeRate,
    actual: Fraction,
    current_slot: u64,
)
    requires
        0 <= i < 25,
        rate.wf(),
        invest_sizing_spec(
            rate,
            vault.allocations()[i],
            actual,
            vault.token_available,
            vault.min_invest_amount,
        ) is Ok,
        invest_booked(
            vault,
            i,
            invest_sizing_spec(
                rate,
                vault.allocations()[i],
                actual,
                vault.token_available,
                vault.min_invest_amount,
            )->Ok_0,
            current_slot,
        ) is Ok,
    ensures
        ({
            let sizing = invest_sizing_spec(
                rate,
                vault.allocations()[i],
                actual,
                vault.token_available,
                vault.min_invest_amount,
            )->Ok_0;
            let (after, effects) = invest_booked(vault, i, sizing, current_slot)->Ok_0;
            let before_value = vault.token_available * scale()
                + rate.collateral_to_liquidity_spec(
                vault.allocations()[i].ctoken_allocation * scale(),
            );
            let after_value = after.token_available * scale() + rate.collateral_to_liquidity_spec(
                after.allocations()[i].ctoken_allocation * scale(),
            );
            &&& effects.direction is Add ==> after_value >= before_value
            &&& effects.direction is Subtract ==> after_value + 1 >= before_value
            &&& effects.direction is Subtract && (effects.rounding_loss == 1
                || after.available_crank_funds < vault.available_crank_funds) ==> after_value
                >= before_value
            &&& effects.rounding_loss <= 1
            &&& after.pending_fees_sf == vault.pending_fees_sf
            &&& forall|j: int|
                0 <= j < 25 && j != i ==> (#[trigger] after.allocations()[j]).ctoken_allocation
                    == vault.allocations()[j].ctoken_allocation
        }),
{
    broadcast use vstd::array::axiom_spec_array_update;

    lemma_invest_sizing_keeps_value(
        rate,
        vault.allocations()[i],
        actual,
        vault.token_available,
        vault.min_invest_amount,
    );
    let sizing = invest_sizing_spec(
        rate,
        vault.allocations()[i],
        actual,
        vault.token_available,
        vault.min_invest_amount,
    )->Ok_0;
    let (after, effects) = invest_booked(vault, i, sizing, current_slot)->Ok_0;
    assert((after.token_available - vault.token_available) * scale() == after.token_available
        * scale() - vault.token_available * scale()) by (nonlinear_arith);
}

/// Fees never exceed the vault's value: after a charge, the fees owed have
/// grown by no more than the vault was worth, and the value that growth is
/// next measured from is exactly what the vault is worth less the fees owed.
pub proof fn lemma_charge_fees_leaves_the_value(
    vault: VaultState,
    invested_total: Fraction,
    now: u64,
)
    requires
        vault.last_fee_charge_timestamp != 0,
        vault.compute_aum_spec(invested_total) is Ok,
        charge_fees_spec(vault, invested_total, now) is Ok,
    ensures
        ({
            let after = charge_fees_spec(vault, invested_total, now)->Ok_0;
            let aum = vault.compute_aum_spec(invested_total)->Ok_0;
            &&& after.pending_fees_sf - vault.pending_fees_sf == new_fees_bits(
                vault,
                invested_total,
                now,
            )
            &&& 0 <= after.pending_fees_sf - vault.pending_fees_sf <= aum.bits
            &&& after.compute_aum_spec(invested_total) == Ok::<Fraction, crate::KaminoVaultError>(
                Fraction { bits: after.prev_aum_sf },
            )
        }),
{
    let after = charge_fees_spec(vault, invested_total, now)->Ok_0;
    assert(after == charged(vault, invested_total, now));
    let elapsed = crate::operations::vault_operations::elapsed_seconds(
        vault.last_fee_charge_timestamp,
        now,
    );
    let rate = crate::operations::vault_operations::mgmt_fee_rate_bits(
        vault.management_fee_bps as int,
        elapsed,
    );
    let earned = crate::operations::vault_operations::earned_interest_bits(
        aum_or_zero(vault, invested_total),
        vault.prev_aum_sf as int,
    );
    lemma_nonnegative_quotient(crate::fraction::bps_bits(vault.management_fee_bps as int), elapsed, 31_556_926);
    lemma_nonnegative_quotient(vault.prev_aum_sf as int, rate, scale());
    lemma_nonnegative_quotient(crate::fraction::bps_bits(vault.performance_fee_bps as int), earned, scale());
}

/// A product of amounts that are not negative, divided by a positive number,
/// is not negative.
proof fn lemma_nonnegative_quotient(a: int, b: int, d: int)
    requires
        0 <= a,
        0 <= b,
        0 < d,
    ensures
        0 <= (a * b) / d,
{
    assert(0 <= a * b) by (nonlinear_arith)
        requires
            0 <= a,
            0 <= b,
    ;
    vstd::arithmetic::div_mod::lemma_div_pos_is_pos(a * b, d);
}

/// A withdrawal pays no more than the shares redeemed are worth: what is
/// sent from the idle balance and from the redemption together is at most
/// the proportional part of the vault's value after fees, rounded down.
pub proof fn lemma_withdraw_pays_at_most_entitlement(
    vault: VaultState,
    snaps: Seq<ReserveSnapshot>,
    total: Fraction,
    reserve: Option<ReserveSnapshot>,
    number_of_shares: u64,
    reserve_ctokens_owned: Option<u64>,
)
    requires
        withdraw_after_fees(vault, snaps, total, reserve, number_of_shares, reserve_ctokens_owned)
            is Ok,
    ensures
        ({
            let effects = withdraw_after_fees(
                vault,
                snaps,
                total,
                reserve,
                number_of_shares,
                reserve_ctokens_owned,
            )->Ok_0.1;
            let entitlement = compute_user_total_received_on_withdraw_spec(
                vault.shares_issued,
                vault.compute_aum_spec(total)->Ok_0,
                number_of_shares,
            )->Ok_0;
            effects.available_to_send_to_user + effects.invested_liquidity_to_send_to_user
                <= entitlement
        }),
{
    let aum = vault.compute_aum_spec(total)->Ok_0;
    let entitlement = compute_user_total_received_on_withdraw_spec(
        vault.shares_issued,
        aum,
        number_of_shares,
    )->Ok_0;
    let from_available = if vault.token_available <= entitlement {
        vault.token_available
    } else {
        entitlement
    };
    let needed = (entitlement - from_available) as u64;
    let d = crate::operations::vault_operations::withdraw_disinvestment_spec(
        vault,
        snaps,
        reserve,
        needed,
        reserve_ctokens_owned,
    )->Ok_0;
    assert(d.liquidity_to_send.bits <= needed * scale());
    lemma_div_is_ordered(d.liquidity_to_send.bits as int, needed * scale(), scale());
    lemma_div_multiples_vanish(needed as int, scale());
    assert(needed * scale() == scale() * needed) by (nonlinear_arith);
}

/// Conservation on a payment of fees: the fees owed fall by exactly what is
/// paid, and the idle balance falls by what is paid from it and grows by what
/// the redemption leaves over.
pub proof fn lemma_withdraw_pending_fees_conserves(
    vault: VaultState,
    snaps: Seq<ReserveSnapshot>,
    reserve: ReserveSnapshot,
    now: u64,
)
    requires
        withdraw_pending_fees_spec(vault, snaps, reserve, now) is Ok,
    ensures
        ({
            let (after, effects) = withdraw_pending_fees_spec(vault, snaps, reserve, now)->Ok_0;
            let after_fees = charge_fees_spec(vault, invested_total(vault, snaps), now)->Ok_0;
            &&& after.pending_fees_sf == after_fees.pending_fees_sf - (
            effects.available_to_send_to_user + effects.invested_liquidity_to_send_to_user)
                * scale()
            &&& effects.invested_liquidity_to_send_to_user
                <= effects.invested_liquidity_to_disinvest
            &&& after.token_available == vault.token_available - effects.available_to_send_to_user
                + (effects.invested_liquidity_to_disinvest
                - effects.invested_liquidity_to_send_to_user)
            &&& after.shares_issued == vault.shares_issued
        }),
{
    lemma_charge_fees_frame(vault, invested_total(vault, snaps), now);
}

/// The snapshot that slot `i` of a table is valued with: the next one after
/// those that the occupied slots before it take.
pub open spec fn snapshot_of_slot(
    allocs: Seq<VaultAllocation>,
    snaps: Seq<ReserveSnapshot>,
    i: int,
) -> ReserveSnapshot {
    snaps[invested_upto(allocs, snaps, i)->Ok_0.used]
}

/// What a vault is worth under `snaps`: idle plus invested, less the fees owed.
pub open spec fn value_of(vault: VaultState, snaps: Seq<ReserveSnapshot>) -> int {
    vault.token_available * scale() + invested_total(vault, snaps).bits - vault.pending_fees_sf
}

/// Two tables that differ only in the collateral held in slot `i`, and in
/// what holdings do not depend on, are worth the same but for that slot.
proof fn lemma_holdings_differ_in_one_slot(
    before: Seq<VaultAllocation>,
    after: Seq<VaultAllocation>,
    snaps: Seq<ReserveSnapshot>,
    i: int,
    n: int,
)
    requires
        0 <= i < 25,
        0 <= n <= 25,
        before[i].is_live(),
        forall|j: int|
            0 <= j < 25 ==> (#[trigger] after[j]).reserve == before[j].reserve
                && after[j].target_allocation_weight == before[j].target_allocation_weight && (j
                != i ==> after[j].ctoken_allocation == before[j].ctoken_allocation),
        invested_upto(before, snaps, n) is Ok,
        invested_upto(after, snaps, n) is Ok,
    ensures
        ({
            let t0 = invested_upto(before, snaps, n)->Ok_0;
            let t1 = invested_upto(after, snaps, n)->Ok_0;
            let rate = snapshot_of_slot(before, snaps, i).exchange_rate;
            &&& t1.used == t0.used
            &&& t1.total - t0.total == (if i < n {
                rate.collateral_to_liquidity_spec(after[i].ctoken_allocation * scale())
                    - rate.collateral_to_liquidity_spec(before[i].ctoken_allocation * scale())
            } else {
                0
            })
            &&& i < n ==> t0.entries[i].liquidity_amount.bits
                == rate.collateral_to_liquidity_spec(before[i].ctoken_allocation * scale())
                && t0.entries.len() == n
        }),
    decreases n,
{
    if n > 0 {
        assert(invested_upto(before, snaps, n - 1) is Ok);
        assert(invested_upto(after, snaps, n - 1) is Ok);
        lemma_holdings_differ_in_one_slot(before, after, snaps, i, n - 1);
        crate::operations::vault_operations::common::lemma_invested_entries(before, snaps, n - 1);
        assert(after[n - 1].reserve == before[n - 1].reserve);
        let shorter = invested_upto(before, snaps, n - 1)->Ok_0;
        let t0 = invested_upto(before, snaps, n)->Ok_0;
        if i < n - 1 {
            assert(t0.entries[i] == shorter.entries[i]);
        }
    }
}

/// No value creation on rebalance: an invest that puts tokens into a reserve
/// leaves the vault worth no less than it was when its fees had been
/// charged. One that takes tokens out leaves it worth no less when a
/// rounding loss was reported or taken from the crank funds, and else less
/// by at most one bit, the smallest amount that a `Fraction` can hold.
///
/// The vault is valued under the snapshots that the invest was run with, the
/// reserve named being valued at the rate that it was named with.
pub proof fn lemma_invest_keeps_the_vault_value(
    vault: VaultState,
    snaps: Seq<ReserveSnapshot>,
    reserve: ReserveSnapshot,
    current_slot: u64,
    now: u64,
)
    requires
        invest_spec(vault, snaps, reserve, current_slot, now) is Ok,
        reserve.exchange_rate.wf(),
        crate::state::index_of(vault.allocations(), reserve.reserve, 0) matches Some(i)
            && snapshot_of_slot(vault.allocations(), snaps, i).exchange_rate
            == reserve.exchange_rate,
        holdings_error(invest_spec(vault, snaps, reserve, current_slot, now)->Ok_0.0, snaps)
            is None,
    ensures
        ({
            let (after, effects) = invest_spec(vault, snaps, reserve, current_slot, now)->Ok_0;
            let after_fees = charge_fees_spec(vault, invested_total(vault, snaps), now)->Ok_0;
            &&& effects.direction is Add ==> value_of(after, snaps) >= value_of(after_fees, snaps)
            &&& effects.direction is Subtract ==> value_of(after, snaps) + 1 >= value_of(
                after_fees,
                snaps,
            )
            &&& effects.direction is Subtract && (effects.rounding_loss == 1
                || after.available_crank_funds < vault.available_crank_funds) ==> value_of(
                after,
                snaps,
            ) >= value_of(after_fees, snaps)
        }),
{
    broadcast use vstd::array::axiom_spec_array_update;

    let total = invested_total(vault, snaps);
    lemma_charge_fees_frame(vault, total, now);
    let after_fees = charge_fees_spec(vault, total, now)->Ok_0;
    assert(after_fees == charged(vault, total, now));
    let targets = refresh_targets_with(after_fees, total, false)->Ok_0;
    let refreshed = with_targets(after_fees, targets);
    lemma_install_upto(after_fees.vault_allocation_strategy, targets, 25);
    assert forall|j: int| 0 <= j < 25 implies (#[trigger] refreshed.allocations()[j]).reserve
        == vault.allocations()[j].reserve && refreshed.allocations()[j].ctoken_allocation
        == vault.allocations()[j].ctoken_allocation
        && refreshed.allocations()[j].target_allocation_weight
        == vault.allocations()[j].target_allocation_weight by {
        assert(refreshed.allocations()[j] == crate::state::target_allocations::install_upto(
            after_fees.vault_allocation_strategy,
            targets,
            25,
        )[j]);
    }
    crate::state::lemma_index_of(vault.allocations(), reserve.reserve, 0);
    crate::state::lemma_index_of(refreshed.allocations(), reserve.reserve, 0);
    let i = crate::state::index_of(vault.allocations(), reserve.reserve, 0)->Some_0;
    assert(crate::state::index_of(refreshed.allocations(), reserve.reserve, 0) == Some(i)) by {
        let k = crate::state::index_of(refreshed.allocations(), reserve.reserve, 0);
        assert(refreshed.allocations()[i].reserve == reserve.reserve);
        if k is Some {
            let kk = k->Some_0;
            assert(refreshed.allocations()[kk].reserve == vault.allocations()[kk].reserve);
        }
    }
    assert(invest_spec(vault, snaps, reserve, current_slot, now) == invest_after_refresh(
        refreshed,
        snaps,
        reserve,
        current_slot,
    ));
    lemma_same_holdings(vault.allocations(), refreshed.allocations(), snaps, 25);
    let held = invested_upto(vault.allocations(), snaps, 25)->Ok_0;
    let actual = held.entries[i].liquidity_amount;
    let sizing = invest_sizing_spec(
        reserve.exchange_rate,
        refreshed.allocations()[i],
        actual,
        refreshed.token_available,
        refreshed.min_invest_amount,
    )->Ok_0;
    let (after, effects) = invest_booked(refreshed, i, sizing, current_slot)->Ok_0;
    lemma_invest_keeps_value(refreshed, i, reserve.exchange_rate, actual, current_slot);
    lemma_holdings_differ_in_one_slot(vault.allocations(), after.allocations(), snaps, i, 25);
    crate::operations::vault_operations::common::lemma_invested_entries(
        vault.allocations(),
        snaps,
        25,
    );
    crate::operations::vault_operations::common::lemma_invested_entries(
        after.allocations(),
        snaps,
        25,
    );
    let t0 = invested_upto(vault.allocations(), snaps, 25)->Ok_0;
    let t1 = invested_upto(after.allocations(), snaps, 25)->Ok_0;
    assert(invested_total(after_fees, snaps).bits == t0.total);
    assert(invested_total(after, snaps).bits == t1.total);
    assert((after.token_available - after_fees.token_available) * scale()
        == after.token_available * scale() - after_fees.token_available * scale())
        by (nonlinear_arith);
}

/// A withdrawal never burns too few shares for what it pays: at the vault's
/// value per share after fees, the shares burned are worth at least the
/// tokens sent to the user.
///
/// This is stated of a vault worth at most `2^60` tokens. Of a larger one,
/// the shares burned may fall short by less than one bit of a share's value.
pub proof fn lemma_withdraw_burns_enough(
    vault: VaultState,
    snaps: Seq<ReserveSnapshot>,
    total: Fraction,
    reserve: Option<ReserveSnapshot>,
    number_of_shares: u64,
    reserve_ctokens_owned: Option<u64>,
)
    requires
        withdraw_after_fees(vault, snaps, total, reserve, number_of_shares, reserve_ctokens_owned)
            is Ok,
    ensures
        ({
            let effects = withdraw_after_fees(
                vault,
                snaps,
                total,
                reserve,
                number_of_shares,
                reserve_ctokens_owned,
            )->Ok_0.1;
            let aum = vault.compute_aum_spec(total)->Ok_0.bits as int;
            let paid = (effects.available_to_send_to_user
                + effects.invested_liquidity_to_send_to_user) * scale();
            &&& effects.shares_to_burn * aum + floor_units(aum) > paid * vault.shares_issued
            &&& floor_units(aum) <= scale() ==> effects.shares_to_burn * aum >= paid
                * vault.shares_issued
        }),
{
    lemma_withdraw_pays_at_most_entitlement(
        vault,
        snaps,
        total,
        reserve,
        number_of_shares,
        reserve_ctokens_owned,
    );
    let effects = withdraw_after_fees(
        vault,
        snaps,
        total,
        reserve,
        number_of_shares,
        reserve_ctokens_owned,
    )->Ok_0.1;
    let aum = vault.compute_aum_spec(total)->Ok_0.bits as int;
    let issued = vault.shares_issued as int;
    let delivered = effects.available_to_send_to_user + effects.invested_liquidity_to_send_to_user;
    let paid = delivered * scale();
    let whole = floor_units(aum);
    let burn = effects.shares_to_burn as int;
    let entitlement = compute_user_total_received_on_withdraw_spec(
        vault.shares_issued,
        vault.compute_aum_spec(total)->Ok_0,
        number_of_shares,
    )->Ok_0 as int;
    lemma_ceil_units_covers(aum);
    let worth = mul_div_floor_spec(paid, issued, whole);
    assert(0 <= paid * issued) by (nonlinear_arith)
        requires
            0 <= paid,
            0 <= issued,
    ;
    if burn == number_of_shares && ceil_units(worth) > number_of_shares {
        // All the shares asked for are burned: they are worth the
        // entitlement, which is at least what is paid.
        if issued == number_of_shares {
            assert(paid <= whole * scale());
            assert(paid * issued <= burn * aum) by (nonlinear_arith)
                requires
                    0 <= paid <= aum,
                    issued == burn,
                    0 <= issued,
            ;
        } else {
            let owed = mul_div_floor_spec(aum, number_of_shares as int, issued);
            lemma_ceil_units_covers(owed);
            lemma_fundamental_div_mod(aum * number_of_shares, issued);
            vstd::arithmetic::div_mod::lemma_mod_pos_bound(aum * number_of_shares, issued);
            assert(0 <= aum * number_of_shares) by (nonlinear_arith)
                requires
                    0 <= aum,
                    0 <= number_of_shares,
            ;
            vstd::arithmetic::div_mod::lemma_div_pos_is_pos(aum * number_of_shares, issued);
            assert(paid * issued <= burn * aum) by (nonlinear_arith)
                requires
                    0 <= paid <= owed,
                    0 < issued,
                    aum * burn == issued * owed + (aum * burn) % issued,
                    0 <= (aum * burn) % issued,
            ;
        }
        vstd::arithmetic::div_mod::lemma_div_pos_is_pos(aum, scale());
    } else {
        // The shares burned are what the payment is worth, rounded up.
        assert(burn == ceil_units(worth));
        lemma_fundamental_div_mod(paid * issued, whole);
        vstd::arithmetic::div_mod::lemma_mod_pos_bound(paid * issued, whole);
        vstd::arithmetic::div_mod::lemma_div_pos_is_pos(paid * issued, whole);
        lemma_ceil_units_covers(worth);
        assert(burn * scale() * whole + whole > paid * issued) by (nonlinear_arith)
            requires
                0 < whole,
                worth <= burn * scale(),
                paid * issued == whole * worth + (paid * issued) % whole,
                (paid * issued) % whole < whole,
        ;
        assert(burn * aum >= burn * scale() * whole) by (nonlinear_arith)
            requires
                0 <= burn,
                whole * scale() <= aum,
        ;
        if whole <= scale() {
            // Both sides are whole numbers of tokens' bits.
            assert(burn * scale() * whole == (burn * whole) * scale()) by (nonlinear_arith);
            assert(paid * issued == (delivered * issued) * scale()) by (nonlinear_arith)
                requires
                    paid == delivered * scale(),
            ;
            assert((burn * whole) * scale() >= (delivered * issued) * scale())
                by (nonlinear_arith)
                requires
                    (burn * whole) * scale() + whole > (delivered * issued) * scale(),
                    0 < whole <= scale(),
            ;
        }
    }
}

/// Giving up fees starts fee tracking afresh: a charge at the same time
/// right after it finds nothing to charge and changes nothing.
pub proof fn lemma_give_up_resets_fee_tracking(
    vault: VaultState,
    snaps: Seq<ReserveSnapshot>,
    now: u64,
    max_amount_to_give_up: u64,
)
    requires
        give_up_pending_fee_spec(vault, snaps, now, max_amount_to_give_up) is Ok,
    ensures
        ({
            let after = give_up_pending_fee_spec(vault, snaps, now, max_amount_to_give_up)->Ok_0;
            &&& after.pending_fees_sf <= charge_fees_spec(
                vault,
                invested_total(vault, snaps),
                now,
            )->Ok_0.pending_fees_sf
            &&& charge_fees_spec(after, invested_total(vault, snaps), now) == Ok::<
                VaultState,
                crate::KaminoVaultError,
            >(after)
        }),
{
    let total = invested_total(vault, snaps);
    lemma_charge_fees_frame(vault, total, now);
    let after_fees = charge_fees_spec(vault, total, now)->Ok_0;
    assert(after_fees == charged(vault, total, now));
    let after = give_up_pending_fee_spec(vault, snaps, now, max_amount_to_give_up)->Ok_0;
    crate::operations::vault_operations::common::lemma_invested_entries(
        vault.allocations(),
        snaps,
        25,
    );
    if after.last_fee_charge_timestamp != 0 {
        assert(aum_or_zero(after, total) == after.prev_aum_sf);
        assert((crate::fraction::bps_bits(after.performance_fee_bps as int) * 0) / scale() == 0)
            by (nonlinear_arith);
        assert(crate::fraction::bps_bits(after.management_fee_bps as int) * 0 == 0)
            by (nonlinear_arith);
    }
}

} // verus!
