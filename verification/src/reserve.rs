//! What the vault needs to know of an external reserve at one point in time.
use crate::fraction::{ceil_units, lemma_ceil_units_monotone, scale, Fraction};
use crate::pubkey::Pubkey;
use crate::utils::wide_math::{mul_div_ceil, mul_div_ceil_spec, mul_div_floor, mul_div_floor_spec};
use vstd::prelude::*;

verus! {

/// The rate between a reserve's collateral units and the liquidity behind them,
/// held as the two totals it is the ratio of.
#[derive(Clone, Copy, Debug, PartialEq, Eq, Structural)]
pub struct CollateralExchangeRate {
    /// Collateral units in circulation.
    pub collateral_supply: Fraction,
    /// Liquidity those units can be redeemed for, in total.
    pub liquidity_supply: Fraction,
}

/// A refreshed view of one reserve, supplied by the caller.
#[derive(Clone, Copy, Debug, PartialEq, Eq)]
pub struct ReserveSnapshot {
    pub reserve: Pubkey,
    pub exchange_rate: CollateralExchangeRate,
    /// Whether the reserve's figures are too old to be used now.
    pub stale: bool,
}

impl CollateralExchangeRate {
    /// Both totals are positive, so that either can be divided by.
    pub open spec fn wf(self) -> bool {
        self.collateral_supply.bits > 0 && self.liquidity_supply.bits > 0
    }

    /// Liquidity bits behind `collateral_bits` of collateral, rounded down.
    pub open spec fn collateral_to_liquidity_spec(self, collateral_bits: int) -> int {
        mul_div_floor_spec(
            collateral_bits,
            self.liquidity_supply.bits as int,
            self.collateral_supply.bits as int,
        )
    }

    /// Collateral bits bought by `liquidity_bits` of liquidity, rounded down.
    pub open spec fn liquidity_to_collateral_spec(self, liquidity_bits: int) -> int {
        mul_div_floor_spec(
            liquidity_bits,
            self.collateral_supply.bits as int,
            self.liquidity_supply.bits as int,
        )
    }

    /// Collateral bits that free at least `liquidity_bits` of liquidity: rounded up.
    pub open spec fn liquidity_to_collateral_ceil_spec(self, liquidity_bits: int) -> int {
        mul_div_ceil_spec(
            liquidity_bits,
            self.collateral_supply.bits as int,
            self.liquidity_supply.bits as int,
        )
    }

    /// The rate of a reserve with the given totals. A reserve that has issued
    /// no collateral, or holds no liquidity, trades one for one.
    pub fn new(collateral_supply: u64, liquidity_supply: Fraction) -> (r: CollateralExchangeRate)
        ensures
            r.wf(),
            collateral_supply == 0 || liquidity_supply.bits == 0 ==> r.collateral_supply.bits
                == scale() && r.liquidity_supply.bits == scale(),
            collateral_supply != 0 && liquidity_supply.bits != 0 ==> r.collateral_supply.bits
                == collateral_supply * scale() && r.liquidity_supply == liquidity_supply,
    {
        if collateral_supply == 0 || liquidity_supply.bits == 0 {
            CollateralExchangeRate {
                collateral_supply: Fraction::from_u64(1),
                liquidity_supply: Fraction::from_u64(1),
            }
        } else {
            CollateralExchangeRate {
                collateral_supply: Fraction::from_u64(collateral_supply),
                liquidity_supply,
            }
        }
    }

    /// Liquidity behind an amount of collateral, rounded down; `None` when the
    /// rate is degenerate or the result is not representable.
    pub fn fraction_collateral_to_liquidity(&self, collateral: Fraction) -> (r: Option<Fraction>)
        ensures
            r == (if self.collateral_supply.bits != 0 && self.collateral_to_liquidity_spec(
                collateral.bits as int,
            ) <= u128::MAX {
                Some(
                    Fraction { bits: self.collateral_to_liquidity_spec(collateral.bits as int) as u128 },
                )
            } else {
                None
            }),
    {
        match mul_div_floor(collateral.bits, self.liquidity_supply.bits, self.collateral_supply.bits) {
            Some(bits) => Some(Fraction { bits }),
            None => None,
        }
    }

    /// Collateral bought by an amount of liquidity, rounded down; `None` when
    /// the rate is degenerate or the result is not representable.
    pub fn fraction_liquidity_to_collateral(&self, liquidity: Fraction) -> (r: Option<Fraction>)
        ensures
            r == (if self.liquidity_supply.bits != 0 && self.liquidity_to_collateral_spec(
                liquidity.bits as int,
            ) <= u128::MAX {
                Some(
                    Fraction { bits: self.liquidity_to_collateral_spec(liquidity.bits as int) as u128 },
                )
            } else {
                None
            }),
    {
        match mul_div_floor(liquidity.bits, self.collateral_supply.bits, self.liquidity_supply.bits) {
            Some(bits) => Some(Fraction { bits }),
            None => None,
        }
    }

    /// Collateral that must be redeemed to free an amount of liquidity, rounded
    /// up; `None` when the rate is degenerate or the result is not representable.
    pub fn fraction_liquidity_to_collateral_ceil(&self, liquidity: Fraction) -> (r: Option<
        Fraction,
    >)
        ensures
            r == (if self.liquidity_supply.bits != 0 && self.liquidity_to_collateral_ceil_spec(
                liquidity.bits as int,
            ) <= u128::MAX {
                Some(
                    Fraction {
                        bits: self.liquidity_to_collateral_ceil_spec(liquidity.bits as int) as u128,
                    },
                )
            } else {
                None
            }),
    {
        match mul_div_ceil(liquidity.bits, self.collateral_supply.bits, self.liquidity_supply.bits) {
            Some(bits) => Some(Fraction { bits }),
            None => None,
        }
    }

    /// Whole collateral units that must be redeemed to free `liquidity` whole
    /// units; `None` when that is not a 64-bit amount.
    pub fn liquidity_to_collateral_ceil(&self, liquidity: u64) -> (r: Option<u64>)
        ensures
            r == (if self.liquidity_supply.bits != 0 && ceil_units(
                self.liquidity_to_collateral_ceil_spec(liquidity * scale()),
            ) <= u64::MAX {
                Some(
                    ceil_units(self.liquidity_to_collateral_ceil_spec(liquidity * scale())) as u64,
                )
            } else {
                None
            }),
    {
        match self.fraction_liquidity_to_collateral_ceil(Fraction::from_u64(liquidity)) {
            Some(collateral) => collateral.to_ceil(),
            None => {
                proof {
                    if self.liquidity_supply.bits != 0 {
                        lemma_ceil_units_monotone(
                            u128::MAX as int + 1,
                            self.liquidity_to_collateral_ceil_spec(liquidity * scale()),
                        );
                    }
                }
                None
            },
        }
    }
}

} // verus!
