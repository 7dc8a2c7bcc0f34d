//! Unsigned fixed-point amounts with 68 integer bits and 60 fractional bits.
//!
//! A [`Fraction`] is its bit pattern: the amount it stands for is
//! `bits / 2^60`. Every contract below is stated on the bit pattern, so that
//! rounding is explicit wherever it happens.
use crate::utils::wide_math::{mul_div_ceil, mul_div_ceil_spec, mul_div_floor, mul_div_floor_spec};
use vstd::prelude::*;

verus! {

/// The bit pattern of one whole unit, `2^60`.
pub const FRACTION_ONE_BITS: u128 = 0x1000_0000_0000_0000;

/// One hundred percent in basis points.
pub const FULL_BPS: u64 = 10_000;

/// `2^60` as a mathematical integer.
pub open spec fn scale() -> int {
    0x1000_0000_0000_0000
}

/// Whole units in a bit pattern, rounding down.
pub open spec fn floor_units(bits: int) -> int {
    bits / scale()
}

/// Whole units in a bit pattern, rounding up.
pub open spec fn ceil_units(bits: int) -> int {
    (bits + scale() - 1) / scale()
}

/// The part of a bit pattern below one whole unit.
pub open spec fn frac_bits(bits: int) -> int {
    bits % scale()
}

/// The bit pattern of the rate `bps / 10000`, rounded down.
pub open spec fn bps_bits(bps: int) -> int {
    (bps * scale()) / 10_000
}

#[derive(Clone, Copy, Debug, PartialEq, Eq, Structural)]
pub struct Fraction {
    pub bits: u128,
}

/// `fixed::types::U68F60::checked_mul` on two bit patterns.
///
/// The crate forms the 256-bit product of the two patterns and shifts it right
/// by the 60 fractional bits, which rounds down; it reports overflow exactly
/// when bits would be lost above bit 127, and the wrapper then returns `None`.
#[verifier::external_body]
fn fixed_checked_mul(a: u128, b: u128) -> (r: Option<u128>)
    ensures
        r == (if (a * b) / scale() <= u128::MAX {
            Some(((a * b) / scale()) as u128)
        } else {
            None
        }),
{
    match fixed::types::U68F60::from_bits(a).checked_mul(fixed::types::U68F60::from_bits(b)) {
        Some(product) => Some(product.to_bits()),
        None => None,
    }
}

impl Fraction {
    pub fn from_bits(bits: u128) -> (r: Fraction)
        ensures
            r.bits == bits,
    {
        Fraction { bits }
    }

    pub fn to_bits(self) -> (r: u128)
        ensures
            r == self.bits,
    {
        self.bits
    }

    pub fn zero() -> (r: Fraction)
        ensures
            r.bits == 0,
    {
        Fraction { bits: 0 }
    }

    /// The whole amount `value`, exactly.
    pub fn from_u64(value: u64) -> (r: Fraction)
        ensures
            r.bits == value * scale(),
            floor_units(r.bits as int) == value,
            frac_bits(r.bits as int) == 0,
    {
        let wide: u128 = value as u128;
        Fraction { bits: wide * FRACTION_ONE_BITS }
    }

    /// The rate `bps / 10000`, rounded down to the nearest representable value.
    pub fn from_bps(bps: u64) -> (r: Fraction)
        ensures
            r.bits == bps_bits(bps as int),
    {
        let wide: u128 = bps as u128;
        Fraction { bits: (wide * FRACTION_ONE_BITS) / 10_000 }
    }

    /// Sum, or `None` when it does not fit in 128 bits.
    pub fn checked_add(self, rhs: Fraction) -> (r: Option<Fraction>)
        ensures
            r == (if self.bits + rhs.bits <= u128::MAX {
                Some(Fraction { bits: (self.bits + rhs.bits) as u128 })
            } else {
                None
            }),
    {
        match self.bits.checked_add(rhs.bits) {
            Some(bits) => Some(Fraction { bits }),
            None => None,
        }
    }

    /// Difference, or `None` when `rhs` is the larger.
    pub fn checked_sub(self, rhs: Fraction) -> (r: Option<Fraction>)
        ensures
            r == (if self.bits >= rhs.bits {
                Some(Fraction { bits: (self.bits - rhs.bits) as u128 })
            } else {
                None
            }),
    {
        if self.bits >= rhs.bits {
            Some(Fraction { bits: self.bits - rhs.bits })
        } else {
            None
        }
    }

    /// Sum, clamped at the largest representable value.
    pub fn saturating_add(self, rhs: Fraction) -> (r: Fraction)
        ensures
            r.bits == (if self.bits + rhs.bits <= u128::MAX {
                self.bits + rhs.bits
            } else {
                u128::MAX as int
            }),
    {
        match self.bits.checked_add(rhs.bits) {
            Some(bits) => Fraction { bits },
            None => Fraction { bits: u128::MAX },
        }
    }

    /// Difference, clamped at zero.
    pub fn saturating_sub(self, rhs: Fraction) -> (r: Fraction)
        ensures
            r.bits == (if self.bits >= rhs.bits {
                self.bits - rhs.bits
            } else {
                0
            }),
    {
        if self.bits >= rhs.bits {
            Fraction { bits: self.bits - rhs.bits }
        } else {
            Fraction { bits: 0 }
        }
    }

    /// The smaller of the two.
    pub fn min(self, rhs: Fraction) -> (r: Fraction)
        ensures
            r.bits == (if self.bits <= rhs.bits {
                self.bits
            } else {
                rhs.bits
            }),
    {
        if self.bits <= rhs.bits {
            self
        } else {
            rhs
        }
    }

    /// Product of two fixed-point numbers, rounded down, or `None` on overflow.
    pub fn checked_mul(self, rhs: Fraction) -> (r: Option<Fraction>)
        ensures
            r == (if (self.bits * rhs.bits) / scale() <= u128::MAX {
                Some(Fraction { bits: ((self.bits * rhs.bits) / scale()) as u128 })
            } else {
                None
            }),
    {
        match fixed_checked_mul(self.bits, rhs.bits) {
            Some(bits) => Some(Fraction { bits }),
            None => None,
        }
    }

    /// Product with a whole number, or `None` on overflow.
    pub fn checked_mul_int(self, rhs: u128) -> (r: Option<Fraction>)
        ensures
            r == (if self.bits * rhs <= u128::MAX {
                Some(Fraction { bits: (self.bits * rhs) as u128 })
            } else {
                None
            }),
    {
        match self.bits.checked_mul(rhs) {
            Some(bits) => Some(Fraction { bits }),
            None => None,
        }
    }

    /// Quotient by a whole number, rounded down, or `None` for a zero divisor.
    pub fn checked_div_int(self, rhs: u128) -> (r: Option<Fraction>)
        ensures
            r == (if rhs != 0 {
                Some(Fraction { bits: self.bits / rhs })
            } else {
                None
            }),
    {
        if rhs == 0 {
            None
        } else {
            Some(Fraction { bits: self.bits / rhs })
        }
    }

    /// `self * numerator / denominator`, rounded down, through a wide product.
    ///
    /// `None` when the denominator is zero or the result does not fit.
    pub fn mul_int_ratio(self, numerator: u64, denominator: u64) -> (r: Option<Fraction>)
        ensures
            r == (if denominator != 0 && mul_div_floor_spec(
                self.bits as int,
                numerator as int,
                denominator as int,
            ) <= u128::MAX {
                Some(
                    Fraction {
                        bits: mul_div_floor_spec(
                            self.bits as int,
                            numerator as int,
                            denominator as int,
                        ) as u128,
                    },
                )
            } else {
                None
            }),
    {
        match mul_div_floor(self.bits, numerator as u128, denominator as u128) {
            Some(bits) => Some(Fraction { bits }),
            None => None,
        }
    }

    /// `self * numerator / denominator`, rounded up, through a wide product.
    ///
    /// `None` when the denominator is zero or the result does not fit.
    pub fn mul_int_ratio_ceil(self, numerator: u64, denominator: u64) -> (r: Option<Fraction>)
        ensures
            r == (if denominator != 0 && mul_div_ceil_spec(
                self.bits as int,
                numerator as int,
                denominator as int,
            ) <= u128::MAX {
                Some(
                    Fraction {
                        bits: mul_div_ceil_spec(
                            self.bits as int,
                            numerator as int,
                            denominator as int,
                        ) as u128,
                    },
                )
            } else {
                None
            }),
    {
        match mul_div_ceil(self.bits, numerator as u128, denominator as u128) {
            Some(bits) => Some(Fraction { bits }),
            None => None,
        }
    }

    /// The largest whole amount not above `self`.
    pub fn floor(self) -> (r: Fraction)
        ensures
            r.bits == floor_units(self.bits as int) * scale(),
            r.bits == self.bits - frac_bits(self.bits as int),
    {
        Fraction { bits: self.bits - self.bits % FRACTION_ONE_BITS }
    }

    /// What is left of `self` above its floor.
    pub fn frac(self) -> (r: Fraction)
        ensures
            r.bits == frac_bits(self.bits as int),
    {
        Fraction { bits: self.bits % FRACTION_ONE_BITS }
    }

    /// Whole units rounding down, or `None` when they exceed `u64::MAX`.
    pub fn to_floor(self) -> (r: Option<u64>)
        ensures
            r == (if floor_units(self.bits as int) <= u64::MAX {
                Some(floor_units(self.bits as int) as u64)
            } else {
                None
            }),
    {
        let units: u128 = self.bits / FRACTION_ONE_BITS;
        if units <= u64::MAX as u128 {
            Some(units as u64)
        } else {
            None
        }
    }

    /// Whole units rounding up, or `None` when they exceed `u64::MAX`.
    pub fn to_ceil(self) -> (r: Option<u64>)
        ensures
            r == (if ceil_units(self.bits as int) <= u64::MAX {
                Some(ceil_units(self.bits as int) as u64)
            } else {
                None
            }),
    {
        let whole: u128 = self.bits / FRACTION_ONE_BITS;
        let units: u128 = if self.bits % FRACTION_ONE_BITS == 0 {
            whole
        } else {
            whole + 1
        };
        if units <= u64::MAX as u128 {
            Some(units as u64)
        } else {
            None
        }
    }
}

/// Rounding up to whole units keeps the order of bit patterns.
pub proof fn lemma_ceil_units_monotone(a: int, b: int)
    requires
        a <= b,
    ensures
        ceil_units(a) <= ceil_units(b),
{
    vstd::arithmetic::div_mod::lemma_div_is_ordered(a + scale() - 1, b + scale() - 1, scale());
}

} // verus!
