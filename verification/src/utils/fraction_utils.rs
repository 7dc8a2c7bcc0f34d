use crate::fraction::Fraction;
use crate::utils::wide_math::{mul_div_ceil, mul_div_ceil_spec};
use vstd::prelude::*;

verus! {

/// `input_fraction * numerator / denominator`, rounded up, through a wide product.
pub fn full_mul_fraction_ratio_ceil(
    input_fraction: Fraction,
    numerator: Fraction,
    denominator: Fraction,
) -> (r: Fraction)
    requires
        denominator.bits != 0,
        mul_div_ceil_spec(
            input_fraction.bits as int,
            numerator.bits as int,
            denominator.bits as int,
        ) <= u128::MAX,
    ensures
        r.bits == mul_div_ceil_spec(
            input_fraction.bits as int,
            numerator.bits as int,
            denominator.bits as int,
        ),
{
    match mul_div_ceil(input_fraction.bits, numerator.bits, denominator.bits) {
        Some(bits) => Fraction::from_bits(bits),
        None => Fraction::zero(),
    }
}

} // verus!
