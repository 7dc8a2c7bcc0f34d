use fixed::types::U68F60;
use kvault::fraction::Fraction;
use kvault::reserve::CollateralExchangeRate;
use kvault::utils::fraction_utils::full_mul_fraction_ratio_ceil;
use kvault::utils::wide_math::{div_wide, mul_div_ceil, mul_div_floor, mul_wide};

const UNIT: u128 = 1 << 60;

fn samples() -> Vec<u128> {
    vec![
        0,
        1,
        2,
        3,
        7,
        UNIT - 1,
        UNIT,
        UNIT + 1,
        3 * UNIT / 2,
        12345678901234567890,
        (1 << 64) - 1,
        1 << 64,
        (1 << 64) + 1,
        0xdead_beef_cafe_f00d_0123_4567_89ab_cdef,
        (1 << 127) - 1,
        1 << 127,
        u128::MAX - 1,
        u128::MAX,
    ]
}

#[test]
fn wide_product_of_small_numbers_is_the_product() {
    for a in samples() {
        for b in samples() {
            if let Some(product) = a.checked_mul(b) {
                assert_eq!(mul_wide(a, b), (0, product));
            }
        }
    }
}

#[test]
fn wide_product_known_values() {
    assert_eq!(mul_wide(u128::MAX, u128::MAX), (u128::MAX - 1, 1));
    assert_eq!(mul_wide(1 << 127, 2), (1, 0));
    assert_eq!(mul_wide(1 << 64, 1 << 64), (1, 0));
    assert_eq!(mul_wide(u128::MAX, 2), (1, u128::MAX - 1));
    assert_eq!(mul_wide((1 << 64) + 1, (1 << 64) + 1), (1, (1 << 65) + 1));
}

#[test]
fn wide_division_undoes_the_wide_product() {
    for a in samples() {
        for b in samples() {
            if b == 0 {
                continue;
            }
            let (hi, lo) = mul_wide(a, b);
            assert!(hi < b);
            assert_eq!(div_wide(hi, lo, b), (a, 0));
            if b > 1 && lo < u128::MAX {
                let (q, r) = div_wide(hi, lo + 1, b);
                assert_eq!((q, r), if b == 1 { (a + 1, 0) } else { (a, 1) });
            }
        }
    }
}

#[test]
fn mul_div_agrees_with_plain_arithmetic_where_that_fits() {
    for a in samples() {
        for b in samples() {
            for d in samples() {
                let floor = mul_div_floor(a, b, d);
                let ceil = mul_div_ceil(a, b, d);
                if d == 0 {
                    assert_eq!(floor, None);
                    assert_eq!(ceil, None);
                } else if let Some(product) = a.checked_mul(b) {
                    assert_eq!(floor, Some(product / d));
                    let up = product / d + u128::from(product % d != 0);
                    assert_eq!(ceil, Some(up));
                }
            }
        }
    }
}

#[test]
fn mul_div_through_a_wide_product() {
    assert_eq!(mul_div_floor(u128::MAX, u128::MAX, u128::MAX), Some(u128::MAX));
    assert_eq!(mul_div_floor(u128::MAX, u128::MAX, u128::MAX - 1), None);
    assert_eq!(mul_div_floor(u128::MAX, 3, 4), Some(255211775190703847597530955573826158591));
    assert_eq!(mul_div_ceil(u128::MAX, 3, 4), Some(255211775190703847597530955573826158592));
    assert_eq!(mul_div_floor(1 << 127, 1 << 127, 1 << 126), None);
    assert_eq!(mul_div_floor(1 << 127, 1 << 126, 1 << 126), Some(1 << 127));
    assert_eq!(mul_div_ceil(u128::MAX, 2, 2), Some(u128::MAX));
    assert_eq!(mul_div_ceil(u128::MAX, 3, 3), Some(u128::MAX));
    assert_eq!(mul_div_ceil(u128::MAX, u128::MAX, u128::MAX), Some(u128::MAX));
    assert_eq!(mul_div_ceil(u128::MAX - 1, u128::MAX, u128::MAX - 1), Some(u128::MAX));
    assert_eq!(mul_div_ceil(7, 1, 2), Some(4));
    assert_eq!(mul_div_floor(7, 1, 2), Some(3));
}

#[test]
fn fraction_product_goes_through_the_fixed_point_library() {
    let half = Fraction::from_bits(UNIT / 2);
    let three = Fraction::from_u64(3);
    assert_eq!(three.checked_mul(half), Some(Fraction::from_bits(3 * UNIT / 2)));
    assert_eq!(half.checked_mul(half), Some(Fraction::from_bits(UNIT / 4)));
    assert_eq!(Fraction::from_bits(1).checked_mul(half), Some(Fraction::zero()));
    assert_eq!(Fraction::from_bits(u128::MAX).checked_mul(three), None);
    assert_eq!(
        Fraction::from_bits(u128::MAX).checked_mul(Fraction::from_u64(1)),
        Some(Fraction::from_bits(u128::MAX))
    );
}

#[test]
fn fractions_agree_with_the_fixed_point_library() {
    for a in samples() {
        let fa = U68F60::from_bits(a);
        let ours = Fraction::from_bits(a);
        assert_eq!(ours.floor().to_bits(), fa.floor().to_bits());
        assert_eq!(ours.frac().to_bits(), fa.frac().to_bits());
        assert_eq!(ours.to_floor(), fa.floor().checked_to_num::<u64>());
        assert_eq!(ours.to_ceil(), fa.checked_ceil().and_then(|c| c.checked_to_num::<u64>()));
        for b in samples() {
            let fb = U68F60::from_bits(b);
            let theirs = Fraction::from_bits(b);
            assert_eq!(ours.checked_add(theirs).map(Fraction::to_bits), fa.checked_add(fb).map(U68F60::to_bits));
            assert_eq!(ours.checked_sub(theirs).map(Fraction::to_bits), fa.checked_sub(fb).map(U68F60::to_bits));
            assert_eq!(ours.checked_mul(theirs).map(Fraction::to_bits), fa.checked_mul(fb).map(U68F60::to_bits));
            assert_eq!(ours.saturating_add(theirs).to_bits(), fa.saturating_add(fb).to_bits());
            assert_eq!(ours.saturating_sub(theirs).to_bits(), fa.saturating_sub(fb).to_bits());
            assert_eq!(ours.min(theirs).to_bits(), fa.min(fb).to_bits());
            assert_eq!(ours.checked_mul_int(b).map(Fraction::to_bits), fa.checked_mul_int(b).map(U68F60::to_bits));
            assert_eq!(ours.checked_div_int(b).map(Fraction::to_bits), fa.checked_div_int(b).map(U68F60::to_bits));
            assert_eq!(
                ours.checked_mul(theirs).map(Fraction::to_bits),
                mul_div_floor(a, b, UNIT)
            );
        }
    }
    for value in [0u64, 1, 2, 999, u64::MAX] {
        assert_eq!(Fraction::from_u64(value).to_bits(), U68F60::from_num(value).to_bits());
        assert_eq!(
            Fraction::from_bps(value).to_bits(),
            (U68F60::from_num(value) / 10_000u128).to_bits()
        );
    }
}

#[test]
fn fraction_conversions_round_as_named() {
    let x = Fraction::from_bits(7 * UNIT + 1);
    assert_eq!(x.to_floor(), Some(7));
    assert_eq!(x.to_ceil(), Some(8));
    assert_eq!(x.floor(), Fraction::from_u64(7));
    assert_eq!(x.frac(), Fraction::from_bits(1));
    assert_eq!(Fraction::from_u64(7).to_ceil(), Some(7));
    assert_eq!(Fraction::from_bits(u128::MAX).to_floor(), None);
    assert_eq!(Fraction::from_bits(u128::MAX).to_ceil(), None);
    assert_eq!(Fraction::from_u64(u64::MAX).to_floor(), Some(u64::MAX));
    assert_eq!(Fraction::from_bits((u64::MAX as u128) * UNIT + 1).to_ceil(), None);
    assert_eq!(Fraction::from_bps(10_000), Fraction::from_u64(1));
    assert_eq!(Fraction::from_bps(100).to_bits(), 11529215046068469);
}

#[test]
fn fraction_ratios_round_as_named() {
    let ten = Fraction::from_u64(10);
    assert_eq!(ten.mul_int_ratio(1, 3), Some(Fraction::from_bits(3843071682022823253)));
    assert_eq!(ten.mul_int_ratio_ceil(1, 3), Some(Fraction::from_bits(3843071682022823254)));
    assert_eq!(ten.mul_int_ratio(1, 0), None);
    assert_eq!(ten.mul_int_ratio_ceil(1, 0), None);
    assert_eq!(ten.mul_int_ratio(2, 5), Some(Fraction::from_u64(4)));
    assert_eq!(ten.mul_int_ratio_ceil(2, 5), Some(Fraction::from_u64(4)));
    assert_eq!(Fraction::from_bits(u128::MAX).mul_int_ratio(u64::MAX, u64::MAX), Some(Fraction::from_bits(u128::MAX)));
    assert_eq!(Fraction::from_bits(u128::MAX).mul_int_ratio(2, 1), None);
    assert_eq!(
        full_mul_fraction_ratio_ceil(ten, Fraction::from_u64(1), Fraction::from_u64(3)),
        Fraction::from_bits(3843071682022823254)
    );
}

#[test]
fn exchange_rate_of_an_unused_reserve_is_one_for_one() {
    for rate in [
        CollateralExchangeRate::new(0, Fraction::from_u64(5)),
        CollateralExchangeRate::new(5, Fraction::zero()),
        CollateralExchangeRate::new(0, Fraction::zero()),
    ] {
        assert_eq!(rate.fraction_collateral_to_liquidity(Fraction::from_u64(9)), Some(Fraction::from_u64(9)));
        assert_eq!(rate.fraction_liquidity_to_collateral(Fraction::from_u64(9)), Some(Fraction::from_u64(9)));
        assert_eq!(rate.liquidity_to_collateral_ceil(9), Some(9));
    }
}

#[test]
fn exchange_rate_conversions_round_as_named() {
    let rate = CollateralExchangeRate::new(3, Fraction::from_u64(7));
    assert_eq!(
        rate.fraction_collateral_to_liquidity(Fraction::from_u64(200)),
        Some(Fraction::from_bits(538030035483195255466))
    );
    assert_eq!(
        rate.fraction_liquidity_to_collateral(Fraction::from_u64(300)).unwrap().to_floor(),
        Some(128)
    );
    assert_eq!(
        rate.fraction_liquidity_to_collateral(Fraction::from_u64(7)),
        Some(Fraction::from_u64(3))
    );
    let down = rate.fraction_liquidity_to_collateral(Fraction::from_u64(1)).unwrap();
    let up = rate.fraction_liquidity_to_collateral_ceil(Fraction::from_u64(1)).unwrap();
    assert_eq!(up.to_bits(), down.to_bits() + 1);
    assert_eq!(rate.liquidity_to_collateral_ceil(99), Some(43));
    assert_eq!(rate.liquidity_to_collateral_ceil(7), Some(3));
    assert_eq!(rate.liquidity_to_collateral_ceil(0), Some(0));

    let degenerate = CollateralExchangeRate {
        collateral_supply: Fraction::zero(),
        liquidity_supply: Fraction::zero(),
    };
    assert_eq!(degenerate.fraction_collateral_to_liquidity(Fraction::from_u64(1)), None);
    assert_eq!(degenerate.fraction_liquidity_to_collateral(Fraction::from_u64(1)), None);
    assert_eq!(degenerate.fraction_liquidity_to_collateral_ceil(Fraction::from_u64(1)), None);
    assert_eq!(degenerate.liquidity_to_collateral_ceil(1), None);
}
