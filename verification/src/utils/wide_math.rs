//! Multiplication and division through a 256-bit intermediate.
//!
//! Share prices, fee charges and exchange-rate conversions all have the form
//! `a * b / d` on 128-bit operands. The product does not fit in a machine
//! word, so it is held as a pair of 128-bit halves and divided bit by bit.
use vstd::arithmetic::div_mod::*;
use vstd::arithmetic::mul::*;
use vstd::arithmetic::power2::*;
use vstd::prelude::*;

verus! {

/// `2^64`.
pub open spec fn two_64() -> int {
    0x1_0000_0000_0000_0000
}

/// `2^128`, one more than the largest `u128`.
pub open spec fn two_128() -> int {
    0x1_0000_0000_0000_0000_0000_0000_0000_0000int
}

/// `floor(a * b / d)`, the quotient every rounding-down conversion is stated with.
pub open spec fn mul_div_floor_spec(a: int, b: int, d: int) -> int {
    (a * b) / d
}

/// `ceil(a * b / d)` for a positive divisor.
pub open spec fn mul_div_ceil_spec(a: int, b: int, d: int) -> int {
    (a * b + d - 1) / d
}

/// The powers of two that the limbs and halves are counted in.
proof fn lemma_two_128()
    ensures
        pow2(64) == two_64(),
        pow2(127) * 2 == two_128(),
        pow2(128) == two_128(),
        two_64() * two_64() == two_128(),
{
    lemma2_to64();
    lemma_pow2_adds(64, 64);
    lemma_pow2_unfold(128);
    assert(pow2(64) * pow2(64) == two_128()) by (nonlinear_arith)
        requires
            pow2(64) == 0x1_0000_0000_0000_0000,
    ;
}

/// The product of two 64-bit limbs fits in 128 bits, with room for two carries.
proof fn lemma_limb_product(x: int, y: int)
    requires
        0 <= x < two_64(),
        0 <= y < two_64(),
    ensures
        0 <= x * y <= 0xffff_ffff_ffff_fffe_0000_0000_0000_0001,
{
    assert(0 <= x * y <= 0xffff_ffff_ffff_ffff * 0xffff_ffff_ffff_ffff) by (nonlinear_arith)
        requires
            0 <= x <= 0xffff_ffff_ffff_ffff,
            0 <= y <= 0xffff_ffff_ffff_ffff,
    ;
}

/// A product of two-limb numbers in terms of the products of their limbs.
proof fn lemma_limb_expansion(a1: int, a0: int, b1: int, b0: int)
    ensures
        (a1 * two_64() + a0) * (b1 * two_64() + b0) == (a1 * b1) * two_128() + (a1 * b0 + a0
            * b1) * two_64() + a0 * b0,
{
    assert((a1 * 0x1_0000_0000_0000_0000 + a0) * (b1 * 0x1_0000_0000_0000_0000 + b0) == (a1 * b1)
        * 0x1_0000_0000_0000_0000_0000_0000_0000_0000int + (a1 * b0 + a0 * b1)
        * 0x1_0000_0000_0000_0000 + a0 * b0) by (nonlinear_arith);
}

/// The full 256-bit product of two 128-bit numbers, as `(high, low)` halves.
pub fn mul_wide(a: u128, b: u128) -> (r: (u128, u128))
    ensures
        r.0 * two_128() + r.1 == a * b,
{
    // Schoolbook multiplication on 64-bit limbs.
    let a0: u128 = a % 0x1_0000_0000_0000_0000;
    let a1: u128 = a / 0x1_0000_0000_0000_0000;
    let b0: u128 = b % 0x1_0000_0000_0000_0000;
    let b1: u128 = b / 0x1_0000_0000_0000_0000;
    proof {
        lemma_limb_product(a0 as int, b0 as int);
        lemma_limb_product(a0 as int, b1 as int);
        lemma_limb_product(a1 as int, b0 as int);
        lemma_limb_product(a1 as int, b1 as int);
        lemma_limb_expansion(a1 as int, a0 as int, b1 as int, b0 as int);
    }
    let low_low: u128 = a0 * b0;
    let low_high: u128 = a0 * b1;
    let high_low: u128 = a1 * b0;
    let high_high: u128 = a1 * b1;
    // The middle column is summed in two steps, each of which carries into
    // the high half.
    let m1: u128 = high_low + low_low / 0x1_0000_0000_0000_0000;
    let m2: u128 = low_high + m1 % 0x1_0000_0000_0000_0000;
    let lo: u128 = low_low % 0x1_0000_0000_0000_0000 + (m2 % 0x1_0000_0000_0000_0000)
        * 0x1_0000_0000_0000_0000;
    let hi: u128 = high_high + m1 / 0x1_0000_0000_0000_0000 + m2 / 0x1_0000_0000_0000_0000;
    proof {
        assert(a1 * b0 + a0 * b1 == high_low + low_high);
        assert((high_low + low_high) * two_64() + low_low == (m1 / 0x1_0000_0000_0000_0000 + m2
            / 0x1_0000_0000_0000_0000) * two_128() + lo);
    }
    (hi, lo)
}

/// Long division of the 256-bit number `hi * 2^128 + lo` by `d`, for a quotient
/// that fits in 128 bits. Returns `(quotient, remainder)`.
pub fn div_wide(hi: u128, lo: u128, d: u128) -> (r: (u128, u128))
    requires
        hi < d,
    ensures
        hi * two_128() + lo == r.0 * d + r.1,
        r.1 < d,
        r.0 == (hi * two_128() + lo) / (d as int),
        r.1 == (hi * two_128() + lo) % (d as int),
{
    let mut q: u128 = 0;
    let mut rem: u128 = hi;
    let mut w_half: u128 = 0x8000_0000_0000_0000_0000_0000_0000_0000;
    let mut i: u32 = 0;
    proof {
        lemma_two_128();
        lemma2_to64();
        lemma_basic_div(lo as int, two_128());
        assert(hi * 1 == hi) by (nonlinear_arith);
        assert(0 * d == 0) by (nonlinear_arith);
    }
    while i < 128
        invariant
            i <= 128,
            rem < d,
            hi < d,
            q < pow2(i as nat),
            i < 128 ==> w_half == pow2((127 - i) as nat),
            hi * pow2(i as nat) + lo as int / (pow2((128 - i) as nat) as int) == q * d + rem,
        decreases 128 - i,
    {
        proof {
            lemma_two_128();
            lemma_pow2_pos((127 - i) as nat);
            lemma_pow2_unfold((128 - i) as nat);
            lemma_pow2_unfold((i + 1) as nat);
            if i < 127 {
                lemma_pow2_strictly_increases(i as nat, 127);
            }
            assert(pow2(i as nat) <= pow2(127));
            assert(2 * q + 1 < two_128());
            lemma_div_denominator(lo as int, pow2((127 - i) as nat) as int, 2);
        }
        // Bring down the next bit of the low half, then subtract the divisor
        // if it fits. The doubled remainder may need a 129th bit, `carry`.
        let x: u128 = lo / w_half;
        let bit: u128 = x % 2;
        let carry: bool = rem >= 0x8000_0000_0000_0000_0000_0000_0000_0000;
        let shifted: u128 = (rem % 0x8000_0000_0000_0000_0000_0000_0000_0000) * 2 + bit;
        let ghost full: int = 2 * rem + bit;
        assert(full == shifted + (if carry { two_128() } else { 0 }));
        let ghost q0: int = q as int;
        let ghost rem0: int = rem as int;
        if carry || shifted >= d {
            rem = if carry {
                shifted + (u128::MAX - d) + 1
            } else {
                shifted - d
            };
            q = q * 2 + 1;
            assert(q * d + rem == 2 * (q0 * d + rem0) + bit) by (nonlinear_arith)
                requires
                    q == 2 * q0 + 1,
                    rem == 2 * rem0 + bit - d,
            ;
        } else {
            rem = shifted;
            q = q * 2;
            assert(q * d + rem == 2 * (q0 * d + rem0) + bit) by (nonlinear_arith)
                requires
                    q == 2 * q0,
                    rem == 2 * rem0 + bit,
            ;
        }
        proof {
            assert(hi * pow2((i + 1) as nat) == 2 * (hi * pow2(i as nat))) by (nonlinear_arith)
                requires
                    pow2((i + 1) as nat) == 2 * pow2(i as nat),
            ;
            if i < 127 {
                lemma_pow2_unfold((127 - i) as nat);
            }
        }
        w_half = w_half / 2;
        i = i + 1;
    }
    proof {
        lemma_two_128();
        lemma2_to64();
        let ghost unit: int = pow2((128 - i) as nat) as int;
        assert(lo as int / unit == lo) by (nonlinear_arith)
            requires
                unit == 1,
        ;
        lemma_fundamental_div_mod_converse(hi * two_128() + lo, d as int, q as int, rem as int);
    }
    (q, rem)
}

/// A high half that is not below the divisor means a quotient beyond 128 bits.
proof fn lemma_quotient_too_large(x: int, hi: int, lo: int, d: int)
    requires
        0 < d <= hi,
        0 <= lo,
        x == hi * two_128() + lo,
    ensures
        x / d >= two_128(),
{
    assert(d * two_128() <= x) by (nonlinear_arith)
        requires
            0 < d <= hi,
            0 <= lo,
            x == hi * two_128() + lo,
    ;
    lemma_div_is_ordered(d * two_128(), x, d);
    lemma_div_multiples_vanish(two_128(), d);
}

/// `floor(a * b / d)` without intermediate overflow.
///
/// `None` when `d` is zero or the quotient does not fit in 128 bits.
pub fn mul_div_floor(a: u128, b: u128, d: u128) -> (r: Option<u128>)
    ensures
        r == (if d != 0 && mul_div_floor_spec(a as int, b as int, d as int) <= u128::MAX {
            Some(mul_div_floor_spec(a as int, b as int, d as int) as u128)
        } else {
            None
        }),
{
    if d == 0 {
        return None;
    }
    let (hi, lo) = mul_wide(a, b);
    if hi >= d {
        proof {
            lemma_quotient_too_large(a * b, hi as int, lo as int, d as int);
        }
        return None;
    }
    let (q, _rem) = div_wide(hi, lo, d);
    Some(q)
}

/// The quotient rounded up is one more than the quotient rounded down,
/// unless the division leaves no remainder.
proof fn lemma_ceil_from_parts(x: int, d: int, q: int, rem: int)
    requires
        0 < d,
        0 <= rem < d,
        x == q * d + rem,
    ensures
        (x + d - 1) / d == (if rem == 0 { q } else { q + 1 }),
{
    if rem == 0 {
        lemma_fundamental_div_mod_converse(x + d - 1, d, q, d - 1);
    } else {
        assert(x + d - 1 == (q + 1) * d + (rem - 1)) by (nonlinear_arith)
            requires
                x == q * d + rem,
        ;
        lemma_fundamental_div_mod_converse(x + d - 1, d, q + 1, rem - 1);
    }
}

/// `ceil(a * b / d)` without intermediate overflow.
///
/// `None` when `d` is zero or the rounded quotient does not fit in 128 bits.
pub fn mul_div_ceil(a: u128, b: u128, d: u128) -> (r: Option<u128>)
    ensures
        r == (if d != 0 && mul_div_ceil_spec(a as int, b as int, d as int) <= u128::MAX {
            Some(mul_div_ceil_spec(a as int, b as int, d as int) as u128)
        } else {
            None
        }),
{
    if d == 0 {
        return None;
    }
    let (hi, lo) = mul_wide(a, b);
    if hi >= d {
        proof {
            lemma_quotient_too_large(a * b, hi as int, lo as int, d as int);
            lemma_div_is_ordered(a * b, a * b + d - 1, d as int);
        }
        return None;
    }
    let (q, rem) = div_wide(hi, lo, d);
    proof {
        lemma_ceil_from_parts(a * b, d as int, q as int, rem as int);
    }
    if rem == 0 {
        Some(q)
    } else if q == u128::MAX {
        None
    } else {
        Some(q + 1)
    }
}

} // verus!
