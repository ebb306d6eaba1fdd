use anchor_guardian::wide::{checked_multiply_ratio, Decimal256, Uint256};
use cosmwasm_std::{Decimal, Fraction, Uint128};
use std::str::FromStr;

fn big(amount: Uint256) -> cosmwasm_bignumber::Uint256 {
    let mut big = cosmwasm_bignumber::Uint256::zero();
    (big.0).0 = amount.limbs;
    big
}

fn wide(amount: cosmwasm_bignumber::Uint256) -> Uint256 {
    Uint256 { limbs: (amount.0).0 }
}

fn samples() -> Vec<Uint256> {
    vec![
        Uint256::zero(),
        Uint256::from_u128(1),
        Uint256::from_u128(1_000_000_000_000_000_000),
        Uint256::from_u128(u64::MAX as u128),
        Uint256::from_u128(u128::MAX),
        Uint256 { limbs: [0, 0, 1, 0] },
        Uint256 { limbs: [3, 5, 7, 0] },
        Uint256 { limbs: [u64::MAX, 0, u64::MAX, 0] },
    ]
}

#[test]
fn limbs_are_those_of_the_decimal_number() {
    assert_eq!(big(Uint256::from_u128(0)).to_string(), "0");
    assert_eq!(big(Uint256::from_u128(12345)).to_string(), "12345");
    assert_eq!(
        big(Uint256::from_u128(u128::MAX)).to_string(),
        "340282366920938463463374607431768211455"
    );
    assert_eq!(
        big(Uint256 { limbs: [0, 0, 1, 0] }).to_string(),
        "340282366920938463463374607431768211456"
    );
    assert_eq!(
        big(Uint256::max_value()).to_string(),
        "115792089237316195423570985008687907853269984665640564039457584007913129639935"
    );
    assert_eq!(
        wide(cosmwasm_bignumber::Uint256::from_str("340282366920938463463374607431768211456").unwrap()),
        Uint256 { limbs: [0, 0, 1, 0] }
    );
}

#[test]
fn widening_agrees_with_the_big_number() {
    for x in [0u128, 1, 1 << 64, u128::MAX - 1, u128::MAX] {
        assert_eq!(Uint256::from_u128(x), wide(cosmwasm_bignumber::Uint256::from(x)));
        assert_eq!(Uint256::from_u128(x).to_u128(), Some(u128::from(big(Uint256::from_u128(x)))));
    }
}

#[test]
fn sums_and_differences_agree_with_the_big_number() {
    for a in samples() {
        for b in samples() {
            // the samples stay below 2^192: no sum overflows
            assert_eq!(a.checked_add(&b), Some(wide(big(a) + big(b))));
            if big(a) >= big(b) {
                assert_eq!(a.checked_sub(&b), Some(wide(big(a) - big(b))));
            } else {
                assert_eq!(a.checked_sub(&b), None);
            }
            assert_eq!(a.lt(&b), big(a) < big(b));
        }
    }
}

#[test]
fn products_and_ratios_agree_with_the_big_number() {
    let factors = [
        Uint256::zero(),
        Uint256::from_u128(1),
        Uint256::from_u128(333_333_333_333_333_333),
        Uint256::from_u128(1_000_000_000_000_000_000),
        Uint256::from_u128(u64::MAX as u128),
    ];
    for a in samples() {
        for factor in factors {
            // amounts below 2^192 and factors below 2^64: no product overflows
            assert_eq!(a.checked_mul(&factor), Some(wide(big(a) * big(factor))));
            for divisor in factors {
                if divisor.is_zero() {
                    assert_eq!(a.checked_ratio(&factor, &divisor), None);
                } else {
                    assert_eq!(
                        a.checked_ratio(&factor, &divisor),
                        Some(wide(big(a).multiply_ratio(big(factor), big(divisor))))
                    );
                }
            }
        }
    }
}

#[test]
fn a_price_keeps_its_atomic_units() {
    let rate = cosmwasm_bignumber::Decimal256::from_str("2.5").unwrap();
    assert_eq!((rate.0).0, Decimal256::from_atomics(2_500_000_000_000_000_000).atomics.limbs);
    assert_eq!(
        (cosmwasm_bignumber::Decimal256::one().0).0,
        Decimal256::from_atomics(1_000_000_000_000_000_000).atomics.limbs
    );
}

#[test]
fn a_fee_ratio_widens_as_the_big_number_does() {
    for ratio in [
        Decimal::zero(),
        Decimal::percent(1),
        Decimal::permille(125),
        Decimal::one(),
        Decimal::from_str("1.05").unwrap(),
        Decimal::from_str("0.000000000000000001").unwrap(),
        Decimal::MAX,
    ] {
        let widened = cosmwasm_bignumber::Decimal256::from(ratio);
        assert_eq!(Decimal256::from_atomics(ratio.numerator()).atomics.limbs, (widened.0).0);
    }
}

#[test]
fn ratios_agree_with_the_128_bit_number() {
    let values = [0u128, 1, 7, 100, 1 << 64, u128::MAX / 3, u128::MAX];
    for a in values {
        for n in values {
            for d in values {
                if d == 0 {
                    assert_eq!(checked_multiply_ratio(a, n, d), None);
                } else if n <= d {
                    // the quotient is at most a: it fits
                    assert_eq!(
                        checked_multiply_ratio(a, n, d),
                        Some(Uint128::new(a).multiply_ratio(n, d).u128())
                    );
                }
            }
        }
    }
}
