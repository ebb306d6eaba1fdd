use anchor_guardian::wide::{checked_multiply_ratio, Decimal256, Uint256};

const ONE: u128 = 1_000_000_000_000_000_000;

fn max() -> Uint256 {
    Uint256 { limbs: [u64::MAX, u64::MAX, u64::MAX, u64::MAX] }
}

#[test]
fn from_u128_splits_into_limbs() {
    assert_eq!(Uint256::from_u128(0).limbs, [0, 0, 0, 0]);
    assert_eq!(Uint256::from_u128(5).limbs, [5, 0, 0, 0]);
    assert_eq!(Uint256::from_u128(1u128 << 64).limbs, [0, 1, 0, 0]);
    assert_eq!(Uint256::from_u128(u128::MAX).limbs, [u64::MAX, u64::MAX, 0, 0]);
}

#[test]
fn to_u128_gives_the_number_where_it_fits() {
    assert_eq!(Uint256::from_u128(0).to_u128(), Some(0));
    assert_eq!(Uint256::from_u128(u128::MAX).to_u128(), Some(u128::MAX));
    assert_eq!(Uint256 { limbs: [7, 9, 0, 0] }.to_u128(), Some((9u128 << 64) + 7));
    assert_eq!(Uint256 { limbs: [0, 0, 1, 0] }.to_u128(), None);
    assert_eq!(Uint256 { limbs: [0, 0, 0, 1] }.to_u128(), None);
}

#[test]
fn zero_and_max() {
    assert!(Uint256::zero().is_zero());
    assert!(!Uint256::from_u128(1).is_zero());
    assert!(!Uint256 { limbs: [0, 0, 0, 1] }.is_zero());
    assert_eq!(Uint256::max_value(), max());
}

#[test]
fn lt_orders_by_value() {
    let small = Uint256::from_u128(5);
    let large = Uint256::from_u128(7);
    assert!(small.lt(&large));
    assert!(!large.lt(&small));
    assert!(!small.lt(&small));
    // the high limb decides, whatever the low limbs hold
    let high = Uint256 { limbs: [0, 0, 0, 1] };
    let low = Uint256 { limbs: [u64::MAX, u64::MAX, u64::MAX, 0] };
    assert!(low.lt(&high));
    assert!(!high.lt(&low));
}

#[test]
fn checked_add_sums() {
    let five = Uint256::from_u128(5);
    let seven = Uint256::from_u128(7);
    assert_eq!(five.checked_add(&seven), Some(Uint256::from_u128(12)));
    // a carry out of the low 128 bits
    assert_eq!(
        Uint256::from_u128(u128::MAX).checked_add(&Uint256::from_u128(1)),
        Some(Uint256 { limbs: [0, 0, 1, 0] })
    );
    assert_eq!(max().checked_add(&Uint256::zero()), Some(max()));
    assert_eq!(max().checked_add(&Uint256::from_u128(1)), None);
    assert_eq!(Uint256::from_u128(1).checked_add(&max()), None);
}

#[test]
fn checked_sub_subtracts() {
    let five = Uint256::from_u128(5);
    let seven = Uint256::from_u128(7);
    assert_eq!(seven.checked_sub(&five), Some(Uint256::from_u128(2)));
    assert_eq!(five.checked_sub(&five), Some(Uint256::zero()));
    assert_eq!(five.checked_sub(&seven), None);
    assert_eq!(
        Uint256 { limbs: [0, 0, 1, 0] }.checked_sub(&Uint256::from_u128(1)),
        Some(Uint256::from_u128(u128::MAX))
    );
}

#[test]
fn checked_mul_multiplies() {
    assert_eq!(
        Uint256::from_u128(100).checked_mul(&Uint256::from_u128(7)),
        Some(Uint256::from_u128(700))
    );
    assert_eq!(
        Uint256::from_u128(u128::MAX).checked_mul(&Uint256::from_u128(u128::MAX)),
        // (2^128 - 1)^2 = 2^256 - 2^129 + 1
        Some(Uint256 { limbs: [1, 0, u64::MAX - 1, u64::MAX] })
    );
    assert_eq!(Uint256::from_u128(100).checked_mul(&Uint256::zero()), Some(Uint256::zero()));
    assert_eq!(Uint256::zero().checked_mul(&max()), Some(Uint256::zero()));
    assert_eq!(max().checked_mul(&Uint256::from_u128(1)), Some(max()));
}

#[test]
fn checked_mul_refuses_a_product_beyond_256_bits() {
    assert_eq!(max().checked_mul(&Uint256::from_u128(2)), None);
    // 2^192 * 2^64 is exactly 2^256: one too many
    let amount = Uint256 { limbs: [0, 0, 0, 1] };
    assert_eq!(amount.checked_mul(&Uint256 { limbs: [0, 1, 0, 0] }), None);
    // 2^192 * (2^64 - 1) fits
    assert_eq!(
        amount.checked_mul(&Uint256 { limbs: [u64::MAX, 0, 0, 0] }),
        Some(Uint256 { limbs: [0, 0, 0, u64::MAX] })
    );
}

#[test]
fn checked_ratio_divides_the_product_and_rounds_down() {
    let ratio = |a: u128, n: u128, d: u128| {
        Uint256::from_u128(a).checked_ratio(&Uint256::from_u128(n), &Uint256::from_u128(d))
    };
    assert_eq!(ratio(7, 10, 3), Some(Uint256::from_u128(23)));
    assert_eq!(ratio(100, ONE + ONE / 2, ONE), Some(Uint256::from_u128(150)));
    assert_eq!(ratio(7, 0, 3), Some(Uint256::zero()));
    assert_eq!(ratio(0, 7, 3), Some(Uint256::zero()));
    assert_eq!(ratio(7, 10, 0), None);
    assert_eq!(ratio(0, 0, 0), None);
    // the product is beyond 128 bits, not beyond 256
    assert_eq!(ratio(u128::MAX, u128::MAX, u128::MAX), Some(Uint256::from_u128(u128::MAX)));
    assert_eq!(max().checked_ratio(&Uint256::from_u128(2), &Uint256::from_u128(2)), None);
    assert_eq!(max().checked_ratio(&Uint256::from_u128(1), &Uint256::from_u128(1)), Some(max()));
}

#[test]
fn decimal_from_atomics_keeps_the_units() {
    assert_eq!(Decimal256::from_atomics(ONE).atomics, Uint256::from_u128(ONE));
    assert_eq!(Decimal256::from_atomics(0).atomics, Uint256::zero());
}

#[test]
fn checked_multiply_ratio_divides_the_product() {
    assert_eq!(checked_multiply_ratio(7, 10, 3), Some(23));
    assert_eq!(checked_multiply_ratio(100, 300, 200), Some(150));
    assert_eq!(checked_multiply_ratio(50, 150, 187), Some(40));
    assert_eq!(checked_multiply_ratio(0, 10, 3), Some(0));
    assert_eq!(checked_multiply_ratio(7, 10, 0), None);
    // the product needs more than 128 bits, the quotient does not
    assert_eq!(checked_multiply_ratio(u128::MAX, u128::MAX, u128::MAX), Some(u128::MAX));
    assert_eq!(checked_multiply_ratio(u128::MAX, 2, 1), None);
    assert_eq!(checked_multiply_ratio(u128::MAX, 2, 2), Some(u128::MAX));
}
