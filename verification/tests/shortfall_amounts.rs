use anchor_guardian::error::ContractError;
use anchor_guardian::shortfall::{
    is_liquidatable, liquidation_value, price_is_fresh, shortfall, Collateral, Shortfall,
    DECIMAL_FRACTIONAL_SQUARED,
};
use anchor_guardian::wide::{Decimal256, Uint256};

const ONE: u128 = 1_000_000_000_000_000_000;

fn holding(token: &str, amount: u128) -> Collateral {
    Collateral { token: token.to_string(), amount: Uint256::from_u128(amount) }
}

fn price(atomics: u128) -> Decimal256 {
    Decimal256::from_atomics(atomics)
}

#[test]
fn one_whole_of_a_value_times_a_ratio() {
    assert_eq!(DECIMAL_FRACTIONAL_SQUARED, ONE * ONE);
}

#[test]
fn liquidatable_from_the_limit_on() {
    let limit = Uint256::from_u128(1000);
    assert!(!is_liquidatable(&Uint256::from_u128(999), &limit));
    assert!(is_liquidatable(&Uint256::from_u128(1000), &limit));
    assert!(is_liquidatable(&Uint256::from_u128(1001), &limit));
}

#[test]
fn price_is_fresh_within_the_window() {
    // now 1000, window 60: fresh from 940 on
    assert!(price_is_fresh(940, 940, 1000, 60));
    assert!(price_is_fresh(1000, 2000, 1000, 60));
    assert!(!price_is_fresh(939, 1000, 1000, 60));
    assert!(!price_is_fresh(1000, 939, 1000, 60));
    assert!(!price_is_fresh(0, 0, 1000, 60));
}

#[test]
fn price_is_fresh_when_the_window_reaches_before_time_zero() {
    assert!(price_is_fresh(0, 0, 50, 60));
    assert!(price_is_fresh(0, 0, 60, 60));
    assert!(!price_is_fresh(0, 0, 61, 60));
}

#[test]
fn liquidation_value_sums_in_full_precision() {
    let holdings = vec![holding("bluna", 10), holding("beth", 3)];
    // 10 * 2.5 + 3 * 0.5 = 26.5, in units of 10^-18
    let prices = vec![price(ONE * 5 / 2), price(ONE / 2)];
    assert_eq!(
        liquidation_value(&holdings, &prices),
        Some(Uint256::from_u128(26_500_000_000_000_000_000))
    );
}

#[test]
fn liquidation_value_keeps_the_fractions_of_each_holding() {
    // 1 * 0.5 + 1 * 0.5 = 1
    let holdings = vec![holding("a", 1), holding("b", 1)];
    let prices = vec![price(ONE / 2), price(ONE / 2)];
    assert_eq!(liquidation_value(&holdings, &prices), Some(Uint256::from_u128(ONE)));
}

#[test]
fn liquidation_value_counts_the_priced_holdings_only() {
    let holdings = vec![holding("a", 10), holding("b", 20), holding("c", 30)];
    let prices = vec![price(ONE), price(ONE)];
    assert_eq!(liquidation_value(&holdings, &prices), Some(Uint256::from_u128(30 * ONE)));
    let holdings = vec![holding("a", 10)];
    let prices = vec![price(ONE), price(ONE), price(ONE)];
    assert_eq!(liquidation_value(&holdings, &prices), Some(Uint256::from_u128(10 * ONE)));
    assert_eq!(liquidation_value(&vec![], &vec![]), Some(Uint256::zero()));
}

#[test]
fn liquidation_value_refuses_what_does_not_fit() {
    let max = Uint256 { limbs: [u64::MAX, u64::MAX, u64::MAX, u64::MAX] };
    let huge = Collateral { token: "a".to_string(), amount: max };
    // a product beyond 256 bits
    assert_eq!(liquidation_value(&vec![huge], &vec![price(ONE)]), None);
    // each product fits, the sum does not: 2^255 + 2^255
    let half = Uint256 { limbs: [0, 0, 0, 1 << 63] };
    let unit = Decimal256 { atomics: Uint256::from_u128(1) };
    let holdings = vec![
        Collateral { token: "a".to_string(), amount: half },
        Collateral { token: "b".to_string(), amount: half },
    ];
    assert_eq!(liquidation_value(&holdings, &vec![unit, unit]), None);
    // one of them alone fits
    assert_eq!(liquidation_value(&holdings, &vec![unit]), Some(half));
    // an earlier holding that does not fit spoils the whole
    let holdings = vec![
        Collateral { token: "a".to_string(), amount: max },
        Collateral { token: "b".to_string(), amount: Uint256::from_u128(1) },
    ];
    assert_eq!(liquidation_value(&holdings, &vec![price(ONE), price(ONE)]), None);
}

#[test]
fn shortfall_rounds_once_at_the_end() {
    // two holdings of 1 at a price of 0.5 are worth 1 together: at a fee
    // ratio of one the incentive is 1, and with 70 of debt 71 are to raise
    let holdings = vec![holding("a", 1), holding("b", 1)];
    let prices = vec![price(ONE / 2), price(ONE / 2)];
    let found =
        shortfall(&Uint256::from_u128(1070), &Uint256::from_u128(1000), &holdings, &prices, ONE);
    assert_eq!(found, Ok(Shortfall { liquidator_fee: 1, repayment_amount: 70, ask_amount: 71 }));
    // three holdings of 1 at 0.5 are worth 1.5: the incentive is 1
    let holdings = vec![holding("a", 1), holding("b", 1), holding("c", 1)];
    let prices = vec![price(ONE / 2), price(ONE / 2), price(ONE / 2)];
    let found =
        shortfall(&Uint256::from_u128(1070), &Uint256::from_u128(1000), &holdings, &prices, ONE);
    assert_eq!(found, Ok(Shortfall { liquidator_fee: 1, repayment_amount: 70, ask_amount: 71 }));
    // 3 at 0.5 with a fee of two thirds: 1.5 * 0.666... = 0.999... rounds to 0
    let found = shortfall(
        &Uint256::from_u128(1070),
        &Uint256::from_u128(1000),
        &holdings,
        &prices,
        666_666_666_666_666_666,
    );
    assert_eq!(found, Ok(Shortfall { liquidator_fee: 0, repayment_amount: 70, ask_amount: 70 }));
    // a value of 0.5 and a price fraction are not lost before the fee:
    // 5 * 0.3 = 1.5, times a fee of 0.7: 1.05
    let found = shortfall(
        &Uint256::from_u128(10),
        &Uint256::from_u128(10),
        &vec![holding("a", 5)],
        &vec![price(ONE * 3 / 10)],
        ONE * 7 / 10,
    );
    assert_eq!(found, Ok(Shortfall { liquidator_fee: 1, repayment_amount: 0, ask_amount: 1 }));
}

#[test]
fn shortfall_refuses_a_total_times_fee_beyond_256_bits() {
    // the total of 2^255 fits 256 bits, its product with the fee ratio of
    // one, 2^255 * 10^18, does not
    let large =
        Collateral { token: "a".to_string(), amount: Uint256 { limbs: [0, 0, 0, 1 << 63] } };
    let found = shortfall(
        &Uint256::from_u128(10),
        &Uint256::from_u128(10),
        &vec![large],
        &vec![Decimal256 { atomics: Uint256::from_u128(1) }],
        ONE,
    );
    assert_eq!(found, Err(ContractError::Overflow));
}

#[test]
fn shortfall_is_fee_plus_debt_above_the_limit() {
    let holdings = vec![holding("bluna", 1000)];
    let prices = vec![price(ONE * 2)];
    // total value 2000, fee 1% = 20, repayment 1500 - 1200 = 300
    let found = shortfall(
        &Uint256::from_u128(1500),
        &Uint256::from_u128(1200),
        &holdings,
        &prices,
        ONE / 100,
    );
    assert_eq!(
        found,
        Ok(Shortfall { liquidator_fee: 20, repayment_amount: 300, ask_amount: 320 })
    );
}

#[test]
fn shortfall_rounds_the_fee_down() {
    let holdings = vec![holding("bluna", 199)];
    let prices = vec![price(ONE)];
    // 199 * 1% = 1.99
    let found =
        shortfall(&Uint256::from_u128(10), &Uint256::from_u128(10), &holdings, &prices, ONE / 100);
    assert_eq!(found, Ok(Shortfall { liquidator_fee: 1, repayment_amount: 0, ask_amount: 1 }));
}

#[test]
fn shortfall_with_no_fee_is_the_repayment() {
    let holdings = vec![holding("bluna", 1000)];
    let prices = vec![price(ONE)];
    let found = shortfall(&Uint256::from_u128(70), &Uint256::from_u128(50), &holdings, &prices, 0);
    assert_eq!(found, Ok(Shortfall { liquidator_fee: 0, repayment_amount: 20, ask_amount: 20 }));
}

#[test]
fn shortfall_of_a_safe_loan_is_refused() {
    let found = shortfall(&Uint256::from_u128(49), &Uint256::from_u128(50), &vec![], &vec![], 0);
    assert_eq!(found, Err(ContractError::NotLiquidatable));
}

#[test]
fn shortfall_beyond_128_bits_is_refused() {
    // the loan exceeds the limit by 2^128
    let loan = Uint256 { limbs: [0, 0, 1, 0] };
    let found = shortfall(&loan, &Uint256::zero(), &vec![], &vec![], 0);
    assert_eq!(found, Err(ContractError::Overflow));
    // one less fits
    let loan = Uint256::from_u128(u128::MAX);
    let found = shortfall(&loan, &Uint256::zero(), &vec![], &vec![], 0);
    assert_eq!(
        found,
        Ok(Shortfall { liquidator_fee: 0, repayment_amount: u128::MAX, ask_amount: u128::MAX })
    );
    // and one unit of fee on top does not
    let found = shortfall(&loan, &Uint256::zero(), &vec![holding("a", 1)], &vec![price(ONE)], ONE);
    assert_eq!(found, Err(ContractError::Overflow));
}

#[test]
fn shortfall_takes_large_balances_with_a_small_gap() {
    // loan and limit beyond 128 bits, five apart
    let loan = Uint256 { limbs: [5, 0, 0, 1] };
    let limit = Uint256 { limbs: [0, 0, 0, 1] };
    let found = shortfall(&loan, &limit, &vec![], &vec![], ONE);
    assert_eq!(found, Ok(Shortfall { liquidator_fee: 0, repayment_amount: 5, ask_amount: 5 }));
}
