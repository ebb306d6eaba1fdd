use anchor_guardian::contract::DECIMAL_FRACTIONAL;
use anchor_guardian::error::ContractError;
use anchor_guardian::instruction::Instruction;
use anchor_guardian::liquidation::{
    execute_liquidate_collateral, Liquidation, Reply, Request, Stage,
};
use anchor_guardian::rehearsal::{rehearse, Answers, PriceAnswer};
use anchor_guardian::settlement::compose;
use anchor_guardian::shortfall::{Collateral, Shortfall};
use anchor_guardian::state::{Config, Guardian};
use anchor_guardian::wide::{Decimal256, Uint256};

const ONE: u128 = DECIMAL_FRACTIONAL;

fn config(fee: u128) -> Config {
    Config {
        owner: "owner".to_string(),
        anchor_market_contract: "market".to_string(),
        anchor_overseer_contract: "overseer".to_string(),
        anchor_liquidation_contract: "liquidation".to_string(),
        anchor_oracle_contract: "oracle".to_string(),
        liquidator_fee: fee,
    }
}

fn guardian(address: &str, amount: u128, pair_address: &str) -> Guardian {
    Guardian { address: address.to_string(), amount, pair_address: pair_address.to_string() }
}

fn holding(token: &str, amount: u128) -> Collateral {
    Collateral { token: token.to_string(), amount: Uint256::from_u128(amount) }
}

fn price(atomics: u128, updated: u64) -> PriceAnswer {
    PriceAnswer {
        rate: Decimal256::from_atomics(atomics),
        last_updated_base: updated,
        last_updated_quote: updated,
    }
}

fn swap(venue: &str, asset: &str, amount: u128) -> Instruction {
    Instruction::Swap {
        venue: venue.to_string(),
        asset: asset.to_string(),
        amount,
        belief_price: None,
        max_spread: None,
        to: None,
    }
}

fn begin(fee: u128) -> (Liquidation, Request) {
    execute_liquidate_collateral(config(fee), 12, 1000, "caller".to_string(), "borrower".to_string())
}

/// Loan 1080 over a limit of 1000, one holding worth 2000, no fee:
/// 80 to raise.
fn answers(guardians: Vec<Guardian>, quotes: Vec<u128>) -> Answers {
    Answers {
        loan_amount: Uint256::from_u128(1080),
        collaterals: vec![holding("bluna", 1000)],
        borrow_limit: Uint256::from_u128(1000),
        price_timeframe: 60,
        prices: vec![price(2 * ONE, 990)],
        breakdown: vec![holding("bluna", 1000)],
        guardians,
        quotes,
    }
}

fn run(fee: u128, answers: Answers) -> Result<Vec<Instruction>, ContractError> {
    rehearse(config(fee), 12, 1000, "caller".to_string(), "borrower".to_string(), answers)
}

#[test]
fn the_requests_come_in_their_order() {
    let (state, request) = begin(0);
    assert_eq!(
        request,
        Request::LoanBalance {
            market: "market".to_string(),
            borrower: "borrower".to_string(),
            block_height: 12,
        }
    );
    let (state, request) = state.advance(Reply::LoanBalance { loan_amount: Uint256::from_u128(1080) });
    assert_eq!(
        request,
        Request::Collaterals { overseer: "overseer".to_string(), borrower: "borrower".to_string() }
    );
    let (state, request) = state
        .advance(Reply::Collaterals { collaterals: vec![holding("bluna", 1000), holding("beth", 1)] });
    assert_eq!(
        request,
        Request::BorrowLimit {
            overseer: "overseer".to_string(),
            borrower: "borrower".to_string(),
            block_time: 1000,
        }
    );
    let (state, request) = state.advance(Reply::BorrowLimit { borrow_limit: Uint256::from_u128(1000) });
    assert_eq!(request, Request::RiskConfig { overseer: "overseer".to_string() });
    let (state, request) = state.advance(Reply::RiskConfig { price_timeframe: 60 });
    assert_eq!(request, Request::Price {
            oracle: "oracle".to_string(),
            base: "bluna".to_string(),
            quote: "uusd",
        });
    let (state, request) = state.advance(Reply::Price {
        rate: Decimal256::from_atomics(2 * ONE),
        last_updated_base: 940,
        last_updated_quote: 1000,
    });
    assert_eq!(request, Request::Price {
            oracle: "oracle".to_string(),
            base: "beth".to_string(),
            quote: "uusd",
        });
    let (state, request) = state.advance(Reply::Price {
        rate: Decimal256::from_atomics(3 * ONE),
        last_updated_base: 1000,
        last_updated_quote: 1000,
    });
    assert_eq!(
        request,
        Request::LiquidationAmount {
            liquidation: "liquidation".to_string(),
            borrow_amount: Uint256::from_u128(1080),
            borrow_limit: Uint256::from_u128(1000),
            collaterals: vec![holding("bluna", 1000), holding("beth", 1)],
            collateral_prices: vec![Decimal256::from_atomics(2 * ONE), Decimal256::from_atomics(3 * ONE)],
        }
    );
    let (state, request) =
        state.advance(Reply::LiquidationAmount { collaterals: vec![holding("bluna", 40)] });
    assert_eq!(request, Request::Guardians { borrower: "borrower".to_string() });
    assert_eq!(
        state.shortfall,
        Shortfall { liquidator_fee: 0, repayment_amount: 80, ask_amount: 80 }
    );
    let (state, request) = state.advance(Reply::Guardians {
        guardians: vec![guardian("A", 100, "venue1"), guardian("B", 50, "venue2")],
    });
    assert_eq!(request, Request::ReverseSimulation {
            venue: "venue1".to_string(),
            denom: "uusd",
            ask_amount: 80,
        });
    assert_eq!(state.stage, Stage::Quote);
    let (state, request) = state.advance(Reply::ReverseSimulation { offer_amount: 60 });
    assert_eq!(state.stage, Stage::Done);
    assert_eq!(
        request,
        Request::Settle {
            instructions: vec![
                swap("venue1", "A", 60),
                Instruction::RepayStable { market: "market".to_string(), denom: "uusd", amount: 80 },
                Instruction::Payout { recipient: "caller".to_string(), denom: "uusd", amount: 0 },
            ],
        }
    );
}

#[test]
fn a_safe_loan_is_not_liquidated() {
    let (state, _) = begin(0);
    let (state, _) = state.advance(Reply::LoanBalance { loan_amount: Uint256::from_u128(999) });
    let (state, _) = state.advance(Reply::Collaterals { collaterals: vec![] });
    let (state, request) = state.advance(Reply::BorrowLimit { borrow_limit: Uint256::from_u128(1000) });
    assert_eq!(request, Request::Reject { error: ContractError::NotLiquidatable });
    assert_eq!(state.stage, Stage::Done);
    let mut safe = answers(vec![guardian("A", 100, "venue1")], vec![60]);
    safe.loan_amount = Uint256::from_u128(999);
    assert_eq!(run(0, safe), Err(ContractError::NotLiquidatable));
}

#[test]
fn a_loan_at_its_limit_is_liquidated() {
    let mut at_limit = answers(vec![guardian("A", 100, "venue1")], vec![60]);
    at_limit.loan_amount = Uint256::from_u128(1000);
    // nothing to repay and no fee: nothing to raise, no swap
    assert_eq!(
        run(0, at_limit),
        Ok(vec![
            Instruction::RepayStable { market: "market".to_string(), denom: "uusd", amount: 0 },
            Instruction::Payout { recipient: "caller".to_string(), denom: "uusd", amount: 0 },
        ])
    );
}

#[test]
fn a_stale_price_ends_the_liquidation() {
    let mut stale = answers(vec![guardian("A", 100, "venue1")], vec![60]);
    // now is 1000 and the window 60 seconds: 939 is too old
    stale.prices = vec![price(2 * ONE, 939)];
    assert_eq!(run(0, stale), Err(ContractError::StalePrice));
    let mut fresh = answers(vec![guardian("A", 100, "venue1")], vec![60]);
    fresh.prices = vec![price(2 * ONE, 940)];
    assert!(run(0, fresh).is_ok());
    let mut stale_quote = answers(vec![guardian("A", 100, "venue1")], vec![60]);
    stale_quote.prices = vec![PriceAnswer {
        rate: Decimal256::from_atomics(2 * ONE),
        last_updated_base: 1000,
        last_updated_quote: 900,
    }];
    assert_eq!(run(0, stale_quote), Err(ContractError::StalePrice));
}

#[test]
fn a_stale_price_step_rejects_and_keeps_the_rest() {
    let (state, _) = begin(0);
    let (state, _) = state.advance(Reply::LoanBalance { loan_amount: Uint256::from_u128(1080) });
    let (state, _) = state.advance(Reply::Collaterals { collaterals: vec![holding("bluna", 1000)] });
    let (state, _) = state.advance(Reply::BorrowLimit { borrow_limit: Uint256::from_u128(1000) });
    let (state, _) = state.advance(Reply::RiskConfig { price_timeframe: 60 });
    let (after, request) = state.advance(Reply::Price {
        rate: Decimal256::from_atomics(ONE),
        last_updated_base: 100,
        last_updated_quote: 1000,
    });
    assert_eq!(request, Request::Reject { error: ContractError::StalePrice });
    assert_eq!(after.stage, Stage::Done);
    assert!(after.prices.is_empty());
    assert!(after.planner.swaps.is_empty());
}

#[test]
fn guardians_cover_the_shortfall() {
    // 80 to raise; venue1 asks 60 A for it, and 100 A are pledged
    let done = run(0, answers(vec![guardian("A", 100, "venue1"), guardian("B", 50, "venue2")], vec![60, 7]));
    assert_eq!(
        done,
        Ok(vec![
            swap("venue1", "A", 60),
            Instruction::RepayStable { market: "market".to_string(), denom: "uusd", amount: 80 },
            Instruction::Payout { recipient: "caller".to_string(), denom: "uusd", amount: 0 },
        ])
    );
}

#[test]
fn the_incentive_goes_to_the_caller() {
    // holding worth 1000 * 2 = 2000, fee 1%: incentive 20, with 80 of debt: 100 to raise
    let done = run(ONE / 100, answers(vec![guardian("A", 100, "venue1")], vec![75]));
    assert_eq!(
        done,
        Ok(vec![
            swap("venue1", "A", 75),
            Instruction::RepayStable { market: "market".to_string(), denom: "uusd", amount: 80 },
            Instruction::Payout { recipient: "caller".to_string(), denom: "uusd", amount: 20 },
        ])
    );
}

#[test]
fn insufficient_guardians_fall_back() {
    // loan 1300 over 1000: 300 to raise. A covers 150, B covers 40.
    let mut short = answers(vec![guardian("A", 100, "venue1"), guardian("B", 50, "venue2")], vec![200, 187]);
    short.loan_amount = Uint256::from_u128(1300);
    assert_eq!(
        run(0, short),
        Ok(vec![Instruction::LiquidateCollateral {
            overseer: "overseer".to_string(),
            borrower: "borrower".to_string(),
        }])
    );
}

#[test]
fn no_guardians_fall_back() {
    assert_eq!(
        run(0, answers(vec![], vec![])),
        Ok(vec![Instruction::LiquidateCollateral {
            overseer: "overseer".to_string(),
            borrower: "borrower".to_string(),
        }])
    );
}

#[test]
fn no_collateral_needs_no_price() {
    let (state, _) = begin(0);
    let (state, _) = state.advance(Reply::LoanBalance { loan_amount: Uint256::from_u128(1080) });
    let (state, _) = state.advance(Reply::Collaterals { collaterals: vec![] });
    let (state, _) = state.advance(Reply::BorrowLimit { borrow_limit: Uint256::from_u128(1000) });
    let (state, request) = state.advance(Reply::RiskConfig { price_timeframe: 60 });
    assert_eq!(state.stage, Stage::LiquidationAmount);
    assert_eq!(
        request,
        Request::LiquidationAmount {
            liquidation: "liquidation".to_string(),
            borrow_amount: Uint256::from_u128(1080),
            borrow_limit: Uint256::from_u128(1000),
            collaterals: vec![],
            collateral_prices: vec![],
        }
    );
}

#[test]
fn a_failed_service_ends_the_liquidation() {
    let (state, _) = begin(0);
    let (state, request) = state.advance(Reply::Failed);
    assert_eq!(request, Request::Reject { error: ContractError::ExternalService });
    assert_eq!(state.stage, Stage::Done);
    // a failed reverse quote is not passed over
    let (state, _) = begin(0);
    let (state, _) = state.advance(Reply::LoanBalance { loan_amount: Uint256::from_u128(1080) });
    let (state, _) = state.advance(Reply::Collaterals { collaterals: vec![] });
    let (state, _) = state.advance(Reply::BorrowLimit { borrow_limit: Uint256::from_u128(1000) });
    let (state, _) = state.advance(Reply::RiskConfig { price_timeframe: 60 });
    let (state, _) = state.advance(Reply::LiquidationAmount { collaterals: vec![] });
    let (state, request) = state.advance(Reply::Guardians {
        guardians: vec![guardian("A", 10, "venue1"), guardian("B", 500, "venue2")],
    });
    assert_eq!(request, Request::ReverseSimulation {
            venue: "venue1".to_string(),
            denom: "uusd",
            ask_amount: 80,
        });
    let (state, request) = state.advance(Reply::Failed);
    assert_eq!(request, Request::Reject { error: ContractError::ExternalService });
    assert_eq!(state.stage, Stage::Done);
}

#[test]
fn a_reply_out_of_turn_ends_the_liquidation() {
    let (state, _) = begin(0);
    let (state, request) = state.advance(Reply::BorrowLimit { borrow_limit: Uint256::zero() });
    assert_eq!(request, Request::Reject { error: ContractError::ExternalService });
    assert_eq!(state.stage, Stage::Done);
    // and an ended liquidation stays ended
    let (state, request) = state.advance(Reply::LoanBalance { loan_amount: Uint256::from_u128(5) });
    assert_eq!(request, Request::Reject { error: ContractError::ExternalService });
    assert_eq!(state.stage, Stage::Done);
}

#[test]
fn an_overflowing_value_ends_the_liquidation() {
    let mut huge = answers(vec![], vec![]);
    huge.breakdown = vec![Collateral {
        token: "bluna".to_string(),
        amount: Uint256 { limbs: [u64::MAX, u64::MAX, u64::MAX, u64::MAX] },
    }];
    assert_eq!(run(0, huge), Err(ContractError::Overflow));
}

#[test]
fn malformed_answers_are_refused() {
    let mut missing_price = answers(vec![], vec![]);
    missing_price.prices = vec![];
    assert_eq!(run(0, missing_price), Err(ContractError::Validation));
    assert_eq!(
        run(0, answers(vec![guardian("A", 100, "venue1")], vec![])),
        Err(ContractError::Validation)
    );
}

#[test]
fn the_breakdown_is_valued_not_the_holdings() {
    // the holdings are worth 2000, the breakdown takes 500 of them: 1000 at price 2
    let mut partial = answers(vec![guardian("A", 1000, "venue1")], vec![90]);
    partial.breakdown = vec![holding("bluna", 500)];
    // fee 10% of 1000 = 100, plus 80
    assert_eq!(
        run(ONE / 10, partial),
        Ok(vec![
            swap("venue1", "A", 90),
            Instruction::RepayStable { market: "market".to_string(), denom: "uusd", amount: 80 },
            Instruction::Payout { recipient: "caller".to_string(), denom: "uusd", amount: 100 },
        ])
    );
}

#[test]
fn compose_is_one_of_two() {
    let shortfall = Shortfall { liquidator_fee: 3, repayment_amount: 4, ask_amount: 7 };
    let swaps = vec![swap("v", "A", 1), swap("w", "B", 2)];
    let names = ("market".to_string(), "overseer".to_string(), "b".to_string(), "c".to_string());
    assert_eq!(
        compose(&swaps, 0, &shortfall, &names.0, &names.1, &names.2, &names.3),
        vec![
            swap("v", "A", 1),
            swap("w", "B", 2),
            Instruction::RepayStable { market: "market".to_string(), denom: "uusd", amount: 4 },
            Instruction::Payout { recipient: "c".to_string(), denom: "uusd", amount: 3 },
        ]
    );
    assert_eq!(
        compose(&swaps, 1, &shortfall, &names.0, &names.1, &names.2, &names.3),
        vec![Instruction::LiquidateCollateral {
            overseer: "overseer".to_string(),
            borrower: "b".to_string(),
        }]
    );
}

#[test]
fn the_fee_is_rounded_once_at_the_end() {
    // two holdings of 1 at a price of 0.5 are worth 1: at a fee ratio of
    // one the incentive is 1, and with 70 of debt above the limit 71 are
    // to raise
    let fractions = Answers {
        loan_amount: Uint256::from_u128(1070),
        collaterals: vec![holding("a", 1), holding("b", 1)],
        borrow_limit: Uint256::from_u128(1000),
        price_timeframe: 60,
        prices: vec![price(ONE / 2, 990), price(ONE / 2, 990)],
        breakdown: vec![holding("a", 1), holding("b", 1)],
        guardians: vec![guardian("A", 100, "venue1")],
        quotes: vec![50],
    };
    assert_eq!(
        run(ONE, fractions),
        Ok(vec![
            swap("venue1", "A", 50),
            Instruction::RepayStable { market: "market".to_string(), denom: "uusd", amount: 70 },
            Instruction::Payout { recipient: "caller".to_string(), denom: "uusd", amount: 1 },
        ])
    );
}

#[test]
fn the_first_quote_asks_for_fee_plus_debt_above_the_limit() {
    let (state, _) = begin(ONE);
    let (state, _) = state.advance(Reply::LoanBalance { loan_amount: Uint256::from_u128(1070) });
    let (state, _) = state
        .advance(Reply::Collaterals { collaterals: vec![holding("a", 1), holding("b", 1)] });
    let (state, _) = state.advance(Reply::BorrowLimit { borrow_limit: Uint256::from_u128(1000) });
    let (state, _) = state.advance(Reply::RiskConfig { price_timeframe: 60 });
    let half = Reply::Price {
        rate: Decimal256::from_atomics(ONE / 2),
        last_updated_base: 1000,
        last_updated_quote: 1000,
    };
    let (state, _) = state.advance(half);
    let half = Reply::Price {
        rate: Decimal256::from_atomics(ONE / 2),
        last_updated_base: 1000,
        last_updated_quote: 1000,
    };
    let (state, _) = state.advance(half);
    let (state, request) = state
        .advance(Reply::LiquidationAmount { collaterals: vec![holding("a", 1), holding("b", 1)] });
    assert_eq!(request, Request::Guardians { borrower: "borrower".to_string() });
    assert_eq!(
        state.shortfall,
        Shortfall { liquidator_fee: 1, repayment_amount: 70, ask_amount: 71 }
    );
    let (_, request) = state.advance(Reply::Guardians {
        guardians: vec![guardian("A", 100, "venue1"), guardian("B", 50, "venue2")],
    });
    assert_eq!(
        request,
        Request::ReverseSimulation { venue: "venue1".to_string(), denom: "uusd", ask_amount: 71 }
    );
}

#[test]
fn a_covered_settlement_sells_the_first_guardians_in_order() {
    // loan 1300 over 1000: 300 to raise. A is capped and covers 150 of it;
    // B covers the rest; C is not asked and not sold.
    let mut covered = answers(
        vec![guardian("A", 100, "venue1"), guardian("B", 50, "venue2"), guardian("C", 9, "venue3")],
        vec![200, 40, 1],
    );
    covered.loan_amount = Uint256::from_u128(1300);
    let instructions = run(0, covered).unwrap();
    // the covering guardian is the second: two swaps, repayment, payout
    assert_eq!(instructions.len(), 1 + 3);
    assert_eq!(
        instructions,
        vec![
            swap("venue1", "A", 100),
            swap("venue2", "B", 40),
            Instruction::RepayStable { market: "market".to_string(), denom: "uusd", amount: 300 },
            Instruction::Payout { recipient: "caller".to_string(), denom: "uusd", amount: 0 },
        ]
    );
}

#[test]
fn quotes_go_to_the_venues_in_pledge_order_and_stop_when_covered() {
    let (state, _) = begin(0);
    let (state, _) = state.advance(Reply::LoanBalance { loan_amount: Uint256::from_u128(1300) });
    let (state, _) = state.advance(Reply::Collaterals { collaterals: vec![] });
    let (state, _) = state.advance(Reply::BorrowLimit { borrow_limit: Uint256::from_u128(1000) });
    let (state, _) = state.advance(Reply::RiskConfig { price_timeframe: 60 });
    let (state, _) = state.advance(Reply::LiquidationAmount { collaterals: vec![] });
    let (state, request) = state.advance(Reply::Guardians {
        guardians: vec![
            guardian("A", 100, "venue1"),
            guardian("Z", 0, "venue0"),
            guardian("B", 50, "venue2"),
            guardian("C", 9, "venue3"),
        ],
    });
    assert_eq!(
        request,
        Request::ReverseSimulation { venue: "venue1".to_string(), denom: "uusd", ask_amount: 300 }
    );
    // A is capped: 100 * 300 / 200 = 150 are covered; Z has nothing pledged
    let (state, request) = state.advance(Reply::ReverseSimulation { offer_amount: 200 });
    assert_eq!(
        request,
        Request::ReverseSimulation { venue: "venue2".to_string(), denom: "uusd", ask_amount: 150 }
    );
    // B covers the rest: C is not asked
    let (state, request) = state.advance(Reply::ReverseSimulation { offer_amount: 40 });
    assert_eq!(state.stage, Stage::Done);
    assert_eq!(
        request,
        Request::Settle {
            instructions: vec![
                swap("venue1", "A", 100),
                swap("venue2", "B", 40),
                Instruction::RepayStable {
                    market: "market".to_string(),
                    denom: "uusd",
                    amount: 300,
                },
                Instruction::Payout { recipient: "caller".to_string(), denom: "uusd", amount: 0 },
            ],
        }
    );
    // the liquidation has ended: nothing more is handed out
    let (_, request) = state.advance(Reply::ReverseSimulation { offer_amount: 1 });
    assert_eq!(request, Request::Reject { error: ContractError::ExternalService });
}
