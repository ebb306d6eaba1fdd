//! A whole liquidation against recorded answers.
//!
//! `rehearse` carries one liquidation through all its steps, with the
//! answers of the consulted services given beforehand, and `outcome` says in
//! one piece what comes of it.

use vstd::prelude::*;
use crate::error::ContractError;
use crate::instruction::{Instruction, SETTLEMENT_DENOM};
use crate::liquidation::{execute_liquidate_collateral, Liquidation, Reply, Request, Stage};
use crate::planner::{
    law_swaps_follow_pledges,
    law_swaps_sell_a_prefix,
    lemma_complete_plan,
    lemma_plan_shape,
    lemma_start_plans,
    lemma_supply_keeps_plan,
    planned_left,
    planned_sources,
    planned_swaps,
    remaining_at,
    swap_of,
};
use crate::settlement::{all_swaps, is_fallback, is_guardian_covered, law_one_settlement, settlement};
use crate::shortfall::{
    fee_value,
    fresh,
    liquidatable,
    priced,
    shortfall_of,
    value_upto,
    Collateral,
};
use crate::state::{Config, Guardian};
use crate::wide::{Decimal256, Uint256};

verus! {

/// A price as the oracle answers it.
#[derive(Clone, Copy, Debug, PartialEq, Eq)]
pub struct PriceAnswer {
    /// The price.
    pub rate: Decimal256,
    /// When the base side of the price was last updated.
    pub last_updated_base: u64,
    /// When the quote side of the price was last updated.
    pub last_updated_quote: u64,
}

/// The answers of all the services that one liquidation consults.
#[derive(Debug, PartialEq, Eq)]
pub struct Answers {
    /// The market's answer: the loan balance.
    pub loan_amount: Uint256,
    /// The overseer's answer: the collateral holdings.
    pub collaterals: Vec<Collateral>,
    /// The overseer's answer: the borrow limit.
    pub borrow_limit: Uint256,
    /// The overseer's answer: the price validity window.
    pub price_timeframe: u64,
    /// The oracle's answers, one per holding and in the same order.
    pub prices: Vec<PriceAnswer>,
    /// The liquidation service's answer.
    pub breakdown: Vec<Collateral>,
    /// The store's answer: the borrower's guardians.
    pub guardians: Vec<Guardian>,
    /// The venues' answers, one per guardian and in the same order.
    pub quotes: Vec<u128>,
}

/// Both sides of the price are within the window that ends at `now`.
pub open spec fn is_fresh(price: PriceAnswer, now: u64, window: u64) -> bool {
    &&& fresh(price.last_updated_base as int, now as int, window as int)
    &&& fresh(price.last_updated_quote as int, now as int, window as int)
}

/// Every price is fresh.
pub open spec fn all_fresh(prices: Seq<PriceAnswer>, now: u64, window: u64) -> bool {
    forall|i: int| 0 <= i < prices.len() ==> is_fresh(prices[i], now, window)
}

/// The rates of the prices, in their order.
pub open spec fn rates(prices: Seq<PriceAnswer>) -> Seq<Decimal256> {
    prices.map_values(|price: PriceAnswer| price.rate)
}

/// What comes of a liquidation under the given answers: the instructions
/// that settle it, or the reason for which it is turned down.
pub open spec fn outcome(
    config: Config,
    block_time: u64,
    sender: String,
    address: String,
    answers: Answers,
) -> Result<Seq<Instruction>, ContractError> {
    if answers.prices.len() != answers.collaterals.len() || answers.quotes.len()
        != answers.guardians.len() {
        Err(ContractError::Validation)
    } else if !liquidatable(answers.loan_amount@, answers.borrow_limit@) {
        Err(ContractError::NotLiquidatable)
    } else if !all_fresh(answers.prices@, block_time, answers.price_timeframe) {
        Err(ContractError::StalePrice)
    } else {
        match shortfall_of(
            answers.loan_amount@,
            answers.borrow_limit@,
            answers.breakdown@,
            rates(answers.prices@),
            config.liquidator_fee as nat,
        ) {
            Err(error) => Err(error),
            Ok(shortfall) => Ok(
                settlement(
                    planned_swaps(answers.guardians@, answers.quotes@, shortfall.ask_amount as nat),
                    planned_left(answers.guardians@, answers.quotes@, shortfall.ask_amount as nat),
                    shortfall,
                    config.anchor_market_contract,
                    config.anchor_overseer_contract,
                    address,
                    sender,
                ),
            ),
        }
    }
}

/// A liquidation that is not turned down ends in exactly one way: with the
/// guardians' swaps, the repayment and the payout, where the guardians
/// cover what is to raise; with the one fallback instruction, where they do
/// not. One that is turned down hands out nothing. A loan below its limit
/// is always turned down.
pub proof fn law_one_outcome_per_attempt(
    config: Config,
    block_time: u64,
    sender: String,
    address: String,
    answers: Answers,
)
    ensures
        match outcome(config, block_time, sender, address, answers) {
            Ok(instructions) => instructions.len() >= 1 && is_guardian_covered(instructions)
                != is_fallback(instructions),
            Err(error) => true,
        },
        answers.prices.len() == answers.collaterals.len() && answers.quotes.len()
            == answers.guardians.len() && answers.loan_amount@ < answers.borrow_limit@ ==> outcome(
            config,
            block_time,
            sender,
            address,
            answers,
        ) == Err::<Seq<Instruction>, ContractError>(ContractError::NotLiquidatable),
{
    match outcome(config, block_time, sender, address, answers) {
        Ok(instructions) => {
            let shortfall = shortfall_of(
                answers.loan_amount@,
                answers.borrow_limit@,
                answers.breakdown@,
                rates(answers.prices@),
                config.liquidator_fee as nat,
            )->Ok_0;
            let swaps = planned_swaps(
                answers.guardians@,
                answers.quotes@,
                shortfall.ask_amount as nat,
            );
            law_swaps_follow_pledges(
                answers.guardians@,
                answers.quotes@,
                shortfall.ask_amount as nat,
            );
            assert(all_swaps(swaps));
            law_one_settlement(
                swaps,
                planned_left(answers.guardians@, answers.quotes@, shortfall.ask_amount as nat),
                shortfall,
                config.anchor_market_contract,
                config.anchor_overseer_contract,
                address,
                sender,
            );
        },
        Err(error) => {},
    }
}

/// The settlement follows the plan. A liquidation that is not turned down
/// had a loan at or above its limit and fresh prices; it raises the fee on
/// the breakdown's value plus the debt above the limit. Where the plan
/// covers that amount, the settlement is the planned swaps, each selling
/// one guardian on its venue and the guardians in pledge order, then the
/// repayment of exactly the debt above the limit, then the payout of
/// exactly the fee to the caller. Where the plan does not cover it, the
/// settlement is the one fallback instruction. It is never empty.
pub proof fn law_settlement_follows_the_plan(
    config: Config,
    block_time: u64,
    sender: String,
    address: String,
    answers: Answers,
)
    requires
        outcome(config, block_time, sender, address, answers) is Ok,
    ensures
        ({
            let instructions = outcome(config, block_time, sender, address, answers)->Ok_0;
            let found = shortfall_of(
                answers.loan_amount@,
                answers.borrow_limit@,
                answers.breakdown@,
                rates(answers.prices@),
                config.liquidator_fee as nat,
            )->Ok_0;
            let ask = found.ask_amount as nat;
            let swaps = planned_swaps(answers.guardians@, answers.quotes@, ask);
            let sources = planned_sources(answers.guardians@, answers.quotes@, ask);
            let left = planned_left(answers.guardians@, answers.quotes@, ask);
            &&& answers.loan_amount@ >= answers.borrow_limit@
            &&& all_fresh(answers.prices@, block_time, answers.price_timeframe)
            &&& found.liquidator_fee == fee_value(
                value_upto(
                    answers.breakdown@,
                    rates(answers.prices@),
                    priced(answers.breakdown@, rates(answers.prices@)),
                ),
                config.liquidator_fee as nat,
            )
            &&& found.repayment_amount == answers.loan_amount@ - answers.borrow_limit@
            &&& ask == found.liquidator_fee + (answers.loan_amount@ - answers.borrow_limit@)
            &&& ask >= answers.loan_amount@ - answers.borrow_limit@
            &&& instructions.len() >= 1
            &&& left == 0 ==> {
                &&& instructions.len() == swaps.len() + 2
                &&& instructions.take(swaps.len() as int) == swaps
                &&& instructions[swaps.len() as int] == (Instruction::RepayStable {
                    market: config.anchor_market_contract,
                    denom: SETTLEMENT_DENOM,
                    amount: found.repayment_amount,
                })
                &&& instructions[(swaps.len() + 1) as int] == (Instruction::Payout {
                    recipient: sender,
                    denom: SETTLEMENT_DENOM,
                    amount: found.liquidator_fee,
                })
                &&& forall|j: int|
                    0 <= j < swaps.len() ==> {
                        &&& 0 <= sources[j] < answers.guardians.len()
                        &&& #[trigger] instructions[j] == swap_of(
                            answers.guardians[sources[j]],
                            answers.quotes[sources[j]] as nat,
                        )
                    }
                &&& forall|j: int, l: int|
                    0 <= j < l < swaps.len() ==> #[trigger] sources[j] < #[trigger] sources[l]
            }
            &&& left > 0 ==> instructions == seq![
                Instruction::LiquidateCollateral {
                    overseer: config.anchor_overseer_contract,
                    borrower: address,
                },
            ]
        }),
{
    let instructions = outcome(config, block_time, sender, address, answers)->Ok_0;
    let found = shortfall_of(
        answers.loan_amount@,
        answers.borrow_limit@,
        answers.breakdown@,
        rates(answers.prices@),
        config.liquidator_fee as nat,
    )->Ok_0;
    let ask = found.ask_amount as nat;
    let swaps = planned_swaps(answers.guardians@, answers.quotes@, ask);
    let sources = planned_sources(answers.guardians@, answers.quotes@, ask);
    law_swaps_follow_pledges(answers.guardians@, answers.quotes@, ask);
    lemma_plan_shape(answers.guardians@, answers.quotes@, 0, ask);
    if planned_left(answers.guardians@, answers.quotes@, ask) == 0 {
        assert(instructions.take(swaps.len() as int) == swaps);
        assert forall|j: int| 0 <= j < swaps.len() implies {
            &&& 0 <= sources[j] < answers.guardians.len()
            &&& #[trigger] instructions[j] == swap_of(
                answers.guardians[sources[j]],
                answers.quotes[sources[j]] as nat,
            )
        } by {
            assert(instructions[j] == swaps[j]);
        }
    }
}

/// Where every guardian has something pledged and the guardians cover what
/// is to raise, the settlement sells the first guardians one by one: the
/// swap at place `j` sells the guardian at place `j`, the last of them is
/// the first guardian after which nothing is left to raise, and repayment
/// and payout follow, so that the settlement has two instructions more than
/// guardians sold.
pub proof fn law_covered_settlement_sells_a_prefix(
    config: Config,
    block_time: u64,
    sender: String,
    address: String,
    answers: Answers,
)
    requires
        outcome(config, block_time, sender, address, answers) is Ok,
        forall|i: int| 0 <= i < answers.guardians.len() ==> answers.guardians[i].amount > 0,
        ({
            let found = shortfall_of(
                answers.loan_amount@,
                answers.borrow_limit@,
                answers.breakdown@,
                rates(answers.prices@),
                config.liquidator_fee as nat,
            )->Ok_0;
            &&& found.ask_amount > 0
            &&& planned_left(answers.guardians@, answers.quotes@, found.ask_amount as nat) == 0
        }),
    ensures
        ({
            let instructions = outcome(config, block_time, sender, address, answers)->Ok_0;
            let ask = shortfall_of(
                answers.loan_amount@,
                answers.borrow_limit@,
                answers.breakdown@,
                rates(answers.prices@),
                config.liquidator_fee as nat,
            )->Ok_0.ask_amount as nat;
            let sold = planned_swaps(answers.guardians@, answers.quotes@, ask).len();
            &&& 1 <= sold <= answers.guardians.len()
            &&& instructions.len() == sold + 2
            &&& forall|j: int|
                0 <= j < sold ==> #[trigger] instructions[j] == swap_of(
                    answers.guardians[j],
                    answers.quotes[j] as nat,
                )
            &&& instructions[sold as int] is RepayStable
            &&& instructions[(sold + 1) as int] is Payout
            &&& remaining_at(answers.guardians@, answers.quotes@, ask, sold) == 0
            &&& forall|j: int|
                0 <= j < sold ==> #[trigger] remaining_at(
                    answers.guardians@,
                    answers.quotes@,
                    ask,
                    j as nat,
                ) > 0
        }),
{
    let instructions = outcome(config, block_time, sender, address, answers)->Ok_0;
    let ask = shortfall_of(
        answers.loan_amount@,
        answers.borrow_limit@,
        answers.breakdown@,
        rates(answers.prices@),
        config.liquidator_fee as nat,
    )->Ok_0.ask_amount as nat;
    let swaps = planned_swaps(answers.guardians@, answers.quotes@, ask);
    law_swaps_sell_a_prefix(answers.guardians@, answers.quotes@, ask);
    assert forall|j: int| 0 <= j < swaps.len() implies #[trigger] instructions[j] == swap_of(
        answers.guardians[j],
        answers.quotes[j] as nat,
    ) by {
        assert(instructions[j] == swaps[j]);
    }
}

/// Answers the requests for prices, one by one, until a price is stale or
/// the liquidation asks for the breakdown.
fn feed_prices(state: Liquidation, request: Request, prices: &Vec<PriceAnswer>) -> (r: (
    Liquidation,
    Request,
))
    requires
        state.prices@.len() == 0,
        prices.len() == state.collaterals.len(),
        state.pricing(request),
    ensures
        all_fresh(prices@, state.block_time, state.price_timeframe) ==> {
            &&& r.0 == (Liquidation {
                stage: Stage::LiquidationAmount,
                prices: r.0.prices,
                ..state
            })
            &&& r.0.prices@ == rates(prices@)
            &&& r.1 is LiquidationAmount
            &&& state.wf() ==> r.0.wf()
        },
        !all_fresh(prices@, state.block_time, state.price_timeframe) ==> r.1 == (Request::Reject {
            error: ContractError::StalePrice,
        }),
{
    let mut current: Liquidation = state;
    let mut asked: Request = request;
    let mut i: usize = 0;
    while i < prices.len()
        invariant
            i <= prices.len(),
            prices.len() == state.collaterals.len(),
            current == (Liquidation { stage: current.stage, prices: current.prices, ..state }),
            current.prices@ == rates(prices@).take(i as int),
            current.pricing(asked),
            state.wf() ==> current.wf(),
            forall|k: int| 0 <= k < i ==> is_fresh(prices[k], state.block_time, state.price_timeframe),
        decreases prices.len() - i,
    {
        let price: PriceAnswer = prices[i];
        let ghost before: Liquidation = current;
        let next: (Liquidation, Request) = current.advance(
            Reply::Price {
                rate: price.rate,
                last_updated_base: price.last_updated_base,
                last_updated_quote: price.last_updated_quote,
            },
        );
        match next.1 {
            Request::Reject { error } => {
                assert(!is_fresh(prices[i as int], state.block_time, state.price_timeframe));
                return (next.0, Request::Reject { error });
            },
            other => {
                current = next.0;
                asked = other;
            },
        }
        assert(rates(prices@).take(i + 1) == rates(prices@).take(i as int).push(price.rate));
        i = i + 1;
    }
    assert(rates(prices@).take(prices.len() as int) == rates(prices@));
    (current, asked)
}

/// Answers the requests for quotes, one by one, until the liquidation
/// settles.
fn feed_quotes(state: Liquidation, request: Request, quotes: &Vec<u128>) -> (r: (
    Liquidation,
    Request,
))
    requires
        state.wf(),
        state.stage == Stage::Quote || state.stage == Stage::Done,
        state.planning(request),
        quotes.len() == state.planner.guardians.len(),
        state.planner.cursor <= state.planner.guardians.len(),
    ensures
        r.1 matches Request::Settle { instructions } && instructions@ == settlement(
            state.planner.final_swaps(quotes@),
            state.planner.final_left(quotes@),
            state.shortfall,
            state.config.anchor_market_contract,
            state.config.anchor_overseer_contract,
            state.borrower,
            state.caller,
        ),
{
    let mut current: Liquidation = state;
    let mut asked: Request = request;
    while current.stage == Stage::Quote
        invariant
            current.wf(),
            current.stage == Stage::Quote || current.stage == Stage::Done,
            current.planning(asked),
            current == (Liquidation { stage: current.stage, planner: current.planner, ..state }),
            current.planner.guardians@ == state.planner.guardians@,
            quotes.len() == state.planner.guardians.len(),
            current.planner.cursor <= state.planner.guardians.len(),
            current.planner.final_swaps(quotes@) == state.planner.final_swaps(quotes@),
            current.planner.final_left(quotes@) == state.planner.final_left(quotes@),
        decreases state.planner.guardians.len() - current.planner.cursor,
    {
        let ghost before: Liquidation = current;
        let quoted: u128 = quotes[current.planner.cursor];
        let next: (Liquidation, Request) = current.advance(
            Reply::ReverseSimulation { offer_amount: quoted },
        );
        proof {
            lemma_supply_keeps_plan(before.planner, quoted, next.0.planner, quotes@);
        }
        current = next.0;
        asked = next.1;
    }
    proof {
        lemma_complete_plan(current.planner, quotes@);
    }
    (current, asked)
}

/// Begins a liquidation and answers its requests for the loan balance, the
/// holdings, the borrow limit and the validity window.
fn consult_position(
    config: Config,
    block_height: u64,
    block_time: u64,
    sender: String,
    address: String,
    loan_amount: Uint256,
    collaterals: Vec<Collateral>,
    borrow_limit: Uint256,
    price_timeframe: u64,
) -> (r: (Liquidation, Request))
    ensures
        !liquidatable(loan_amount@, borrow_limit@) ==> r.1 == (Request::Reject {
            error: ContractError::NotLiquidatable,
        }),
        liquidatable(loan_amount@, borrow_limit@) ==> {
            &&& r.0.config == config
            &&& r.0.borrower == address
            &&& r.0.caller == sender
            &&& r.0.block_time == block_time
            &&& r.0.loan_amount == loan_amount
            &&& r.0.borrow_limit == borrow_limit
            &&& r.0.collaterals == collaterals
            &&& r.0.price_timeframe == price_timeframe
            &&& r.0.prices@.len() == 0
            &&& r.0.pricing(r.1)
            &&& r.0.wf()
            &&& !(r.1 is Reject)
        },
{
    let begun: (Liquidation, Request) = execute_liquidate_collateral(
        config,
        block_height,
        block_time,
        sender,
        address,
    );
    let with_loan: (Liquidation, Request) = begun.0.advance(Reply::LoanBalance { loan_amount });
    let with_holdings: (Liquidation, Request) = with_loan.0.advance(
        Reply::Collaterals { collaterals },
    );
    let with_limit: (Liquidation, Request) = with_holdings.0.advance(
        Reply::BorrowLimit { borrow_limit },
    );
    if with_limit.0.stage != Stage::RiskConfig {
        return with_limit;
    }
    with_limit.0.advance(Reply::RiskConfig { price_timeframe })
}

/// Answers the requests for the breakdown, the guardians and the quotes.
fn consult_guardians(
    state: Liquidation,
    breakdown: Vec<Collateral>,
    guardians: Vec<Guardian>,
    quotes: &Vec<u128>,
) -> (r: Request)
    requires
        state.wf(),
        state.stage == Stage::LiquidationAmount,
        quotes.len() == guardians.len(),
    ensures
        match shortfall_of(
            state.loan_amount@,
            state.borrow_limit@,
            breakdown@,
            state.prices@,
            state.config.liquidator_fee as nat,
        ) {
            Err(error) => r == (Request::Reject { error }),
            Ok(shortfall) => r matches Request::Settle { instructions } && instructions@
                == settlement(
                planned_swaps(guardians@, quotes@, shortfall.ask_amount as nat),
                planned_left(guardians@, quotes@, shortfall.ask_amount as nat),
                shortfall,
                state.config.anchor_market_contract,
                state.config.anchor_overseer_contract,
                state.borrower,
                state.caller,
            ),
        },
{
    let sized: (Liquidation, Request) = state.advance(
        Reply::LiquidationAmount { collaterals: breakdown },
    );
    if sized.0.stage != Stage::Guardians {
        return sized.1;
    }
    let planned: (Liquidation, Request) = sized.0.advance(Reply::Guardians { guardians });
    proof {
        lemma_start_plans(planned.0.planner, guardians, sized.0.shortfall.ask_amount, quotes@);
    }
    let settled: (Liquidation, Request) = feed_quotes(planned.0, planned.1, quotes);
    settled.1
}

/// Carries a liquidation through all its steps under the given answers.
/// Answers that are not one price per holding and one quote per guardian
/// are turned down as malformed.
pub fn rehearse(
    config: Config,
    block_height: u64,
    block_time: u64,
    sender: String,
    address: String,
    answers: Answers,
) -> (r: Result<Vec<Instruction>, ContractError>)
    ensures
        match outcome(config, block_time, sender, address, answers) {
            Ok(instructions) => r matches Ok(found) && found@ == instructions,
            Err(error) => r matches Err(found) && found == error,
        },
{
    let Answers {
        loan_amount,
        collaterals,
        borrow_limit,
        price_timeframe,
        prices,
        breakdown,
        guardians,
        quotes,
    } = answers;
    if prices.len() != collaterals.len() || quotes.len() != guardians.len() {
        return Err(ContractError::Validation);
    }
    let opened: (Liquidation, Request) = consult_position(
        config,
        block_height,
        block_time,
        sender,
        address,
        loan_amount,
        collaterals,
        borrow_limit,
        price_timeframe,
    );
    match opened.1 {
        Request::Reject { error } => {
            return Err(error);
        },
        _ => {},
    }
    let priced: (Liquidation, Request) = feed_prices(opened.0, opened.1, &prices);
    match priced.1 {
        Request::Reject { error } => {
            return Err(error);
        },
        _ => {},
    }
    match consult_guardians(priced.0, breakdown, guardians, &quotes) {
        Request::Settle { instructions } => Ok(instructions),
        Request::Reject { error } => Err(error),
        _ => Err(ContractError::ExternalService),
    }
}

} // verus!
