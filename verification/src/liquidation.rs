//! The liquidation of one borrower, step by step.
//!
//! A liquidation consults the market, the overseer, the oracle, the
//! liquidation service and the swap venues in turn. The library does not
//! reach them itself: each step hands out one request, and takes the reply
//! to it. The last request carries the settlement, or the reason for which
//! the liquidation is turned down.

use vstd::prelude::*;
use crate::error::ContractError;
use crate::instruction::{Instruction, SETTLEMENT_DENOM};
use crate::planner::{
    coverage,
    lemma_skip,
    lemma_skip_stops,
    lemma_supply_moves_on,
    skip,
    swap_of,
    Planner,
};
use crate::settlement::{all_swaps, compose, is_fallback, is_guardian_covered, law_one_settlement, settlement};
use crate::shortfall::{
    fee_value,
    fresh,
    liquidatable,
    price_is_fresh,
    priced,
    shortfall,
    shortfall_of,
    value_upto,
    Collateral,
    Shortfall,
};
use crate::state::{Config, Guardian};
use crate::wide::{Decimal256, Uint256};

verus! {

/// What a liquidation waits for.
#[derive(Clone, Copy, Debug, PartialEq, Eq, Structural)]
pub enum Stage {
    /// The borrower's loan balance.
    Loan,
    /// The borrower's collateral.
    Collaterals,
    /// The borrower's borrow limit.
    BorrowLimit,
    /// The overseer's price validity window.
    RiskConfig,
    /// The price of the next collateral.
    Price,
    /// The liquidation service's breakdown.
    LiquidationAmount,
    /// The borrower's guardians.
    Guardians,
    /// A venue's reverse quote.
    Quote,
    /// Nothing: the liquidation has ended.
    Done,
}

/// What a liquidation asks for next. The last two end it.
#[derive(Debug, PartialEq, Eq)]
pub enum Request {
    /// The borrower's loan balance, from the market, at the block height.
    LoanBalance { market: String, borrower: String, block_height: u64 },
    /// The borrower's collateral, from the overseer.
    Collaterals { overseer: String, borrower: String },
    /// The borrower's borrow limit, from the overseer, at the block time.
    BorrowLimit { overseer: String, borrower: String, block_time: u64 },
    /// The overseer's configuration, for its price validity window.
    RiskConfig { overseer: String },
    /// The oracle's price of `base` in `quote`.
    Price { oracle: String, base: String, quote: &'static str },
    /// The liquidation service's breakdown for these balances and prices.
    LiquidationAmount {
        liquidation: String,
        borrow_amount: Uint256,
        borrow_limit: Uint256,
        collaterals: Vec<Collateral>,
        collateral_prices: Vec<Decimal256>,
    },
    /// The borrower's pledged guardians, from the module's own store.
    Guardians { borrower: String },
    /// The venue's reverse quote: how much of its asset buys `ask_amount` of
    /// `denom`.
    ReverseSimulation { venue: String, denom: &'static str, ask_amount: u128 },
    /// The liquidation is decided: these instructions settle it.
    Settle { instructions: Vec<Instruction> },
    /// The liquidation is turned down.
    Reject { error: ContractError },
}

/// The answer to a request.
#[derive(Debug, PartialEq, Eq)]
pub enum Reply {
    /// The loan balance.
    LoanBalance { loan_amount: Uint256 },
    /// The collateral holdings.
    Collaterals { collaterals: Vec<Collateral> },
    /// The borrow limit.
    BorrowLimit { borrow_limit: Uint256 },
    /// The price validity window, in seconds.
    RiskConfig { price_timeframe: u64 },
    /// A price, with the times at which its two sides were last updated.
    Price { rate: Decimal256, last_updated_base: u64, last_updated_quote: u64 },
    /// The breakdown: how much of each collateral the liquidation takes.
    LiquidationAmount { collaterals: Vec<Collateral> },
    /// The guardians, in pledge order.
    Guardians { guardians: Vec<Guardian> },
    /// The quoted requirement.
    ReverseSimulation { offer_amount: u128 },
    /// The service could not be reached, or its answer could not be read.
    Failed,
}

/// A liquidation in progress.
#[derive(Debug, PartialEq, Eq)]
pub struct Liquidation {
    /// The module's configuration.
    pub config: Config,
    /// The borrower to liquidate.
    pub borrower: String,
    /// Who triggered the liquidation, and receives the incentive.
    pub caller: String,
    /// The height of the current block.
    pub block_height: u64,
    /// The time of the current block, in seconds.
    pub block_time: u64,
    /// What the liquidation waits for.
    pub stage: Stage,
    /// The loan balance, once known.
    pub loan_amount: Uint256,
    /// The borrow limit, once known.
    pub borrow_limit: Uint256,
    /// The collateral holdings, once known.
    pub collaterals: Vec<Collateral>,
    /// The price validity window, once known.
    pub price_timeframe: u64,
    /// The prices known so far, one per holding and in the same order.
    pub prices: Vec<Decimal256>,
    /// The shortfall, once computed.
    pub shortfall: Shortfall,
    /// The planner, once the guardians are known.
    pub planner: Planner,
}

impl Request {
    /// The instructions that the request hands out: those of a settlement,
    /// and none otherwise.
    pub open spec fn instructions(self) -> Seq<Instruction> {
        match self {
            Request::Settle { instructions } => instructions@,
            _ => Seq::empty(),
        }
    }
}

/// A copy of the holdings, in their order.
fn copy_collaterals(holdings: &Vec<Collateral>) -> (copy: Vec<Collateral>)
    ensures
        copy@ == holdings@,
{
    let mut copy: Vec<Collateral> = Vec::new();
    let mut i: usize = 0;
    while i < holdings.len()
        invariant
            i <= holdings.len(),
            copy@ == holdings@.take(i as int),
        decreases holdings.len() - i,
    {
        copy.push(holdings[i].clone());
        assert(holdings@.take(i + 1) == holdings@.take(i as int).push(holdings[i as int]));
        i = i + 1;
    }
    assert(holdings@.take(holdings.len() as int) == holdings@);
    copy
}

/// A copy of the prices, in their order.
fn copy_prices(prices: &Vec<Decimal256>) -> (copy: Vec<Decimal256>)
    ensures
        copy@ == prices@,
{
    let mut copy: Vec<Decimal256> = Vec::new();
    let mut i: usize = 0;
    while i < prices.len()
        invariant
            i <= prices.len(),
            copy@ == prices@.take(i as int),
        decreases prices.len() - i,
    {
        copy.push(prices[i]);
        assert(prices@.take(i + 1) == prices@.take(i as int).push(prices[i as int]));
        i = i + 1;
    }
    assert(prices@.take(prices.len() as int) == prices@);
    copy
}

impl Liquidation {
    /// What holds of every liquidation that `execute_liquidate_collateral`
    /// began and `advance` carried on: the planner holds swaps only, a
    /// liquidation that waits for a quote has a guardian to quote, and one
    /// that waits for a price has a holding to price.
    pub open spec fn wf(self) -> bool {
        &&& all_swaps(self.planner.swaps@)
        &&& self.planner.awaiting() || self.planner.complete()
        &&& self.stage == Stage::Quote ==> self.planner.awaiting()
        &&& self.stage == Stage::Price ==> self.prices.len() < self.collaterals.len()
    }

    /// This liquidation has just begun: it knows the configuration, the
    /// borrower, the caller and the block, and waits for the loan balance.
    pub open spec fn begun(
        self,
        config: Config,
        block_height: u64,
        block_time: u64,
        sender: String,
        address: String,
    ) -> bool {
        &&& self.config == config
        &&& self.borrower == address
        &&& self.caller == sender
        &&& self.block_height == block_height
        &&& self.block_time == block_time
        &&& self.stage == Stage::Loan
        &&& self.loan_amount@ == 0
        &&& self.borrow_limit@ == 0
        &&& self.collaterals@.len() == 0
        &&& self.price_timeframe == 0
        &&& self.prices@.len() == 0
        &&& self.shortfall == (Shortfall { liquidator_fee: 0, repayment_amount: 0, ask_amount: 0 })
        &&& self.planner.guardians@.len() == 0
        &&& self.planner.cursor == 0
        &&& self.planner.remaining == 0
        &&& self.planner.swaps@.len() == 0
    }

    /// The liquidation ends here, turned down for `error`.
    pub open spec fn fails(self, error: ContractError, next: Liquidation, request: Request) -> bool {
        &&& next == Liquidation { stage: Stage::Done, ..self }
        &&& request == Request::Reject { error }
    }

    /// With the prices so far, this liquidation asks for the price of the
    /// next holding in the settlement currency; with all prices in, for the
    /// breakdown.
    pub open spec fn pricing(self, request: Request) -> bool {
        if self.prices.len() < self.collaterals.len() {
            &&& self.stage == Stage::Price
            &&& request == Request::Price {
                oracle: self.config.anchor_oracle_contract,
                base: self.collaterals[self.prices.len() as int].token,
                quote: SETTLEMENT_DENOM,
            }
        } else {
            &&& self.stage == Stage::LiquidationAmount
            &&& request matches Request::LiquidationAmount {
                liquidation,
                borrow_amount,
                borrow_limit,
                collaterals,
                collateral_prices,
            }
            &&& liquidation == self.config.anchor_liquidation_contract
            &&& borrow_amount == self.loan_amount
            &&& borrow_limit == self.borrow_limit
            &&& collaterals@ == self.collaterals@
            &&& collateral_prices@ == self.prices@
        }
    }

    /// With its planner as it is, this liquidation asks the next venue what
    /// buys the rest in the settlement currency; with the plan complete, it
    /// ends with the settlement.
    pub open spec fn planning(self, request: Request) -> bool {
        if self.planner.awaiting() {
            &&& self.stage == Stage::Quote
            &&& request == Request::ReverseSimulation {
                venue: self.planner.guardians[self.planner.cursor as int].pair_address,
                denom: SETTLEMENT_DENOM,
                ask_amount: self.planner.remaining,
            }
        } else {
            &&& self.stage == Stage::Done
            &&& request matches Request::Settle { instructions }
            &&& instructions@ == settlement(
                self.planner.swaps@,
                self.planner.remaining as nat,
                self.shortfall,
                self.config.anchor_market_contract,
                self.config.anchor_overseer_contract,
                self.borrower,
                self.caller,
            )
        }
    }

    /// One step: on `reply`, this liquidation becomes `next` and asks for
    /// `request`. A reply that is not the one waited for, and a failed one,
    /// end the liquidation.
    pub open spec fn advances(self, reply: Reply, next: Liquidation, request: Request) -> bool {
        match reply {
            Reply::LoanBalance { loan_amount } => if self.stage == Stage::Loan {
                &&& next == Liquidation { stage: Stage::Collaterals, loan_amount, ..self }
                &&& request == Request::Collaterals {
                    overseer: self.config.anchor_overseer_contract,
                    borrower: self.borrower,
                }
            } else {
                self.fails(ContractError::ExternalService, next, request)
            },
            Reply::Collaterals { collaterals } => if self.stage == Stage::Collaterals {
                &&& next == Liquidation { stage: Stage::BorrowLimit, collaterals, ..self }
                &&& request == Request::BorrowLimit {
                    overseer: self.config.anchor_overseer_contract,
                    borrower: self.borrower,
                    block_time: self.block_time,
                }
            } else {
                self.fails(ContractError::ExternalService, next, request)
            },
            Reply::BorrowLimit { borrow_limit } => if self.stage != Stage::BorrowLimit {
                self.fails(ContractError::ExternalService, next, request)
            } else if !liquidatable(self.loan_amount@, borrow_limit@) {
                self.fails(ContractError::NotLiquidatable, next, request)
            } else {
                &&& next == Liquidation { stage: Stage::RiskConfig, borrow_limit, ..self }
                &&& request == Request::RiskConfig {
                    overseer: self.config.anchor_overseer_contract,
                }
            },
            Reply::RiskConfig { price_timeframe } => if self.stage == Stage::RiskConfig {
                &&& next == Liquidation { stage: next.stage, price_timeframe, ..self }
                &&& next.pricing(request)
            } else {
                self.fails(ContractError::ExternalService, next, request)
            },
            Reply::Price { rate, last_updated_base, last_updated_quote } => if self.stage
                != Stage::Price {
                self.fails(ContractError::ExternalService, next, request)
            } else if !(fresh(
                last_updated_base as int,
                self.block_time as int,
                self.price_timeframe as int,
            ) && fresh(
                last_updated_quote as int,
                self.block_time as int,
                self.price_timeframe as int,
            )) {
                self.fails(ContractError::StalePrice, next, request)
            } else {
                &&& next == Liquidation { stage: next.stage, prices: next.prices, ..self }
                &&& next.prices@ == self.prices@.push(rate)
                &&& next.pricing(request)
            },
            Reply::LiquidationAmount { collaterals } => if self.stage != Stage::LiquidationAmount {
                self.fails(ContractError::ExternalService, next, request)
            } else {
                match shortfall_of(
                    self.loan_amount@,
                    self.borrow_limit@,
                    collaterals@,
                    self.prices@,
                    self.config.liquidator_fee as nat,
                ) {
                    Err(error) => self.fails(error, next, request),
                    Ok(shortfall) => {
                        &&& next == Liquidation { stage: Stage::Guardians, shortfall, ..self }
                        &&& request == Request::Guardians { borrower: self.borrower }
                    },
                }
            },
            Reply::Guardians { guardians } => if self.stage == Stage::Guardians {
                &&& next == Liquidation { stage: next.stage, planner: next.planner, ..self }
                &&& next.planner.starts(guardians, self.shortfall.ask_amount)
                &&& next.planning(request)
            } else {
                self.fails(ContractError::ExternalService, next, request)
            },
            Reply::ReverseSimulation { offer_amount } => if self.stage == Stage::Quote {
                &&& next == Liquidation { stage: next.stage, planner: next.planner, ..self }
                &&& self.planner.supplied(offer_amount, next.planner)
                &&& next.planning(request)
            } else {
                self.fails(ContractError::ExternalService, next, request)
            },
            Reply::Failed => self.fails(ContractError::ExternalService, next, request),
        }
    }

    /// Ends the liquidation with a refusal.
    fn reject(self, error: ContractError) -> (r: (Liquidation, Request))
        ensures
            self.fails(error, r.0, r.1),
            self.wf() ==> r.0.wf(),
    {
        let mut next: Liquidation = self;
        next.stage = Stage::Done;
        (next, Request::Reject { error })
    }

    /// Asks for the next price or, with all prices in, for the breakdown.
    fn price_next(self) -> (r: (Liquidation, Request))
        ensures
            r.0 == (Liquidation { stage: r.0.stage, ..self }),
            r.0.pricing(r.1),
            self.wf() ==> r.0.wf(),
    {
        let mut next: Liquidation = self;
        if next.prices.len() < next.collaterals.len() {
            next.stage = Stage::Price;
            let request: Request = Request::Price {
                oracle: next.config.anchor_oracle_contract.clone(),
                base: next.collaterals[next.prices.len()].token.clone(),
                quote: SETTLEMENT_DENOM,
            };
            (next, request)
        } else {
            next.stage = Stage::LiquidationAmount;
            let request: Request = Request::LiquidationAmount {
                liquidation: next.config.anchor_liquidation_contract.clone(),
                borrow_amount: next.loan_amount,
                borrow_limit: next.borrow_limit,
                collaterals: copy_collaterals(&next.collaterals),
                collateral_prices: copy_prices(&next.prices),
            };
            (next, request)
        }
    }

    /// Asks for the next quote or, with the plan complete, settles.
    fn plan_next(self) -> (r: (Liquidation, Request))
        ensures
            r.0 == (Liquidation { stage: r.0.stage, ..self }),
            r.0.planning(r.1),
            all_swaps(self.planner.swaps@) && (self.planner.awaiting() || self.planner.complete())
                ==> r.0.wf(),
    {
        let mut next: Liquidation = self;
        match next.planner.pending() {
            Some(quote) => {
                next.stage = Stage::Quote;
                let request: Request = Request::ReverseSimulation {
                    venue: quote.0,
                    denom: SETTLEMENT_DENOM,
                    ask_amount: quote.1,
                };
                (next, request)
            },
            None => {
                next.stage = Stage::Done;
                let instructions: Vec<Instruction> = compose(
                    &next.planner.swaps,
                    next.planner.remaining,
                    &next.shortfall,
                    &next.config.anchor_market_contract,
                    &next.config.anchor_overseer_contract,
                    &next.borrower,
                    &next.caller,
                );
                (next, Request::Settle { instructions })
            },
        }
    }

    /// Takes the reply to the last request, and says what to ask for next.
    pub fn advance(self, reply: Reply) -> (r: (Liquidation, Request))
        ensures
            self.advances(reply, r.0, r.1),
            self.wf() ==> r.0.wf(),
    {
        let mut next: Liquidation = self;
        match reply {
            Reply::LoanBalance { loan_amount } => {
                if next.stage != Stage::Loan {
                    return next.reject(ContractError::ExternalService);
                }
                next.stage = Stage::Collaterals;
                next.loan_amount = loan_amount;
                let request: Request = Request::Collaterals {
                    overseer: next.config.anchor_overseer_contract.clone(),
                    borrower: next.borrower.clone(),
                };
                (next, request)
            },
            Reply::Collaterals { collaterals } => {
                if next.stage != Stage::Collaterals {
                    return next.reject(ContractError::ExternalService);
                }
                next.stage = Stage::BorrowLimit;
                next.collaterals = collaterals;
                let request: Request = Request::BorrowLimit {
                    overseer: next.config.anchor_overseer_contract.clone(),
                    borrower: next.borrower.clone(),
                    block_time: next.block_time,
                };
                (next, request)
            },
            Reply::BorrowLimit { borrow_limit } => {
                if next.stage != Stage::BorrowLimit {
                    return next.reject(ContractError::ExternalService);
                }
                if next.loan_amount.lt(&borrow_limit) {
                    return next.reject(ContractError::NotLiquidatable);
                }
                next.stage = Stage::RiskConfig;
                next.borrow_limit = borrow_limit;
                let request: Request = Request::RiskConfig {
                    overseer: next.config.anchor_overseer_contract.clone(),
                };
                (next, request)
            },
            Reply::RiskConfig { price_timeframe } => {
                if next.stage != Stage::RiskConfig {
                    return next.reject(ContractError::ExternalService);
                }
                next.price_timeframe = price_timeframe;
                next.price_next()
            },
            Reply::Price { rate, last_updated_base, last_updated_quote } => {
                if next.stage != Stage::Price {
                    return next.reject(ContractError::ExternalService);
                }
                if !price_is_fresh(
                    last_updated_base,
                    last_updated_quote,
                    next.block_time,
                    next.price_timeframe,
                ) {
                    return next.reject(ContractError::StalePrice);
                }
                next.prices.push(rate);
                next.price_next()
            },
            Reply::LiquidationAmount { collaterals } => {
                if next.stage != Stage::LiquidationAmount {
                    return next.reject(ContractError::ExternalService);
                }
                match shortfall(
                    &next.loan_amount,
                    &next.borrow_limit,
                    &collaterals,
                    &next.prices,
                    next.config.liquidator_fee,
                ) {
                    Err(error) => next.reject(error),
                    Ok(found) => {
                        next.stage = Stage::Guardians;
                        next.shortfall = found;
                        let request: Request = Request::Guardians {
                            borrower: next.borrower.clone(),
                        };
                        (next, request)
                    },
                }
            },
            Reply::Guardians { guardians } => {
                if next.stage != Stage::Guardians {
                    return next.reject(ContractError::ExternalService);
                }
                next.planner = Planner::start(guardians, next.shortfall.ask_amount);
                next.plan_next()
            },
            Reply::ReverseSimulation { offer_amount } => {
                if next.stage != Stage::Quote {
                    return next.reject(ContractError::ExternalService);
                }
                next.planner.supply(offer_amount);
                next.plan_next()
            },
            Reply::Failed => next.reject(ContractError::ExternalService),
        }
    }
}

/// Begins the liquidation of the borrower at `address`, triggered by
/// `sender`: it asks for the loan balance first.
pub fn execute_liquidate_collateral(
    config: Config,
    block_height: u64,
    block_time: u64,
    sender: String,
    address: String,
) -> (r: (Liquidation, Request))
    ensures
        r.0.begun(config, block_height, block_time, sender, address),
        r.0.wf(),
        r.1 == (Request::LoanBalance {
            market: config.anchor_market_contract,
            borrower: address,
            block_height,
        }),
{
    let request: Request = Request::LoanBalance {
        market: config.anchor_market_contract.clone(),
        borrower: address.clone(),
        block_height,
    };
    let liquidation: Liquidation = Liquidation {
        config,
        borrower: address,
        caller: sender,
        block_height,
        block_time,
        stage: Stage::Loan,
        loan_amount: Uint256::zero(),
        borrow_limit: Uint256::zero(),
        collaterals: Vec::new(),
        price_timeframe: 0,
        prices: Vec::new(),
        shortfall: Shortfall { liquidator_fee: 0, repayment_amount: 0, ask_amount: 0 },
        planner: Planner::start(Vec::new(), 0),
    };
    (liquidation, request)
}

impl Stage {
    /// How far the stage is from the end, in stages.
    pub open spec fn rank(self) -> nat {
        match self {
            Stage::Loan => 8,
            Stage::Collaterals => 7,
            Stage::BorrowLimit => 6,
            Stage::RiskConfig => 5,
            Stage::Price => 4,
            Stage::LiquidationAmount => 3,
            Stage::Guardians => 2,
            Stage::Quote => 1,
            Stage::Done => 0,
        }
    }
}

impl Liquidation {
    /// How many replies of the kind that is waited for may still be needed:
    /// the holdings without a price, or the guardians not yet looked at.
    pub open spec fn pending(self) -> nat {
        match self.stage {
            Stage::Price => (self.collaterals.len() - self.prices.len()) as nat,
            Stage::Quote => (self.planner.guardians.len() - self.planner.cursor) as nat,
            _ => 0,
        }
    }
}

/// Every liquidation ends: each step takes it to a later stage, or leaves
/// fewer holdings to price, or fewer guardians to quote.
pub proof fn law_liquidation_progresses(
    before: Liquidation,
    reply: Reply,
    after: Liquidation,
    request: Request,
)
    requires
        before.wf(),
        before.stage != Stage::Done,
        before.advances(reply, after, request),
    ensures
        after.stage.rank() < before.stage.rank() || (after.stage == before.stage && after.pending()
            < before.pending()),
        after.stage == Stage::Done <==> (request is Settle || request is Reject),
{
    match reply {
        Reply::ReverseSimulation { offer_amount } => {
            if before.stage == Stage::Quote {
                lemma_supply_moves_on(before.planner, offer_amount, after.planner);
            }
        },
        _ => {},
    }
}

/// The eligibility gate: where the loan is below the borrow limit, a
/// liquidation ends as soon as it learns the limit, turned down as not
/// liquidatable, and hands out no instruction.
pub proof fn law_eligibility_gate(
    begun: Liquidation,
    loan_amount: Uint256,
    collaterals: Vec<Collateral>,
    borrow_limit: Uint256,
    second: Liquidation,
    second_request: Request,
    third: Liquidation,
    third_request: Request,
    last: Liquidation,
    last_request: Request,
)
    requires
        begun.stage == Stage::Loan,
        begun.advances(Reply::LoanBalance { loan_amount }, second, second_request),
        second.advances(Reply::Collaterals { collaterals }, third, third_request),
        third.advances(Reply::BorrowLimit { borrow_limit }, last, last_request),
        loan_amount@ < borrow_limit@,
    ensures
        last_request == (Request::Reject { error: ContractError::NotLiquidatable }),
        last_request.instructions().len() == 0,
        second_request.instructions().len() == 0,
        third_request.instructions().len() == 0,
        last.stage == Stage::Done,
{
}

/// A stale price ends the liquidation: a price whose base or quote side was
/// last updated before the validity window is turned down, and nothing is
/// handed out.
pub proof fn law_stale_price_ends(
    before: Liquidation,
    rate: Decimal256,
    last_updated_base: u64,
    last_updated_quote: u64,
    after: Liquidation,
    request: Request,
)
    requires
        before.stage == Stage::Price,
        before.advances(
            Reply::Price { rate, last_updated_base, last_updated_quote },
            after,
            request,
        ),
        last_updated_base + before.price_timeframe < before.block_time || last_updated_quote
            + before.price_timeframe < before.block_time,
    ensures
        request == (Request::Reject { error: ContractError::StalePrice }),
        request.instructions().len() == 0,
        after == (Liquidation { stage: Stage::Done, ..before }),
{
}

/// A liquidation that has ended stays ended, whatever reply comes, and hands
/// out nothing more.
pub proof fn law_ended_stays_ended(
    before: Liquidation,
    reply: Reply,
    after: Liquidation,
    request: Request,
)
    requires
        before.stage == Stage::Done,
        before.advances(reply, after, request),
    ensures
        after == before,
        request == (Request::Reject { error: ContractError::ExternalService }),
        request.instructions().len() == 0,
{
}

/// Every step hands out instructions only with a settlement, and a
/// settlement is of exactly one kind: the guardians' swaps with repayment
/// and payout where the plan raises all that was asked, and the one
/// fallback instruction where it does not.
pub proof fn law_one_outcome(
    before: Liquidation,
    reply: Reply,
    after: Liquidation,
    request: Request,
)
    requires
        before.wf(),
        before.advances(reply, after, request),
    ensures
        !(request is Settle) ==> request.instructions().len() == 0,
        request is Settle ==> request.instructions().len() >= 1,
        request is Settle ==> after.stage == Stage::Done,
        request is Settle ==> request.instructions() == settlement(
            after.planner.swaps@,
            after.planner.remaining as nat,
            after.shortfall,
            after.config.anchor_market_contract,
            after.config.anchor_overseer_contract,
            after.borrower,
            after.caller,
        ),
        request is Settle ==> (is_guardian_covered(request.instructions()) <==> after.planner.remaining
            == 0),
        request is Settle ==> (is_fallback(request.instructions()) <==> after.planner.remaining
            != 0),
        request is Settle ==> (is_guardian_covered(request.instructions()) != is_fallback(
            request.instructions(),
        )),
{
    if request is Settle {
        assert(all_swaps(after.planner.swaps@)) by {
            match reply {
                Reply::ReverseSimulation { offer_amount } => {
                    if before.planner.awaiting() {
                        assert forall|i: int| 0 <= i < after.planner.swaps@.len() implies after.planner.swaps@[i] is Swap by {
                            if i < before.planner.swaps@.len() {
                                assert(after.planner.swaps@[i] == before.planner.swaps@[i]);
                            }
                        }
                    }
                },
                _ => {},
            }
        }
        law_one_settlement(
            after.planner.swaps@,
            after.planner.remaining as nat,
            after.shortfall,
            after.config.anchor_market_contract,
            after.config.anchor_overseer_contract,
            after.borrower,
            after.caller,
        );
    }
}

/// Every step keeps a liquidation well formed.
pub proof fn law_steps_keep_wf(
    before: Liquidation,
    reply: Reply,
    after: Liquidation,
    request: Request,
)
    requires
        before.wf(),
        before.advances(reply, after, request),
    ensures
        after.wf(),
{
    match reply {
        Reply::ReverseSimulation { offer_amount } => {
            if before.stage == Stage::Quote {
                lemma_supply_moves_on(before.planner, offer_amount, after.planner);
                assert forall|i: int| 0 <= i < after.planner.swaps@.len() implies after.planner.swaps@[i] is Swap by {
                    if i < before.planner.swaps@.len() {
                        assert(after.planner.swaps@[i] == before.planner.swaps@[i]);
                    }
                }
            }
        },
        Reply::Guardians { guardians } => {
            if before.stage == Stage::Guardians {
                lemma_skip_stops(guardians@, 0, before.shortfall.ask_amount as nat);
            }
        },
        _ => {},
    }
}

/// The first quote asks for the whole shortfall. Once the breakdown is in,
/// the amount to raise is the fee on the breakdown's value plus the debt
/// above the limit, never less than that debt. With the guardians in, the
/// first guardian with something pledged has its venue asked what buys
/// exactly that amount of the settlement currency; where nothing is to
/// raise, or no guardian has anything pledged, nobody is asked and the
/// liquidation settles at once.
pub proof fn law_first_quote_asks_the_shortfall(
    before: Liquidation,
    breakdown: Vec<Collateral>,
    sized: Liquidation,
    first: Request,
    guardians: Vec<Guardian>,
    planned: Liquidation,
    second: Request,
)
    requires
        before.stage == Stage::LiquidationAmount,
        before.advances(Reply::LiquidationAmount { collaterals: breakdown }, sized, first),
        !(first is Reject),
        sized.advances(Reply::Guardians { guardians }, planned, second),
    ensures
        first == (Request::Guardians { borrower: before.borrower }),
        before.loan_amount@ >= before.borrow_limit@,
        sized.shortfall.liquidator_fee == fee_value(
            value_upto(breakdown@, before.prices@, priced(breakdown@, before.prices@)),
            before.config.liquidator_fee as nat,
        ),
        sized.shortfall.repayment_amount == before.loan_amount@ - before.borrow_limit@,
        sized.shortfall.ask_amount == sized.shortfall.liquidator_fee + (before.loan_amount@
            - before.borrow_limit@),
        sized.shortfall.ask_amount >= before.loan_amount@ - before.borrow_limit@,
        planned.planner.guardians == guardians,
        ({
            let at = skip(guardians@, 0, sized.shortfall.ask_amount as nat);
            if sized.shortfall.ask_amount > 0 && at < guardians.len() {
                &&& guardians[at].amount > 0
                &&& forall|i: int| 0 <= i < at ==> guardians[i].amount == 0
                &&& second == (Request::ReverseSimulation {
                    venue: guardians[at].pair_address,
                    denom: SETTLEMENT_DENOM,
                    ask_amount: sized.shortfall.ask_amount,
                })
            } else {
                second is Settle
            }
        }),
        sized.shortfall.ask_amount > 0 && guardians.len() > 0 && guardians[0].amount > 0 ==> second
            == (Request::ReverseSimulation {
            venue: guardians[0].pair_address,
            denom: SETTLEMENT_DENOM,
            ask_amount: sized.shortfall.ask_amount,
        }),
{
    let ask = sized.shortfall.ask_amount as nat;
    lemma_skip(guardians@, Seq::empty(), 0, ask);
    lemma_skip_stops(guardians@, 0, ask);
    lemma_skipped_are_empty(guardians@, 0, ask);
}

/// The guardians that `skip` passes over have nothing pledged.
pub proof fn lemma_skipped_are_empty(guardians: Seq<Guardian>, from: int, remaining: nat)
    requires
        0 <= from,
    ensures
        forall|i: int| from <= i < skip(guardians, from, remaining) ==> guardians[i].amount == 0,
    decreases guardians.len() - from,
{
    if !(from >= guardians.len() || remaining == 0 || guardians[from].amount > 0) {
        lemma_skipped_are_empty(guardians, from + 1, remaining);
    }
}

/// The quotes follow the pledges. Each quote plans the swap of the guardian
/// that was asked about, after the swaps planned before, and takes what the
/// swap covers off what is left. The next venue asked is that of a later
/// guardian, the first with something pledged, and it is asked for exactly
/// what is left; once nothing is left, or no such guardian, nobody is asked
/// any more and the liquidation settles.
pub proof fn law_quotes_follow_pledges(
    before: Liquidation,
    offer_amount: u128,
    after: Liquidation,
    request: Request,
)
    requires
        before.wf(),
        before.stage == Stage::Quote,
        before.advances(Reply::ReverseSimulation { offer_amount }, after, request),
    ensures
        after.planner.guardians == before.planner.guardians,
        after.planner.swaps@ == before.planner.swaps@.push(
            swap_of(before.planner.guardians[before.planner.cursor as int], offer_amount as nat),
        ),
        after.planner.remaining == before.planner.remaining - coverage(
            before.planner.guardians[before.planner.cursor as int].amount as nat,
            offer_amount as nat,
            before.planner.remaining as nat,
        ),
        before.planner.cursor < after.planner.cursor <= before.planner.guardians.len(),
        forall|i: int|
            before.planner.cursor < i < after.planner.cursor ==> before.planner.guardians[i].amount
                == 0,
        if after.planner.remaining > 0 && after.planner.cursor < after.planner.guardians.len() {
            &&& after.planner.guardians[after.planner.cursor as int].amount > 0
            &&& request == (Request::ReverseSimulation {
                venue: after.planner.guardians[after.planner.cursor as int].pair_address,
                denom: SETTLEMENT_DENOM,
                ask_amount: after.planner.remaining,
            })
        } else {
            request is Settle
        },
{
    lemma_supply_moves_on(before.planner, offer_amount, after.planner);
    lemma_skip_stops(
        before.planner.guardians@,
        before.planner.cursor + 1,
        after.planner.remaining as nat,
    );
    lemma_skipped_are_empty(
        before.planner.guardians@,
        before.planner.cursor + 1,
        after.planner.remaining as nat,
    );
}

/// A run of a liquidation: each step takes the reply, the state and the
/// request that the step before it left.
pub open spec fn runs(begun: Liquidation, steps: Seq<(Reply, Liquidation, Request)>) -> bool {
    forall|i: int|
        0 <= i < steps.len() ==> (if i == 0 {
            begun
        } else {
            steps[i - 1].1
        }).advances((#[trigger] steps[i]).0, steps[i].1, steps[i].2)
}

/// A liquidation that has just begun is well formed, so that what holds of
/// every run from a well-formed liquidation holds of every liquidation that
/// `execute_liquidate_collateral` or `execute` began.
pub proof fn law_begun_is_well_formed(
    liquidation: Liquidation,
    config: Config,
    block_height: u64,
    block_time: u64,
    sender: String,
    address: String,
)
    requires
        liquidation.begun(config, block_height, block_time, sender, address),
    ensures
        liquidation.wf(),
{
}

/// The state that the step at `at` of a run starts from.
pub open spec fn state_before(
    begun: Liquidation,
    steps: Seq<(Reply, Liquidation, Request)>,
    at: int,
) -> Liquidation {
    if at == 0 {
        begun
    } else {
        steps[at - 1].1
    }
}

/// Every state of a run from a well-formed liquidation is well formed.
pub proof fn lemma_run_keeps_wf(
    begun: Liquidation,
    steps: Seq<(Reply, Liquidation, Request)>,
    at: int,
)
    requires
        begun.wf(),
        runs(begun, steps),
        0 <= at <= steps.len(),
    ensures
        state_before(begun, steps, at).wf(),
    decreases at,
{
    if at > 0 {
        lemma_run_keeps_wf(begun, steps, at - 1);
        let step = steps[at - 1];
        assert(state_before(begun, steps, at - 1).advances(step.0, step.1, step.2));
        law_steps_keep_wf(state_before(begun, steps, at - 1), step.0, step.1, step.2);
    }
}

/// In a run, once a step has settled or refused, every later state has
/// ended.
pub proof fn lemma_ended_after(
    begun: Liquidation,
    steps: Seq<(Reply, Liquidation, Request)>,
    at: int,
    later: int,
)
    requires
        runs(begun, steps),
        0 <= at <= later < steps.len(),
        steps[at].2 is Settle || steps[at].2 is Reject,
    ensures
        steps[later].1.stage == Stage::Done,
    decreases later - at,
{
    let step = steps[later];
    assert(state_before(begun, steps, later).advances(step.0, step.1, step.2));
    if later == at {
        law_stage_of_ending(state_before(begun, steps, later), step.0, step.1, step.2);
    } else {
        lemma_ended_after(begun, steps, at, later - 1);
        law_ended_stays_ended(steps[later - 1].1, step.0, step.1, step.2);
    }
}

/// A step that settles or refuses ends the liquidation.
pub proof fn law_stage_of_ending(
    before: Liquidation,
    reply: Reply,
    after: Liquidation,
    request: Request,
)
    requires
        before.advances(reply, after, request),
        request is Settle || request is Reject,
    ensures
        after.stage == Stage::Done,
{
}

/// One liquidation, one outcome: in every run from a liquidation that has
/// just begun, a settlement is handed out at most once, it is not empty,
/// and it is of exactly one kind. After it, and after a refusal, nothing
/// more is handed out.
pub proof fn law_one_settlement_per_run(
    begun: Liquidation,
    steps: Seq<(Reply, Liquidation, Request)>,
)
    requires
        begun.wf(),
        runs(begun, steps),
    ensures
        forall|i: int| 0 <= i < steps.len() ==> (#[trigger] steps[i]).1.wf(),
        forall|i: int|
            0 <= i < steps.len() && (#[trigger] steps[i]).2 is Settle ==> {
                &&& steps[i].2.instructions().len() >= 1
                &&& is_guardian_covered(steps[i].2.instructions()) != is_fallback(
                    steps[i].2.instructions(),
                )
                &&& is_guardian_covered(steps[i].2.instructions())
                    <==> steps[i].1.planner.remaining == 0
            },
        forall|i: int|
            0 <= i < steps.len() && !((#[trigger] steps[i]).2 is Settle)
                ==> steps[i].2.instructions().len() == 0,
        forall|i: int, j: int|
            0 <= i < j < steps.len() && ((#[trigger] steps[i]).2 is Settle || steps[i].2 is Reject)
                ==> (#[trigger] steps[j]).2 == (Request::Reject {
                error: ContractError::ExternalService,
            }),
{
    assert forall|i: int| 0 <= i < steps.len() implies (#[trigger] steps[i]).1.wf() by {
        lemma_run_keeps_wf(begun, steps, i + 1);
    }
    assert forall|i: int| 0 <= i < steps.len() && (#[trigger] steps[i]).2 is Settle implies {
        &&& steps[i].2.instructions().len() >= 1
        &&& is_guardian_covered(steps[i].2.instructions()) != is_fallback(
            steps[i].2.instructions(),
        )
        &&& is_guardian_covered(steps[i].2.instructions()) <==> steps[i].1.planner.remaining
            == 0
    } by {
        lemma_run_keeps_wf(begun, steps, i);
        law_one_outcome(state_before(begun, steps, i), steps[i].0, steps[i].1, steps[i].2);
    }
    assert forall|i: int|
        0 <= i < steps.len() && !((#[trigger] steps[i]).2 is Settle) implies steps[i].2.instructions().len()
        == 0 by {}
    assert forall|i: int, j: int|
        0 <= i < j < steps.len() && ((#[trigger] steps[i]).2 is Settle
            || steps[i].2 is Reject) implies (#[trigger] steps[j]).2 == (Request::Reject {
        error: ContractError::ExternalService,
    }) by {
        lemma_ended_after(begun, steps, i, j - 1);
        assert(state_before(begun, steps, j).advances(steps[j].0, steps[j].1, steps[j].2));
        law_ended_stays_ended(steps[j - 1].1, steps[j].0, steps[j].1, steps[j].2);
    }
}

} // verus!
