//! Eligibility, price freshness, and the amount that a liquidation must raise.

use vstd::prelude::*;
use crate::error::ContractError;
use crate::wide::{
    decimal_one,
    decimal_one_squared,
    lemma_decimal_one_squared,
    uint256_limit,
    Decimal256,
    Uint256,
};

verus! {

/// 10^36: one whole unit, in the units of a value times a ratio.
pub const DECIMAL_FRACTIONAL_SQUARED: u128 = 1_000_000_000_000_000_000_000_000_000_000_000_000;

/// One holding of a borrower's collateral, or one line of the breakdown that
/// the liquidation service returns.
#[derive(Debug, PartialEq, Eq)]
pub struct Collateral {
    /// The collateral token.
    pub token: String,
    /// The quantity of it.
    pub amount: Uint256,
}

impl Clone for Collateral {
    fn clone(&self) -> (copy: Collateral)
        ensures
            copy == *self,
    {
        Collateral { token: self.token.clone(), amount: self.amount }
    }
}

/// What a liquidation must raise, in units of the settlement currency.
#[derive(Clone, Copy, Debug, PartialEq, Eq, Structural)]
pub struct Shortfall {
    /// The liquidator's incentive.
    pub liquidator_fee: u128,
    /// The part that repays debt: how far the loan exceeds the borrow limit.
    pub repayment_amount: u128,
    /// The whole amount to raise: incentive plus repayment.
    pub ask_amount: u128,
}

/// A position may be liquidated when the loan has reached the borrow limit.
pub open spec fn liquidatable(loan: nat, limit: nat) -> bool {
    loan >= limit
}

/// A timestamp is fresh when it is no older than the window before now.
pub open spec fn fresh(last_updated: int, now: int, window: int) -> bool {
    last_updated >= now - window
}

/// The value of a quantity at a price, in units of 10^-18: the quantity
/// times the price's atomic units, with nothing rounded off.
pub open spec fn holding_value(amount: nat, price: nat) -> nat {
    amount * price
}

/// The number of holdings that have a price: the shorter of the two lengths.
pub open spec fn priced(holdings: Seq<Collateral>, prices: Seq<Decimal256>) -> nat {
    if holdings.len() <= prices.len() {
        holdings.len()
    } else {
        prices.len()
    }
}

/// The summed value of the first `n` holdings, each at the price of the same
/// position, in units of 10^-18 and in full precision.
pub open spec fn value_upto(holdings: Seq<Collateral>, prices: Seq<Decimal256>, n: nat) -> nat
    decreases n,
{
    if n == 0 {
        0
    } else {
        value_upto(holdings, prices, (n - 1) as nat) + holding_value(
            holdings[n - 1].amount@,
            prices[n - 1]@,
        )
    }
}

/// Whether each of the first `n` quantities times its price fits 256 bits.
pub open spec fn products_fit(holdings: Seq<Collateral>, prices: Seq<Decimal256>, n: nat) -> bool {
    forall|i: int| 0 <= i < n ==> holdings[i].amount@ * prices[i]@ < uint256_limit()
}

/// The liquidator's incentive, in whole units, on a total value in units of
/// 10^-18: the value times the fee ratio. This is the one place where
/// anything is rounded off: value and ratio both carry 18 fractional digits,
/// and the 36 of their product are cut.
pub open spec fn fee_value(total: nat, fee: nat) -> nat {
    (total * fee) / decimal_one_squared()
}

/// Whether every value on the way to the shortfall fits its amount: each
/// product, the total and the total times the fee ratio 256 bits, the
/// amount to raise 128 bits.
pub open spec fn shortfall_fits(
    loan: nat,
    limit: nat,
    holdings: Seq<Collateral>,
    prices: Seq<Decimal256>,
    fee: nat,
) -> bool {
    let n = priced(holdings, prices);
    let total = value_upto(holdings, prices, n);
    &&& products_fit(holdings, prices, n)
    &&& total < uint256_limit()
    &&& total * fee < uint256_limit()
    &&& fee_value(total, fee) + (loan - limit) <= u128::MAX
}

/// The shortfall of a position, or why there is none.
pub open spec fn shortfall_of(
    loan: nat,
    limit: nat,
    holdings: Seq<Collateral>,
    prices: Seq<Decimal256>,
    fee: nat,
) -> Result<Shortfall, ContractError> {
    let total = value_upto(holdings, prices, priced(holdings, prices));
    if !liquidatable(loan, limit) {
        Err(ContractError::NotLiquidatable)
    } else if !shortfall_fits(loan, limit, holdings, prices, fee) {
        Err(ContractError::Overflow)
    } else {
        Ok(
            Shortfall {
                liquidator_fee: fee_value(total, fee) as u128,
                repayment_amount: (loan - limit) as u128,
                ask_amount: (fee_value(total, fee) + (loan - limit)) as u128,
            },
        )
    }
}

/// The summed value grows with the number of holdings counted.
pub proof fn lemma_value_grows(
    holdings: Seq<Collateral>,
    prices: Seq<Decimal256>,
    m: nat,
    n: nat,
)
    requires
        m <= n,
    ensures
        value_upto(holdings, prices, m) <= value_upto(holdings, prices, n),
    decreases n,
{
    if m < n {
        lemma_value_grows(holdings, prices, m, (n - 1) as nat);
    }
}

/// The shortfall adds up: the repayment is the debt above the limit, the
/// incentive is the fee on the total value, and the amount to raise is
/// their sum, hence never less than the repayment.
pub proof fn law_shortfall_adds_up(
    loan: nat,
    limit: nat,
    holdings: Seq<Collateral>,
    prices: Seq<Decimal256>,
    fee: nat,
)
    requires
        shortfall_of(loan, limit, holdings, prices, fee) is Ok,
    ensures
        ({
            let found = shortfall_of(loan, limit, holdings, prices, fee)->Ok_0;
            &&& loan >= limit
            &&& found.repayment_amount == loan - limit
            &&& found.liquidator_fee == fee_value(
                value_upto(holdings, prices, priced(holdings, prices)),
                fee,
            )
            &&& found.ask_amount == found.liquidator_fee + (loan - limit)
            &&& found.ask_amount == found.liquidator_fee + found.repayment_amount
            &&& found.ask_amount >= found.repayment_amount
        }),
{
}

/// With a fee ratio of at most one, the incentive is at most the whole
/// units of the value it is taken on.
pub proof fn law_fee_within_value(total: nat, fee: nat)
    requires
        fee <= decimal_one(),
    ensures
        fee_value(total, fee) <= total / decimal_one(),
{
    let one = decimal_one();
    lemma_decimal_one_squared();
    assert(total * fee <= total * one) by (nonlinear_arith)
        requires
            fee <= one,
    ;
    assert((total * fee) / (one * one) <= (total * one) / (one * one)) by (nonlinear_arith)
        requires
            total * fee <= total * one,
            one > 0,
    ;
    assert((total * one) / (one * one) == total / one) by (nonlinear_arith)
        requires
            one > 0,
    ;
}

/// Whether the loan has reached the borrow limit.
pub fn is_liquidatable(loan: &Uint256, limit: &Uint256) -> (r: bool)
    ensures
        r == liquidatable(loan@, limit@),
{
    !loan.lt(limit)
}

/// Whether both timestamps of a price are within the window that ends now.
pub fn price_is_fresh(
    last_updated_base: u64,
    last_updated_quote: u64,
    block_time: u64,
    price_timeframe: u64,
) -> (r: bool)
    ensures
        r == (fresh(last_updated_base as int, block_time as int, price_timeframe as int) && fresh(
            last_updated_quote as int,
            block_time as int,
            price_timeframe as int,
        )),
{
    if block_time < price_timeframe {
        true
    } else {
        let oldest: u64 = block_time - price_timeframe;
        last_updated_base >= oldest && last_updated_quote >= oldest
    }
}

/// The total value of the holdings that have a price, in units of 10^-18
/// and with nothing rounded off, where every product and the sum fit 256
/// bits.
pub fn liquidation_value(holdings: &Vec<Collateral>, prices: &Vec<Decimal256>) -> (r: Option<
    Uint256,
>)
    ensures
        r is Some <==> products_fit(holdings@, prices@, priced(holdings@, prices@)) && value_upto(
            holdings@,
            prices@,
            priced(holdings@, prices@),
        ) < uint256_limit(),
        r matches Some(v) ==> v@ == value_upto(holdings@, prices@, priced(holdings@, prices@)),
{
    let n: usize = if holdings.len() <= prices.len() {
        holdings.len()
    } else {
        prices.len()
    };
    let mut total: Uint256 = Uint256::zero();
    let mut i: usize = 0;
    while i < n
        invariant
            i <= n,
            n == priced(holdings@, prices@),
            total@ == value_upto(holdings@, prices@, i as nat),
            products_fit(holdings@, prices@, i as nat),
        decreases n - i,
    {
        let value: Uint256 = match holdings[i].amount.checked_mul(&prices[i].atomics) {
            Some(v) => v,
            None => {
                return None;
            },
        };
        proof {
            lemma_value_grows(holdings@, prices@, (i + 1) as nat, n as nat);
        }
        total = match total.checked_add(&value) {
            Some(t) => t,
            None => {
                return None;
            },
        };
        i = i + 1;
    }
    Some(total)
}

/// The shortfall of a position: the incentive on the total collateral value,
/// the repayment that brings the loan back to its limit, and their sum. The
/// value is summed in full precision, and the incentive is rounded down
/// once, when it is turned into whole units.
pub fn shortfall(
    loan: &Uint256,
    limit: &Uint256,
    holdings: &Vec<Collateral>,
    prices: &Vec<Decimal256>,
    fee: u128,
) -> (r: Result<Shortfall, ContractError>)
    ensures
        r == shortfall_of(loan@, limit@, holdings@, prices@, fee as nat),
        r is Err <==> !liquidatable(loan@, limit@) || !shortfall_fits(
            loan@,
            limit@,
            holdings@,
            prices@,
            fee as nat,
        ),
        r matches Ok(s) ==> s.repayment_amount == loan@ - limit@ && s.ask_amount
            == s.liquidator_fee + s.repayment_amount && s.ask_amount >= s.repayment_amount,
{
    let repayment: Uint256 = match loan.checked_sub(limit) {
        Some(d) => d,
        None => {
            return Err(ContractError::NotLiquidatable);
        },
    };
    let total: Uint256 = match liquidation_value(holdings, prices) {
        Some(v) => v,
        None => {
            return Err(ContractError::Overflow);
        },
    };
    let incentive: Uint256 = match total.checked_ratio(
        &Uint256::from_u128(fee),
        &Uint256::from_u128(DECIMAL_FRACTIONAL_SQUARED),
    ) {
        Some(v) => v,
        None => {
            return Err(ContractError::Overflow);
        },
    };
    let ask: Uint256 = match incentive.checked_add(&repayment) {
        Some(v) => v,
        None => {
            return Err(ContractError::Overflow);
        },
    };
    let ask_amount: u128 = match ask.to_u128() {
        Some(v) => v,
        None => {
            return Err(ContractError::Overflow);
        },
    };
    let liquidator_fee: u128 = match incentive.to_u128() {
        Some(v) => v,
        None => {
            return Err(ContractError::Overflow);
        },
    };
    let repayment_amount: u128 = match repayment.to_u128() {
        Some(v) => v,
        None => {
            return Err(ContractError::Overflow);
        },
    };
    Ok(Shortfall { liquidator_fee, repayment_amount, ask_amount })
}

} // verus!
