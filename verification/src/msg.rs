//! The messages that the module takes and answers.

use vstd::prelude::*;

verus! {

/// What the module is set up with.
#[derive(Clone, Debug, PartialEq, Eq)]
pub struct InstantiateMsg {
    /// Who may change the configuration and the whitelist.
    pub owner: String,
    /// The lending market.
    pub anchor_market_contract: String,
    /// The risk overseer.
    pub anchor_overseer_contract: String,
    /// The liquidation service.
    pub anchor_liquidation_contract: String,
    /// The price oracle.
    pub anchor_oracle_contract: String,
    /// The liquidator's incentive as a ratio, in units of 10^-18.
    pub liquidator_fee: u128,
}

/// A request that changes something.
#[derive(Clone, Debug, PartialEq, Eq)]
pub enum ExecuteMsg {
    /// The owner allows an asset to be pledged.
    WhitelistCw20 { address: String },
    /// The owner hands the module to a new owner.
    UpdateConfig { owner: String },
    /// The sender pledges `amount` of an asset, to be swapped on the market
    /// at `pair_address`.
    AddGuardian { cw20_address: String, amount: u128, pair_address: String },
    /// Anyone asks for the liquidation of the borrower at `address`.
    LiquidateCollateral { address: String },
}

/// A request that only reads.
#[derive(Clone, Debug, PartialEq, Eq)]
pub enum QueryMsg {
    /// The configuration.
    Config {},
    /// The guardians of the borrower at `address`.
    Guardians { address: String },
}

/// The configuration, as a query answers it.
#[derive(Clone, Debug, PartialEq, Eq)]
pub struct ConfigResponse {
    /// Who may change the configuration and the whitelist.
    pub owner: String,
    /// The lending market.
    pub anchor_market_contract: String,
    /// The risk overseer.
    pub anchor_overseer_contract: String,
    /// The liquidation service.
    pub anchor_liquidation_contract: String,
    /// The price oracle.
    pub anchor_oracle_contract: String,
    /// The liquidator's incentive as a ratio, in units of 10^-18.
    pub liquidator_fee: u128,
}

/// A repayment of `amount` of the settlement currency.
#[derive(Clone, Copy, Debug, PartialEq, Eq)]
pub struct RepayStable {
    /// The amount to repay.
    pub amount: u128,
}

} // verus!
