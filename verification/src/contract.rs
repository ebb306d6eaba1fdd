//! The module's operations: what each request changes and hands out, given
//! what the module has stored.

use vstd::prelude::*;
use crate::error::ContractError;
use crate::instruction::{Expiration, Instruction};
use crate::liquidation::{execute_liquidate_collateral, Liquidation, Request};
use crate::msg::{ConfigResponse, ExecuteMsg, InstantiateMsg, QueryMsg};
use crate::state::{listed, pledged, Borrower, Config, Guardian, State};

verus! {

/// The ratio one, in units of 10^-18.
pub const DECIMAL_FRACTIONAL: u128 = 1_000_000_000_000_000_000;

/// What a request sees of the block that carries it.
#[derive(Clone, Debug, PartialEq, Eq)]
pub struct Env {
    /// The module's own address.
    pub contract: String,
    /// The height of the block.
    pub block_height: u64,
    /// The time of the block, in seconds.
    pub block_time: u64,
}

/// What a request brought about.
#[derive(Debug, PartialEq, Eq)]
pub enum Executed {
    /// The whitelist is now `state`.
    Whitelisted { state: State },
    /// The configuration is now `config`.
    ConfigUpdated { config: Config },
    /// The sender's guardians are now those of `borrower`, and `allowance`
    /// goes to the pledged asset.
    GuardianAdded { borrower: Borrower, allowance: Instruction },
    /// A liquidation has begun, and asks for `request`.
    Liquidating { liquidation: Liquidation, request: Request },
}

impl Executed {
    /// The tag of the event that records the request: a liquidation attempt
    /// is tagged as such, every other request as a change of configuration.
    pub fn action(&self) -> (tag: &'static str)
        ensures
            self is Liquidating ==> tag@ == "liquidate_collateral"@,
            !(self is Liquidating) ==> tag@ == "update_config"@,
    {
        match self {
            Executed::Liquidating { .. } => "liquidate_collateral",
            _ => "update_config",
        }
    }
}

/// What a query answers.
#[derive(Debug, PartialEq, Eq)]
pub enum QueryResponse {
    /// The configuration.
    Config(ConfigResponse),
    /// A borrower's guardians.
    Guardians(Borrower),
}

/// The configuration that a set-up message asks for.
pub open spec fn configured(msg: InstantiateMsg) -> Config {
    Config {
        owner: msg.owner,
        anchor_market_contract: msg.anchor_market_contract,
        anchor_overseer_contract: msg.anchor_overseer_contract,
        anchor_liquidation_contract: msg.anchor_liquidation_contract,
        anchor_oracle_contract: msg.anchor_oracle_contract,
        liquidator_fee: msg.liquidator_fee,
    }
}

/// The whitelist after an asset is allowed: unchanged where the asset is on
/// it already, else with the asset in the last place.
pub open spec fn whitelisted_with(assets: Seq<String>, asset: String) -> Seq<String> {
    if listed(assets, asset@) {
        assets
    } else {
        assets.push(asset)
    }
}

/// The whitelist only grows: what was allowed stays allowed, in its place,
/// and the asset is allowed afterwards.
pub proof fn law_whitelist_only_grows(assets: Seq<String>, asset: String)
    ensures
        listed(whitelisted_with(assets, asset), asset@),
        assets.len() <= whitelisted_with(assets, asset).len(),
        forall|i: int| 0 <= i < assets.len() ==> whitelisted_with(assets, asset)[i] == assets[i],
        forall|other: Seq<char>|
            listed(assets, other) ==> listed(whitelisted_with(assets, asset), other),
{
    let after = whitelisted_with(assets, asset);
    if !listed(assets, asset@) {
        assert(after[assets.len() as int]@ == asset@);
        assert forall|other: Seq<char>| listed(assets, other) implies listed(after, other) by {
            let i = choose|i: int| 0 <= i < assets.len() && assets[i]@ == other;
            assert(after[i]@ == other);
        }
    }
}

/// Sets the module up. A fee ratio above one is turned down.
pub fn instantiate(msg: InstantiateMsg) -> (r: Result<Config, ContractError>)
    ensures
        r is Ok <==> msg.liquidator_fee <= DECIMAL_FRACTIONAL,
        r matches Ok(config) ==> config == configured(msg),
        r matches Err(error) ==> error == ContractError::Validation,
{
    if msg.liquidator_fee > DECIMAL_FRACTIONAL {
        return Err(ContractError::Validation);
    }
    Ok(
        Config {
            owner: msg.owner,
            anchor_market_contract: msg.anchor_market_contract,
            anchor_overseer_contract: msg.anchor_overseer_contract,
            anchor_liquidation_contract: msg.anchor_liquidation_contract,
            anchor_oracle_contract: msg.anchor_oracle_contract,
            liquidator_fee: msg.liquidator_fee,
        },
    )
}

/// Hands the module to a new owner. Only the owner may.
pub fn execute_update_config(config: Config, sender: &String, owner: String) -> (r: Result<
    Config,
    ContractError,
>)
    ensures
        r is Ok <==> sender@ == config.owner@,
        r matches Ok(updated) ==> updated == (Config { owner, ..config }),
        r matches Err(error) ==> error == ContractError::Unauthorized,
{
    if config.owner != *sender {
        return Err(ContractError::Unauthorized);
    }
    let mut updated: Config = config;
    updated.owner = owner;
    Ok(updated)
}

/// Allows an asset to be pledged. Only the owner may; an asset that is
/// allowed already is not listed twice.
pub fn execute_whitelist_cw20(config: &Config, state: State, sender: &String, address: String) -> (r:
    Result<State, ContractError>)
    ensures
        r is Ok <==> sender@ == config.owner@,
        r matches Ok(updated) ==> updated.whitelisted_cw20s@ == whitelisted_with(
            state.whitelisted_cw20s@,
            address,
        ),
        r matches Err(error) ==> error == ContractError::Unauthorized,
{
    if config.owner != *sender {
        return Err(ContractError::Unauthorized);
    }
    let mut updated: State = state;
    if !updated.is_whitelisted(&address) {
        updated.whitelisted_cw20s.push(address);
    }
    Ok(updated)
}

/// Pledges `amount` of a whitelisted asset for the borrower: the guardian
/// takes the last place among the borrower's guardians, in place of an
/// earlier pledge of the same asset, and the asset is told to let the
/// module at `contract` draw `amount` more, without an end.
pub fn execute_add_guardian(
    state: &State,
    borrower: Borrower,
    contract: String,
    cw20_address: String,
    amount: u128,
    pair_address: String,
) -> (r: Result<(Borrower, Instruction), ContractError>)
    ensures
        r is Ok <==> listed(state.whitelisted_cw20s@, cw20_address@),
        r matches Ok(done) ==> {
            &&& done.0.guardians@ == pledged(
                borrower.guardians@,
                Guardian { address: cw20_address, amount, pair_address },
            )
            &&& borrower.wf() ==> done.0.wf()
            &&& done.1 == (Instruction::IncreaseAllowance {
                asset: cw20_address,
                spender: contract,
                amount,
                expires: Expiration::Never,
            })
        },
        r matches Err(error) ==> error == ContractError::Unauthorized,
{
    if !state.is_whitelisted(&cw20_address) {
        return Err(ContractError::Unauthorized);
    }
    let allowance: Instruction = Instruction::IncreaseAllowance {
        asset: cw20_address.clone(),
        spender: contract,
        amount,
        expires: Expiration::Never,
    };
    let mut updated: Borrower = borrower;
    updated.pledge(Guardian { address: cw20_address, amount, pair_address });
    Ok((updated, allowance))
}

/// The answer to a query for the configuration.
pub open spec fn config_response(config: Config) -> ConfigResponse {
    ConfigResponse {
        owner: config.owner,
        anchor_market_contract: config.anchor_market_contract,
        anchor_overseer_contract: config.anchor_overseer_contract,
        anchor_liquidation_contract: config.anchor_liquidation_contract,
        anchor_oracle_contract: config.anchor_oracle_contract,
        liquidator_fee: config.liquidator_fee,
    }
}

/// The configuration, for a query.
pub fn query_config(config: &Config) -> (r: ConfigResponse)
    ensures
        r == config_response(*config),
{
    ConfigResponse {
        owner: config.owner.clone(),
        anchor_market_contract: config.anchor_market_contract.clone(),
        anchor_overseer_contract: config.anchor_overseer_contract.clone(),
        anchor_liquidation_contract: config.anchor_liquidation_contract.clone(),
        anchor_oracle_contract: config.anchor_oracle_contract.clone(),
        liquidator_fee: config.liquidator_fee,
    }
}

/// A borrower's guardians, for a query: those stored, and none for a
/// borrower who has never pledged.
pub fn query_guardians(stored: Option<Borrower>) -> (r: Borrower)
    ensures
        stored matches Some(borrower) ==> r == borrower,
        stored is None ==> r.guardians@.len() == 0,
{
    match stored {
        Some(borrower) => borrower,
        None => Borrower::new(),
    }
}

/// Answers a query from what is stored: the configuration, or the stored
/// guardians of the borrower that the query names.
pub fn query(config: &Config, stored: Option<Borrower>, msg: QueryMsg) -> (r: QueryResponse)
    ensures
        match msg {
            QueryMsg::Config {  } => r == QueryResponse::Config(config_response(*config)),
            QueryMsg::Guardians { address } => {
                &&& r matches QueryResponse::Guardians(borrower)
                &&& stored matches Some(found) ==> borrower == found
                &&& stored is None ==> borrower.guardians@.len() == 0
            },
        },
{
    match msg {
        QueryMsg::Config {  } => QueryResponse::Config(query_config(config)),
        QueryMsg::Guardians { address: _ } => QueryResponse::Guardians(query_guardians(stored)),
    }
}

/// Carries out a request of `sender`, given the stored configuration and
/// whitelist and the sender's own guardians. A liquidation only begins
/// here: it goes on with `Liquidation::advance`.
pub fn execute(
    config: Config,
    state: State,
    position: Borrower,
    env: Env,
    sender: String,
    msg: ExecuteMsg,
) -> (r: Result<Executed, ContractError>)
    ensures
        match msg {
            ExecuteMsg::WhitelistCw20 { address } => {
                &&& r is Ok <==> sender@ == config.owner@
                &&& r matches Ok(done) ==> {
                    &&& done matches Executed::Whitelisted { state: updated }
                    &&& updated.whitelisted_cw20s@ == whitelisted_with(
                        state.whitelisted_cw20s@,
                        address,
                    )
                }
                &&& r matches Err(error) ==> error == ContractError::Unauthorized
            },
            ExecuteMsg::UpdateConfig { owner } => {
                &&& r is Ok <==> sender@ == config.owner@
                &&& r matches Ok(done) ==> done == (Executed::ConfigUpdated {
                    config: Config { owner, ..config },
                })
                &&& r matches Err(error) ==> error == ContractError::Unauthorized
            },
            ExecuteMsg::AddGuardian { cw20_address, amount, pair_address } => {
                &&& r is Ok <==> listed(state.whitelisted_cw20s@, cw20_address@)
                &&& r matches Ok(done) ==> {
                    &&& done matches Executed::GuardianAdded { borrower, allowance }
                    &&& borrower.guardians@ == pledged(
                        position.guardians@,
                        Guardian { address: cw20_address, amount, pair_address },
                    )
                    &&& position.wf() ==> borrower.wf()
                    &&& allowance == (Instruction::IncreaseAllowance {
                        asset: cw20_address,
                        spender: env.contract,
                        amount,
                        expires: Expiration::Never,
                    })
                }
                &&& r matches Err(error) ==> error == ContractError::Unauthorized
            },
            ExecuteMsg::LiquidateCollateral { address } => {
                &&& r matches Ok(Executed::Liquidating { liquidation, request })
                &&& liquidation.begun(
                    config,
                    env.block_height,
                    env.block_time,
                    sender,
                    address,
                )
                &&& liquidation.wf()
                &&& request == (Request::LoanBalance {
                    market: config.anchor_market_contract,
                    borrower: address,
                    block_height: env.block_height,
                })
            },
        },
{
    match msg {
        ExecuteMsg::WhitelistCw20 { address } => {
            match execute_whitelist_cw20(&config, state, &sender, address) {
                Ok(updated) => Ok(Executed::Whitelisted { state: updated }),
                Err(error) => Err(error),
            }
        },
        ExecuteMsg::UpdateConfig { owner } => {
            match execute_update_config(config, &sender, owner) {
                Ok(updated) => Ok(Executed::ConfigUpdated { config: updated }),
                Err(error) => Err(error),
            }
        },
        ExecuteMsg::AddGuardian { cw20_address, amount, pair_address } => {
            match execute_add_guardian(
                &state,
                position,
                env.contract,
                cw20_address,
                amount,
                pair_address,
            ) {
                Ok(done) => Ok(Executed::GuardianAdded { borrower: done.0, allowance: done.1 }),
                Err(error) => Err(error),
            }
        },
        ExecuteMsg::LiquidateCollateral { address } => {
            let begun: (Liquidation, Request) = execute_liquidate_collateral(
                config,
                env.block_height,
                env.block_time,
                sender,
                address,
            );
            Ok(Executed::Liquidating { liquidation: begun.0, request: begun.1 })
        },
    }
}

} // verus!
