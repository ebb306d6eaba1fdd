//! The instructions that the module hands to the settlement runtime.

use vstd::prelude::*;

verus! {

/// The denomination of the settlement currency.
pub const SETTLEMENT_DENOM: &'static str = "uusd";

/// When an allowance ends.
#[derive(Clone, Copy, Debug, PartialEq, Eq, Structural)]
pub enum Expiration {
    /// At the block of this height.
    AtHeight(u64),
    /// At this time, in nanoseconds.
    AtTime(u64),
    /// Never.
    Never,
}

/// One outbound instruction. The runtime executes a list of them in the
/// order given, all or none.
#[derive(Debug, PartialEq, Eq)]
pub enum Instruction {
    /// Sell `amount` units of the guardian `asset` on the market `venue`:
    /// at the price believed, with the spread allowed (both ratios in units
    /// of 10^-18, the venue's own choice where there is none), and with the
    /// proceeds to `to`, or to the module itself where there is none.
    Swap {
        venue: String,
        asset: String,
        amount: u128,
        belief_price: Option<u128>,
        max_spread: Option<u128>,
        to: Option<String>,
    },
    /// Repay the debt at the lending `market` with `amount` of `denom`.
    RepayStable { market: String, denom: &'static str, amount: u128 },
    /// Pay `amount` of `denom` to `recipient`.
    Payout { recipient: String, denom: &'static str, amount: u128 },
    /// Let the `overseer` liquidate the borrower's collateral itself.
    LiquidateCollateral { overseer: String, borrower: String },
    /// Let `spender` draw up to `amount` more of `asset`, until `expires`.
    IncreaseAllowance { asset: String, spender: String, amount: u128, expires: Expiration },
}

impl Clone for Instruction {
    fn clone(&self) -> (copy: Instruction)
        ensures
            copy == *self,
    {
        match self {
            Instruction::Swap { venue, asset, amount, belief_price, max_spread, to } => {
                Instruction::Swap {
                    venue: venue.clone(),
                    asset: asset.clone(),
                    amount: *amount,
                    belief_price: *belief_price,
                    max_spread: *max_spread,
                    to: match to {
                        Some(receiver) => Some(receiver.clone()),
                        None => None,
                    },
                }
            },
            Instruction::RepayStable { market, denom, amount } => Instruction::RepayStable {
                market: market.clone(),
                denom: *denom,
                amount: *amount,
            },
            Instruction::Payout { recipient, denom, amount } => Instruction::Payout {
                recipient: recipient.clone(),
                denom: *denom,
                amount: *amount,
            },
            Instruction::LiquidateCollateral { overseer, borrower } => {
                Instruction::LiquidateCollateral {
                    overseer: overseer.clone(),
                    borrower: borrower.clone(),
                }
            },
            Instruction::IncreaseAllowance { asset, spender, amount, expires } => {
                Instruction::IncreaseAllowance {
                    asset: asset.clone(),
                    spender: spender.clone(),
                    amount: *amount,
                    expires: *expires,
                }
            },
        }
    }
}

/// A copy of the instructions, in their order.
pub fn copy_instructions(instructions: &Vec<Instruction>) -> (copy: Vec<Instruction>)
    ensures
        copy@ == instructions@,
{
    let mut copy: Vec<Instruction> = Vec::new();
    let mut i: usize = 0;
    while i < instructions.len()
        invariant
            i <= instructions.len(),
            copy@ == instructions@.take(i as int),
        decreases instructions.len() - i,
    {
        copy.push(instructions[i].clone());
        assert(instructions@.take(i + 1) == instructions@.take(i as int).push(instructions[i as int]));
        i = i + 1;
    }
    assert(instructions@.take(instructions.len() as int) == instructions@);
    copy
}

} // verus!
