//! The settlement composer: from a complete plan to the instructions that
//! settle the liquidation.

use vstd::prelude::*;
use crate::instruction::{copy_instructions, Instruction, SETTLEMENT_DENOM};
use crate::shortfall::Shortfall;

verus! {

/// Every instruction of the sequence is a swap.
pub open spec fn all_swaps(instructions: Seq<Instruction>) -> bool {
    forall|i: int| 0 <= i < instructions.len() ==> instructions[i] is Swap
}

/// The instructions that settle a liquidation. Where the plan leaves
/// nothing to raise: its swaps, then the repayment of the debt above the
/// limit, then the incentive to the caller, both in the settlement
/// currency. Where it leaves something: the
/// swaps are dropped, and the one instruction hands the borrower over to the
/// overseer's own liquidation.
pub open spec fn settlement(
    swaps: Seq<Instruction>,
    left: nat,
    shortfall: Shortfall,
    market: String,
    overseer: String,
    borrower: String,
    caller: String,
) -> Seq<Instruction> {
    if left == 0 {
        swaps.push(
            Instruction::RepayStable {
                market,
                denom: SETTLEMENT_DENOM,
                amount: shortfall.repayment_amount,
            },
        ).push(
            Instruction::Payout {
                recipient: caller,
                denom: SETTLEMENT_DENOM,
                amount: shortfall.liquidator_fee,
            },
        )
    } else {
        seq![Instruction::LiquidateCollateral { overseer, borrower }]
    }
}

/// A settlement that the guardians cover: swaps, then one repayment, then
/// one payout.
pub open spec fn is_guardian_covered(instructions: Seq<Instruction>) -> bool {
    &&& instructions.len() >= 2
    &&& all_swaps(instructions.take(instructions.len() - 2))
    &&& instructions[instructions.len() - 2] is RepayStable
    &&& instructions[instructions.len() - 1] is Payout
}

/// A settlement that falls back: the one instruction to the overseer.
pub open spec fn is_fallback(instructions: Seq<Instruction>) -> bool {
    &&& instructions.len() == 1
    &&& instructions[0] is LiquidateCollateral
}

/// Composes the settlement of a complete plan.
pub fn compose(
    swaps: &Vec<Instruction>,
    left: u128,
    shortfall: &Shortfall,
    market: &String,
    overseer: &String,
    borrower: &String,
    caller: &String,
) -> (instructions: Vec<Instruction>)
    ensures
        instructions@ == settlement(
            swaps@,
            left as nat,
            *shortfall,
            *market,
            *overseer,
            *borrower,
            *caller,
        ),
{
    if left == 0 {
        let mut instructions: Vec<Instruction> = copy_instructions(swaps);
        instructions.push(
            Instruction::RepayStable {
                market: market.clone(),
                denom: SETTLEMENT_DENOM,
                amount: shortfall.repayment_amount,
            },
        );
        instructions.push(
            Instruction::Payout {
                recipient: caller.clone(),
                denom: SETTLEMENT_DENOM,
                amount: shortfall.liquidator_fee,
            },
        );
        instructions
    } else {
        let mut instructions: Vec<Instruction> = Vec::new();
        instructions.push(
            Instruction::LiquidateCollateral {
                overseer: overseer.clone(),
                borrower: borrower.clone(),
            },
        );
        instructions
    }
}

/// A settlement is of exactly one kind: covered by the guardians where the
/// plan leaves nothing to raise, and a fallback where it leaves something.
/// The covered one repays exactly the debt above the limit and pays exactly
/// the incentive to the caller.
pub proof fn law_one_settlement(
    swaps: Seq<Instruction>,
    left: nat,
    shortfall: Shortfall,
    market: String,
    overseer: String,
    borrower: String,
    caller: String,
)
    requires
        all_swaps(swaps),
    ensures
        is_guardian_covered(settlement(swaps, left, shortfall, market, overseer, borrower, caller))
            <==> left == 0,
        is_fallback(settlement(swaps, left, shortfall, market, overseer, borrower, caller))
            <==> left != 0,
        left == 0 ==> {
            let s = settlement(swaps, left, shortfall, market, overseer, borrower, caller);
            &&& s.take(s.len() - 2) == swaps
            &&& s[s.len() - 2] == (Instruction::RepayStable {
                market,
                denom: SETTLEMENT_DENOM,
                amount: shortfall.repayment_amount,
            })
            &&& s[s.len() - 1] == (Instruction::Payout {
                recipient: caller,
                denom: SETTLEMENT_DENOM,
                amount: shortfall.liquidator_fee,
            })
        },
        left != 0 ==> settlement(swaps, left, shortfall, market, overseer, borrower, caller)[0] == (
        Instruction::LiquidateCollateral { overseer, borrower }),
{
    let s = settlement(swaps, left, shortfall, market, overseer, borrower, caller);
    if left == 0 {
        assert(s.take(s.len() - 2) == swaps);
    }
}

} // verus!
