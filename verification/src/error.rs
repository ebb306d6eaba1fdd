//! The reasons for which a request is turned down.

use vstd::prelude::*;

verus! {

/// Why a request was turned down. No request that is turned down changes
/// any state or emits any instruction.
#[derive(Clone, Copy, Debug, PartialEq, Eq, Structural)]
pub enum ContractError {
    /// An identity or a parameter of the request is malformed.
    Validation,
    /// The caller lacks the privilege that the request needs.
    Unauthorized,
    /// The loan is below its borrow limit: there is nothing to liquidate.
    NotLiquidatable,
    /// A price is older than the validity window allows.
    StalePrice,
    /// A consulted service did not answer, or answered out of turn.
    ExternalService,
    /// A value on the way is beyond what the amounts can hold.
    Overflow,
}

impl ContractError {
    /// A short text for the caller.
    pub fn reason(&self) -> (text: &'static str)
        ensures
            text@ == self.reason_text(),
    {
        match self {
            ContractError::Validation => "malformed request",
            ContractError::Unauthorized => "Unauthorized",
            ContractError::NotLiquidatable => "collateral ratio is safe",
            ContractError::StalePrice => "Price is too old",
            ContractError::ExternalService => "external service failure",
            ContractError::Overflow => "arithmetic operation overflow",
        }
    }

    /// The characters of `reason`.
    pub open spec fn reason_text(&self) -> Seq<char> {
        match self {
            ContractError::Validation => "malformed request"@,
            ContractError::Unauthorized => "Unauthorized"@,
            ContractError::NotLiquidatable => "collateral ratio is safe"@,
            ContractError::StalePrice => "Price is too old"@,
            ContractError::ExternalService => "external service failure"@,
            ContractError::Overflow => "arithmetic operation overflow"@,
        }
    }
}

} // verus!
