//! Guardian-assisted liquidation for a lending position.
//!
//! A borrower pledges auxiliary ("guardian") assets. When the loan reaches its
//! borrow limit, this library decides whether the position may be liquidated,
//! computes the amount to raise, plans the guardian swaps and composes the
//! settlement, or falls back to the lending protocol's own liquidation.

pub mod contract;
pub mod error;
pub mod instruction;
pub mod liquidation;
pub mod msg;
pub mod planner;
pub mod rehearsal;
pub mod settlement;
pub mod shortfall;
pub mod state;
pub mod wide;
