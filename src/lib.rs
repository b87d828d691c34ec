//! Ledger and fairness engine of a stake-and-play pool: escalating batch
//! pricing, an O(1) proportional reward accumulator, and a two-phase
//! jackpot resolver driven by historical entropy.

pub mod error;
pub mod fixed;
pub mod state;
pub mod rewards;
pub mod jackpot;
pub mod click;
pub mod stake;
pub mod claim;
pub mod treasury;
