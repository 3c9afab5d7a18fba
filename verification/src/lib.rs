//! Long-run economic simulation of a staking/liquidity pool that owes its
//! suppliers their locked principal (LSU) and pays claims out of limited
//! liquidity, day by day over a fixed horizon.
//!
//! The ledger that actually holds vault balances and per-supplier records is
//! an external collaborator, reached only through a narrow port: this crate
//! holds the engine that decides, each simulated day, which pending entries
//! are due, how much liquidity is distributable, and which outstanding claims
//! can be paid without breaking the budget.

pub mod driver;
pub mod liquidity;
pub mod model;
pub mod pending;
pub mod ranking;
pub mod registry;
pub mod selection;
