//! Round-robin ticking of on-chain contracts: the registry of monitored
//! contracts, change detection over their observed state and balances, and
//! the scheduler state machine that decides when a contract is ticked.

pub mod coin;
pub mod config;
pub mod contract;
pub mod guarantees;
pub mod localnet;
pub mod scheduler;
pub mod wallet;
