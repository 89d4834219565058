//! On-chain bookkeeping for trading agents: an agent registry, a liquidation
//! monitor, a route optimizer and an express-lane vault.
//!
//! Each contract is a plain value.  A call takes the contract, the message that
//! reached it and, where it asks another contract something, the replies; it
//! changes the contract, appends to the event log and returns what the caller
//! gets.  Nothing here touches a chain: performing calls, persisting state and
//! emitting events is left to the program around the library.

pub mod abi;
pub mod address;
pub mod address_list;
pub mod agent_registry;
pub mod call;
pub mod call_laws;
pub mod format_laws;
pub mod health;
pub mod health_laws;
pub mod liquidation_monitor;
pub mod log_laws;
pub mod logs;
pub mod mapping;
pub mod registry;
pub mod route_laws;
pub mod route_optimizer;
pub mod route_path;
pub mod routes;
pub mod timeboost_vault;
pub mod tokens;
pub mod vault_totals;
pub mod word;
