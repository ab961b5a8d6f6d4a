//! Verified state machines of the sXLM protocol contracts: a liquidity pool, a
//! multi-collateral lending market, parameter governance and its timelock.
//!
//! Each contract is a value that holds what the contract keeps in storage. A call
//! is a method that checks the request, moves the state and returns a
//! [`host::Receipt`]: the value for the caller, the address that has to authorize
//! the call, the token transfers to perform and the events to publish. A rejected
//! call returns an error and leaves the state as it was.

pub mod arith;
pub mod bytes;
pub mod governance;
pub mod host;
pub mod lending;
pub mod lp_pool;
pub mod protocol;
pub mod sdk;
pub mod timelock;
pub mod sums;
