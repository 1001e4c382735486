//! A basket ("index") token: a fungible ledger whose supply is backed by a
//! fixed set of underlying assets, acquired and redeemed by routing value
//! through an external automated-market-maker service.
//!
//! The library holds the verified core: the ledger, the call-plan builder,
//! the buy and redeem orchestrators and the result aggregator. Dispatching
//! the call plans to the host environment is left to the embedding program.

pub mod account;
pub mod errors;
pub mod index_token;
pub mod ledger;
pub mod manager;
pub mod metadata;
pub mod plan;
pub mod workflow;
