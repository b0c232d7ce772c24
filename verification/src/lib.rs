//! Deterministic contract deployment and addressing against an in-memory ledger.
//!
//! A contract address is a pure function of a deployment key, so it can be
//! previewed before anything is written. Code is uploaded once per content
//! digest, instances are created at most once per address, and the lifetime of
//! both is extended under a threshold policy.

pub mod types;
pub mod hash;
pub mod addressing;
pub mod assoc;
pub mod model;
pub mod ledger;
pub mod env;
pub mod deploy;
pub mod laws;
